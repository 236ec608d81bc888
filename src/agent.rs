//! The owner side of an agent: a queue of requests that the owning task takes
//! one at a time, first in first out, and that refuses every request once the
//! owner has stopped.
use vstd::prelude::*;

verus! {

/// The agent's owner has stopped; no request will be answered.
#[derive(Clone, Copy, Debug, PartialEq, Eq, Structural)]
pub enum AgentError {
    Disconnected,
}

/// What `send` returns on a mailbox that is open or closed.
pub open spec fn send_result(open: bool) -> Result<(), AgentError> {
    if open {
        Ok(())
    } else {
        Err(AgentError::Disconnected)
    }
}

/// The queue after sending `req` to a mailbox that is open or closed.
pub open spec fn after_send<T>(queue: Seq<T>, open: bool, req: T) -> Seq<T> {
    if open {
        queue.push(req)
    } else {
        queue
    }
}

/// The results of sending each of `reqs` in turn to a mailbox that is open or
/// closed.
pub open spec fn send_results<T>(open: bool, reqs: Seq<T>) -> Seq<Result<(), AgentError>> {
    Seq::new(reqs.len(), |i: int| send_result(open))
}

/// The queue after sending each of `reqs` in turn.
pub open spec fn after_sends<T>(queue: Seq<T>, open: bool, reqs: Seq<T>) -> Seq<T>
    decreases reqs.len(),
{
    if reqs.len() == 0 {
        queue
    } else {
        after_send(after_sends(queue, open, reqs.drop_last()), open, reqs.last())
    }
}

/// Requests waiting for the agent's owner.
pub struct Mailbox<T> {
    queue: Vec<T>,
    connected: bool,
}

impl<T> Mailbox<T> {
    /// The requests waiting, oldest first.
    pub closed spec fn pending(&self) -> Seq<T> {
        self.queue@
    }

    /// The owner still takes requests.
    pub closed spec fn open(&self) -> bool {
        self.connected
    }

    /// An open mailbox with nothing waiting.
    pub fn new() -> (r: Mailbox<T>)
        ensures
            r.open(),
            r.pending() == Seq::<T>::empty(),
    {
        Mailbox { queue: Vec::new(), connected: true }
    }

    /// Queues `req` behind every request sent before it; fails with
    /// `Disconnected`, queueing nothing, once the owner has stopped.
    pub fn send(&mut self, req: T) -> (r: Result<(), AgentError>)
        ensures
            r == send_result(old(self).open()),
            final(self).open() == old(self).open(),
            final(self).pending() == after_send(old(self).pending(), old(self).open(), req),
    {
        if self.connected {
            self.queue.push(req);
            Ok(())
        } else {
            Err(AgentError::Disconnected)
        }
    }

    /// Takes the oldest waiting request, if any.
    pub fn receive(&mut self) -> (r: Option<T>)
        ensures
            final(self).open() == old(self).open(),
            old(self).pending().len() == 0 ==> r is None && final(self).pending() == old(self).pending(),
            old(self).pending().len() > 0 ==> r == Some(old(self).pending()[0])
                && final(self).pending() == old(self).pending().subrange(1, old(self).pending().len() as int),
    {
        if self.queue.len() == 0 {
            None
        } else {
            let req = self.queue.remove(0);
            assert(old(self).pending().remove(0) =~= old(self).pending().subrange(1, old(self).pending().len() as int));
            Some(req)
        }
    }

    /// The owner stops: waiting requests are dropped and every later `send`
    /// fails.
    pub fn disconnect(&mut self)
        ensures
            !final(self).open(),
            final(self).pending() == Seq::<T>::empty(),
    {
        self.connected = false;
        self.queue = Vec::new();
    }

    /// Whether the owner still takes requests.
    pub fn is_connected(&self) -> (r: bool)
        ensures
            r == self.open(),
    {
        self.connected
    }
}

/// Once the owner has stopped, every later send fails with `Disconnected`,
/// and nothing is queued.
pub proof fn law_disconnected_stays_disconnected<T>(queue: Seq<T>, reqs: Seq<T>)
    ensures
        forall|i: int| 0 <= i < reqs.len() ==> #[trigger] send_results(false, reqs)[i] == Err::<(), AgentError>(AgentError::Disconnected),
        after_sends(queue, false, reqs) == queue,
    decreases reqs.len(),
{
    if reqs.len() > 0 {
        law_disconnected_stays_disconnected(queue, reqs.drop_last());
    }
}

/// Requests from one sender are taken in the order they were sent.
pub proof fn law_fifo<T>(queue: Seq<T>, reqs: Seq<T>)
    ensures
        after_sends(queue, true, reqs) == queue + reqs,
    decreases reqs.len(),
{
    if reqs.len() > 0 {
        law_fifo(queue, reqs.drop_last());
        assert(queue + reqs =~= (queue + reqs.drop_last()).push(reqs.last()));
    } else {
        assert(queue + reqs =~= queue);
    }
}

} // verus!
