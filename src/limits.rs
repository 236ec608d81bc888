//! Per-email fixed-window limit on authentication attempts.
//!
//! The window starts at the first attempt and lasts `duration` seconds: it is
//! the lifetime of the counter record that the first attempt creates. Within
//! one window at most `max_count` attempts are accepted.
use vstd::prelude::*;
use vstd::string::*;
use crate::store::{MemoryStore, StoreRequest, next_count, incremented, repeat_increment, law_increments_count_up, live_value, Entry};

verus! {

/// A limit of `max_count` attempts per `duration` seconds.
#[derive(Clone, Copy, Debug, PartialEq, Eq)]
pub struct LimitConfig {
    pub max_count: u64,
    pub duration: u64,
}

/// The attempt was refused because the limit for the window was reached.
#[derive(Clone, Copy, Debug, PartialEq, Eq)]
pub struct RateLimited;

impl LimitConfig {
    /// `max_count` attempts per minute.
    pub fn per_minute(max_count: u64) -> (r: LimitConfig)
        ensures
            r.max_count == max_count,
            r.duration == 60,
    {
        LimitConfig { max_count, duration: 60 }
    }
}

/// The store key under which attempts for `email` are counted.
pub open spec fn limit_key(email: Seq<char>) -> Seq<char> {
    "limit:email:"@ + email
}

/// The store key under which attempts for `email` are counted.
pub fn limit_key_for(email: &String) -> (r: String)
    ensures
        r@ == limit_key(email@),
{
    let key = String::from_str("limit:email:");
    key.concat(email.as_str())
}

/// The verdict on an attempt that brought the window's count to `count`.
pub fn verdict(limit: &LimitConfig, count: u64) -> (r: Result<(), RateLimited>)
    ensures
        r == if count <= limit.max_count {
            Ok::<(), RateLimited>(())
        } else {
            Err(RateLimited)
        },
{
    if count <= limit.max_count {
        Ok(())
    } else {
        Err(RateLimited)
    }
}

/// The request that counts one attempt for `email` at a store agent; its
/// answer goes to `verdict`.
pub fn attempt_request(limit: &LimitConfig, email: &String) -> (r: StoreRequest)
    ensures
        r matches StoreRequest::Increment(k, ttl) && k@ == limit_key(email@) && ttl == limit.duration,
{
    StoreRequest::Increment(limit_key_for(email), limit.duration)
}

/// Counts one attempt for `email` at `now` and refuses it when the count in
/// the current window exceeds the configured maximum.
pub fn check_and_increment(store: &mut MemoryStore, limit: &LimitConfig, email: &String, now: u64) -> (r: Result<(), RateLimited>)
    requires
        old(store).wf(),
    ensures
        final(store).wf(),
        final(store)@ == incremented(old(store)@, limit_key(email@), now, limit.duration),
        r == if next_count(old(store)@, limit_key(email@), now) <= limit.max_count {
            Ok::<(), RateLimited>(())
        } else {
            Err(RateLimited)
        },
{
    let key = limit_key_for(email);
    let count = store.increment(key, limit.duration, now);
    verdict(limit, count)
}

/// Within one window that starts with no live counter for the email, the
/// `i`-th attempt (counting from zero) is accepted exactly when fewer than
/// `max_count` attempts came before it.
pub proof fn law_window_admits_max_count(m: Map<Seq<char>, Entry>, limit: LimitConfig, email: Seq<char>, now: u64, i: nat)
    requires
        live_value(m, limit_key(email), now) is None,
        limit.duration > 0,
        now < u64::MAX,
        i < u64::MAX,
    ensures
        (next_count(repeat_increment(m, limit_key(email), now, limit.duration, i), limit_key(email), now)
            <= limit.max_count) <==> i < limit.max_count,
{
    law_increments_count_up(m, limit_key(email), now, limit.duration, i);
}

} // verus!
