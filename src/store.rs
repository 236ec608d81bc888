//! In-memory key/value store with per-record expiry and atomic counters.
use vstd::prelude::*;
use crate::keys::{SigningKey, copy_keys};

verus! {

/// A stored value: free text, or a counter maintained by `increment`.
#[derive(Debug)]
pub enum StoreValue {
    Text(String),
    Counter(u64),
    /// A set of signing keys, in the order they were created.
    Keys(Vec<SigningKey>),
}

/// The mathematical content of a `StoreValue`.
pub enum ValueView {
    Text(Seq<char>),
    Counter(u64),
    Keys(Seq<SigningKey>),
}

impl View for StoreValue {
    type V = ValueView;

    open spec fn view(&self) -> ValueView {
        match self {
            StoreValue::Text(t) => ValueView::Text(t@),
            StoreValue::Counter(c) => ValueView::Counter(*c),
            StoreValue::Keys(k) => ValueView::Keys(k@),
        }
    }
}

impl StoreValue {
    /// A copy of this value with the same content.
    pub fn duplicate(&self) -> (r: StoreValue)
        ensures
            r@ == self@,
    {
        match self {
            StoreValue::Text(t) => StoreValue::Text(t.clone()),
            StoreValue::Counter(c) => StoreValue::Counter(*c),
            StoreValue::Keys(k) => StoreValue::Keys(copy_keys(k)),
        }
    }
}

/// One record: its key, its value and the instant (in seconds) at which it expires.
#[derive(Debug)]
pub struct StoreRecord {
    pub key: String,
    pub value: StoreValue,
    pub expires_at: u64,
}

/// What the store holds for one key: the value and its expiry instant.
pub type Entry = (ValueView, u64);

/// The instant at which a record written at `now` with lifetime `ttl` expires.
pub open spec fn expiry(now: u64, ttl: u64) -> u64 {
    if now + ttl > u64::MAX { u64::MAX } else { (now + ttl) as u64 }
}

/// A record is readable strictly before its expiry instant.
pub open spec fn is_live(e: Entry, now: u64) -> bool {
    now < e.1
}

/// What `get` sees for key `k` at time `now`.
pub open spec fn live_value(m: Map<Seq<char>, Entry>, k: Seq<char>, now: u64) -> Option<ValueView> {
    if m.contains_key(k) && is_live(m[k], now) {
        Some(m[k].0)
    } else {
        None
    }
}

/// The records left after reading key `k` at `now`: an expired record under
/// `k` is dropped.
pub open spec fn after_read(m: Map<Seq<char>, Entry>, k: Seq<char>, now: u64) -> Map<Seq<char>, Entry> {
    if m.contains_key(k) && !is_live(m[k], now) {
        m.remove(k)
    } else {
        m
    }
}

/// The records of `m` that are still live at `now`.
pub open spec fn live_entries(m: Map<Seq<char>, Entry>, now: u64) -> Map<Seq<char>, Entry> {
    Map::new(|k: Seq<char>| m.contains_key(k) && is_live(m[k], now), |k: Seq<char>| m[k])
}

/// The counter value that `increment` on key `k` at time `now` produces:
/// one more than a live counter, else a fresh count of one.
pub open spec fn next_count(m: Map<Seq<char>, Entry>, k: Seq<char>, now: u64) -> u64 {
    match live_value(m, k, now) {
        Some(ValueView::Counter(c)) => if c == u64::MAX { c } else { (c + 1) as u64 },
        _ => 1,
    }
}

/// The record that `increment` leaves behind: a live counter keeps its
/// expiry (the window is anchored to its first attempt), anything else is
/// replaced by a fresh counter.
pub open spec fn incremented(m: Map<Seq<char>, Entry>, k: Seq<char>, now: u64, ttl: u64) -> Map<
    Seq<char>,
    Entry,
> {
    match live_value(m, k, now) {
        Some(ValueView::Counter(c)) => m.insert(k, (ValueView::Counter(next_count(m, k, now)), m[k].1)),
        _ => m.insert(k, (ValueView::Counter(1), expiry(now, ttl))),
    }
}

/// The map that a sequence of records stands for.
pub open spec fn map_of(s: Seq<StoreRecord>) -> Map<Seq<char>, Entry>
    decreases s.len(),
{
    if s.len() == 0 {
        Map::empty()
    } else {
        map_of(s.drop_last()).insert(s.last().key@, (s.last().value@, s.last().expires_at))
    }
}

/// No two records share a key.
pub open spec fn keys_unique(s: Seq<StoreRecord>) -> bool {
    forall|i: int, j: int| 0 <= i < s.len() && 0 <= j < s.len() && i != j ==> s[i].key@ != s[j].key@
}

proof fn lemma_map_of_domain(s: Seq<StoreRecord>, k: Seq<char>)
    ensures
        map_of(s).contains_key(k) <==> exists|i: int| 0 <= i < s.len() && s[i].key@ == k,
    decreases s.len(),
{
    if s.len() > 0 {
        lemma_map_of_domain(s.drop_last(), k);
        if map_of(s).contains_key(k) && s.last().key@ != k {
            let i = choose|i: int| 0 <= i < s.len() - 1 && s.drop_last()[i].key@ == k;
            assert(s[i].key@ == k);
        }
        if exists|i: int| 0 <= i < s.len() && s[i].key@ == k {
            let i = choose|i: int| 0 <= i < s.len() && s[i].key@ == k;
            if i < s.len() - 1 {
                assert(s.drop_last()[i].key@ == k);
            }
        }
    }
}

proof fn lemma_map_of_value(s: Seq<StoreRecord>, i: int)
    requires
        keys_unique(s),
        0 <= i < s.len(),
    ensures
        map_of(s).contains_key(s[i].key@),
        map_of(s)[s[i].key@] == (s[i].value@, s[i].expires_at),
    decreases s.len(),
{
    if i < s.len() - 1 {
        assert(keys_unique(s.drop_last()));
        assert(s.drop_last()[i] == s[i]);
        lemma_map_of_value(s.drop_last(), i);
    }
}

proof fn lemma_map_of_update(s: Seq<StoreRecord>, i: int, r: StoreRecord)
    requires
        keys_unique(s),
        0 <= i < s.len(),
        r.key@ == s[i].key@,
    ensures
        keys_unique(s.update(i, r)),
        map_of(s.update(i, r)) == map_of(s).insert(r.key@, (r.value@, r.expires_at)),
{
    let t = s.update(i, r);
    assert(keys_unique(t));
    assert forall|k: Seq<char>| #[trigger] map_of(t).contains_key(k) == map_of(s).insert(r.key@, (r.value@, r.expires_at)).contains_key(k) by {
        lemma_map_of_domain(s, k);
        lemma_map_of_domain(t, k);
        if exists|j: int| 0 <= j < s.len() && s[j].key@ == k {
            let j = choose|j: int| 0 <= j < s.len() && s[j].key@ == k;
            assert(t[j].key@ == k);
        }
        if exists|j: int| 0 <= j < t.len() && t[j].key@ == k {
            let j = choose|j: int| 0 <= j < t.len() && t[j].key@ == k;
            assert(s[j].key@ == k);
        }
    }
    assert forall|k: Seq<char>| #[trigger] map_of(t).contains_key(k) implies map_of(t)[k] == map_of(s).insert(r.key@, (r.value@, r.expires_at))[k] by {
        lemma_map_of_domain(t, k);
        let j = choose|j: int| 0 <= j < t.len() && t[j].key@ == k;
        lemma_map_of_value(t, j);
        if j != i {
            lemma_map_of_value(s, j);
        }
    }
    assert(map_of(t) =~= map_of(s).insert(r.key@, (r.value@, r.expires_at)));
}

proof fn lemma_map_of_remove(s: Seq<StoreRecord>, i: int)
    requires
        keys_unique(s),
        0 <= i < s.len(),
    ensures
        keys_unique(s.remove(i)),
        map_of(s.remove(i)) == map_of(s).remove(s[i].key@),
{
    let t = s.remove(i);
    assert forall|a: int, b: int| 0 <= a < t.len() && 0 <= b < t.len() && a != b implies t[a].key@ != t[b].key@ by {
        let a2 = if a < i { a } else { a + 1 };
        let b2 = if b < i { b } else { b + 1 };
        assert(t[a] == s[a2]);
        assert(t[b] == s[b2]);
    }
    assert forall|k: Seq<char>| #[trigger] map_of(t).contains_key(k) == map_of(s).remove(s[i].key@).contains_key(k) by {
        lemma_map_of_domain(s, k);
        lemma_map_of_domain(t, k);
        if exists|j: int| 0 <= j < s.len() && s[j].key@ == k {
            let j = choose|j: int| 0 <= j < s.len() && s[j].key@ == k;
            if j < i {
                assert(t[j].key@ == k);
            } else if j > i {
                assert(t[j - 1].key@ == k);
            }
        }
        if exists|j: int| 0 <= j < t.len() && t[j].key@ == k {
            let j = choose|j: int| 0 <= j < t.len() && t[j].key@ == k;
            let j2 = if j < i { j } else { j + 1 };
            assert(s[j2].key@ == k);
        }
    }
    assert forall|k: Seq<char>| #[trigger] map_of(t).contains_key(k) implies map_of(t)[k] == map_of(s).remove(s[i].key@)[k] by {
        lemma_map_of_domain(t, k);
        let j = choose|j: int| 0 <= j < t.len() && t[j].key@ == k;
        lemma_map_of_value(t, j);
        let j2 = if j < i { j } else { j + 1 };
        assert(t[j] == s[j2]);
        lemma_map_of_value(s, j2);
    }
    assert(map_of(t) =~= map_of(s).remove(s[i].key@));
}

proof fn lemma_map_of_push(s: Seq<StoreRecord>, r: StoreRecord)
    requires
        keys_unique(s),
        !map_of(s).contains_key(r.key@),
    ensures
        keys_unique(s.push(r)),
        map_of(s.push(r)) == map_of(s).insert(r.key@, (r.value@, r.expires_at)),
{
    assert(s.push(r).drop_last() =~= s);
    assert forall|j: int| 0 <= j < s.len() implies s[j].key@ != r.key@ by {
        lemma_map_of_domain(s, s[j].key@);
    }
    let t = s.push(r);
    assert forall|a: int, b: int| 0 <= a < t.len() && 0 <= b < t.len() && a != b implies t[a].key@ != t[b].key@ by {
        if a < s.len() && b < s.len() {
            assert(t[a] == s[a] && t[b] == s[b]);
        }
    }
}

/// The store after `n` increments of key `k`, all at time `now`.
pub open spec fn repeat_increment(m: Map<Seq<char>, Entry>, k: Seq<char>, now: u64, ttl: u64, n: nat) -> Map<
    Seq<char>,
    Entry,
>
    decreases n,
{
    if n == 0 {
        m
    } else {
        incremented(repeat_increment(m, k, now, ttl, (n - 1) as nat), k, now, ttl)
    }
}

proof fn lemma_repeat_increment(m: Map<Seq<char>, Entry>, k: Seq<char>, now: u64, ttl: u64, n: nat)
    requires
        !(live_value(m, k, now) is Some),
        ttl > 0,
        now < u64::MAX,
        1 <= n < u64::MAX,
    ensures
        repeat_increment(m, k, now, ttl, n).contains_key(k),
        repeat_increment(m, k, now, ttl, n)[k] == (ValueView::Counter(n as u64), expiry(now, ttl)),
    decreases n,
{
    let prev = repeat_increment(m, k, now, ttl, (n - 1) as nat);
    assert(repeat_increment(m, k, now, ttl, n) == incremented(prev, k, now, ttl));
    if n > 1 {
        lemma_repeat_increment(m, k, now, ttl, (n - 1) as nat);
        assert(live_value(prev, k, now) == Some(ValueView::Counter((n - 1) as u64)));
        assert(next_count(prev, k, now) == n);
    } else {
        assert(prev == m);
    }
}

/// Increments of one key are counted without gaps or repeats: starting from a
/// key with no live record, the `i`-th of a run of increments (all within the
/// record's lifetime) returns exactly `i`.
pub proof fn law_increments_count_up(m: Map<Seq<char>, Entry>, k: Seq<char>, now: u64, ttl: u64, i: nat)
    requires
        live_value(m, k, now) is None,
        ttl > 0,
        now < u64::MAX,
        i < u64::MAX,
    ensures
        next_count(repeat_increment(m, k, now, ttl, i), k, now) == i + 1,
{
    if i > 0 {
        lemma_repeat_increment(m, k, now, ttl, i);
    }
}

/// A value written with a positive lifetime is read back at once, and is gone
/// once that lifetime has passed.
pub proof fn law_put_then_get(
    m: Map<Seq<char>, Entry>,
    k: Seq<char>,
    v: ValueView,
    ttl: u64,
    now: u64,
    later: u64,
)
    requires
        ttl > 0,
        now < u64::MAX,
    ensures
        live_value(m.insert(k, (v, expiry(now, ttl))), k, now) == Some(v),
        later >= now + ttl ==> live_value(m.insert(k, (v, expiry(now, ttl))), k, later) is None,
{
}

/// In-memory store. Expired records are dropped lazily when their key is
/// accessed, or all at once by `evict_expired`.
pub struct MemoryStore {
    records: Vec<StoreRecord>,
}

impl View for MemoryStore {
    type V = Map<Seq<char>, Entry>;

    /// Every record the store holds, expired or not, by key.
    closed spec fn view(&self) -> Map<Seq<char>, Entry> {
        map_of(self.records@)
    }
}

impl MemoryStore {
    /// Keys are unique among the records.
    pub closed spec fn wf(&self) -> bool {
        keys_unique(self.records@)
    }

    pub fn new() -> (r: MemoryStore)
        ensures
            r.wf(),
            r@ == Map::<Seq<char>, Entry>::empty(),
    {
        MemoryStore { records: Vec::new() }
    }

    fn find(&self, key: &String) -> (r: Option<usize>)
        requires
            self.wf(),
        ensures
            match r {
                Some(i) => i < self.records@.len() && self.records@[i as int].key@ == key@
                    && self@.contains_key(key@) && self@[key@] == (
                    self.records@[i as int].value@,
                    self.records@[i as int].expires_at,
                ),
                None => !self@.contains_key(key@),
            },
    {
        let mut i: usize = 0;
        while i < self.records.len()
            invariant
                self.wf(),
                i <= self.records@.len(),
                forall|j: int| 0 <= j < i ==> self.records@[j].key@ != key@,
            decreases self.records@.len() - i,
        {
            if self.records[i].key == *key {
                proof {
                    lemma_map_of_value(self.records@, i as int);
                }
                return Some(i);
            }
            i = i + 1;
        }
        proof {
            lemma_map_of_domain(self.records@, key@);
        }
        None
    }

    /// The value under `key`, unless it is absent or has expired at `now`.
    /// An expired record found on the way is removed.
    pub fn get(&mut self, key: &String, now: u64) -> (r: Option<StoreValue>)
        requires
            old(self).wf(),
        ensures
            final(self).wf(),
            match r {
                Some(v) => live_value(old(self)@, key@, now) == Some(v@),
                None => live_value(old(self)@, key@, now) is None,
            },
            final(self)@ == after_read(old(self)@, key@, now),
    {
        match self.find(key) {
            None => None,
            Some(i) => {
                if now < self.records[i].expires_at {
                    Some(self.records[i].value.duplicate())
                } else {
                    proof {
                        lemma_map_of_remove(self.records@, i as int);
                    }
                    self.records.remove(i);
                    None
                }
            },
        }
    }

    /// Writes `value` under `key` for `ttl` seconds from `now`, replacing any
    /// earlier record under that key, value and expiry alike.
    pub fn put(&mut self, key: String, value: StoreValue, ttl: u64, now: u64)
        requires
            old(self).wf(),
        ensures
            final(self).wf(),
            final(self)@ == old(self)@.insert(key@, (value@, expiry(now, ttl))),
    {
        let expires_at = now.saturating_add(ttl);
        self.write(key, value, expires_at);
    }

    fn write(&mut self, key: String, value: StoreValue, expires_at: u64)
        requires
            old(self).wf(),
        ensures
            final(self).wf(),
            final(self)@ == old(self)@.insert(key@, (value@, expires_at)),
    {
        let rec = StoreRecord { key, value, expires_at };
        match self.find(&rec.key) {
            Some(i) => {
                proof {
                    lemma_map_of_update(self.records@, i as int, rec);
                }
                self.records[i] = rec;
            },
            None => {
                proof {
                    lemma_map_of_push(self.records@, rec);
                }
                self.records.push(rec);
            },
        }
    }

    /// Adds one to the live counter under `key` and returns the new count; a
    /// key that is absent, expired or not a counter starts over at one, with
    /// an expiry `ttl` seconds from `now`. A live counter keeps its expiry.
    pub fn increment(&mut self, key: String, ttl: u64, now: u64) -> (r: u64)
        requires
            old(self).wf(),
        ensures
            final(self).wf(),
            r == next_count(old(self)@, key@, now),
            final(self)@ == incremented(old(self)@, key@, now, ttl),
    {
        match self.find(&key) {
            Some(i) => {
                if now < self.records[i].expires_at {
                    match self.records[i].value {
                        StoreValue::Counter(c) => {
                            let n = c.saturating_add(1);
                            let expires_at = self.records[i].expires_at;
                            self.write(key, StoreValue::Counter(n), expires_at);
                            return n;
                        },
                        _ => {},
                    }
                }
            },
            None => {},
        }
        let expires_at = now.saturating_add(ttl);
        self.write(key, StoreValue::Counter(1), expires_at);
        1
    }

    /// Removes the record under `key`, if any.
    pub fn delete(&mut self, key: &String)
        requires
            old(self).wf(),
        ensures
            final(self).wf(),
            final(self)@ == old(self)@.remove(key@),
    {
        match self.find(key) {
            Some(i) => {
                proof {
                    lemma_map_of_remove(self.records@, i as int);
                }
                self.records.remove(i);
            },
            None => {
                assert(self@.remove(key@) =~= self@);
            },
        }
    }
}

impl MemoryStore {
    /// Drops every record that has expired at `now`.
    pub fn evict_expired(&mut self, now: u64)
        requires
            old(self).wf(),
        ensures
            final(self).wf(),
            final(self)@ == live_entries(old(self)@, now),
    {
        let mut kept: Vec<StoreRecord> = Vec::new();
        let mut i: usize = 0;
        assert(map_of(self.records@.subrange(0, 0)) =~= Map::<Seq<char>, Entry>::empty());
        assert(live_entries(Map::<Seq<char>, Entry>::empty(), now) =~= Map::<Seq<char>, Entry>::empty());
        while i < self.records.len()
            invariant
                self.wf(),
                i <= self.records@.len(),
                keys_unique(kept@),
                map_of(kept@) == live_entries(map_of(self.records@.subrange(0, i as int)), now),
            decreases self.records@.len() - i,
        {
            let ghost pre = self.records@.subrange(0, i as int);
            let ghost next = self.records@.subrange(0, i + 1);
            let ghost r = self.records@[i as int];
            assert(next.drop_last() =~= pre);
            assert(next.last() == r);
            proof {
                lemma_map_of_domain(pre, r.key@);
                if map_of(pre).contains_key(r.key@) {
                    let j = choose|j: int| 0 <= j < pre.len() && pre[j].key@ == r.key@;
                    assert(self.records@[j].key@ == r.key@);
                }
            }
            if now < self.records[i].expires_at {
                let rec = StoreRecord {
                    key: self.records[i].key.clone(),
                    value: self.records[i].value.duplicate(),
                    expires_at: self.records[i].expires_at,
                };
                proof {
                    lemma_map_of_push(kept@, rec);
                }
                kept.push(rec);
                assert(map_of(kept@) =~= live_entries(map_of(next), now));
            } else {
                assert(live_entries(map_of(next), now) =~= live_entries(map_of(pre), now));
            }
            i = i + 1;
        }
        assert(self.records@.subrange(0, self.records@.len() as int) =~= self.records@);
        self.records = kept;
    }
}

/// A request to the store's agent.
#[derive(Debug)]
pub enum StoreRequest {
    Get(String),
    Put(String, StoreValue, u64),
    Increment(String, u64),
    Delete(String),
}

/// The store's answer to a request.
#[derive(Debug)]
pub enum StoreResponse {
    Value(Option<StoreValue>),
    Count(u64),
    Done,
}

impl MemoryStore {
    /// Carries out one request at time `now`, as the matching operation does.
    pub fn handle(&mut self, req: StoreRequest, now: u64) -> (r: StoreResponse)
        requires
            old(self).wf(),
        ensures
            final(self).wf(),
            match req {
                StoreRequest::Get(k) => final(self)@ == after_read(old(self)@, k@, now) && match r {
                    StoreResponse::Value(Some(v)) => live_value(old(self)@, k@, now) == Some(v@),
                    StoreResponse::Value(None) => live_value(old(self)@, k@, now) is None,
                    _ => false,
                },
                StoreRequest::Put(k, v, ttl) => final(self)@ == old(self)@.insert(k@, (v@, expiry(now, ttl)))
                    && r is Done,
                StoreRequest::Increment(k, ttl) => final(self)@ == incremented(old(self)@, k@, now, ttl)
                    && r == StoreResponse::Count(next_count(old(self)@, k@, now)),
                StoreRequest::Delete(k) => final(self)@ == old(self)@.remove(k@) && r is Done,
            },
    {
        match req {
            StoreRequest::Get(k) => StoreResponse::Value(self.get(&k, now)),
            StoreRequest::Put(k, v, ttl) => {
                self.put(k, v, ttl, now);
                StoreResponse::Done
            },
            StoreRequest::Increment(k, ttl) => StoreResponse::Count(self.increment(k, ttl, now)),
            StoreRequest::Delete(k) => {
                self.delete(&k);
                StoreResponse::Done
            },
        }
    }
}

} // verus!
