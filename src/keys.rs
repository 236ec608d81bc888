//! Signing keys and the two key managers: a fixed set supplied at startup,
//! and a set that rotates on a schedule and persists through the store.
use vstd::prelude::*;
use vstd::string::*;
use crate::store::{MemoryStore, StoreRequest, StoreValue, ValueView, Entry, live_value, expiry, after_read};

verus! {

/// The algorithms the broker can sign identity tokens with.
#[derive(Clone, Copy, Debug, PartialEq, Eq, Structural)]
pub enum SigningAlgorithm {
    Rs256,
    EdDsa,
    Es256,
}

/// One signing key. The key material is PEM text; `created_at` is the
/// instant (in seconds) at which the key was generated.
#[derive(Debug)]
pub struct SigningKey {
    pub id: String,
    pub algorithm: SigningAlgorithm,
    pub private_pem: String,
    pub public_pem: String,
    pub created_at: u64,
}

impl SigningKey {
    /// An equal copy of this key.
    pub fn duplicate(&self) -> (r: SigningKey)
        ensures
            r == *self,
    {
        SigningKey {
            id: self.id.clone(),
            algorithm: self.algorithm,
            private_pem: self.private_pem.clone(),
            public_pem: self.public_pem.clone(),
            created_at: self.created_at,
        }
    }
}

/// A copy of a list of keys, with the same keys in the same order.
pub fn copy_keys(keys: &Vec<SigningKey>) -> (r: Vec<SigningKey>)
    ensures
        r@ == keys@,
{
    let mut r: Vec<SigningKey> = Vec::new();
    let mut i: usize = 0;
    while i < keys.len()
        invariant
            i <= keys@.len(),
            r@ == keys@.subrange(0, i as int),
        decreases keys@.len() - i,
    {
        r.push(keys[i].duplicate());
        i = i + 1;
        assert(r@ =~= keys@.subrange(0, i as int));
    }
    assert(keys@.subrange(0, keys@.len() as int) =~= keys@);
    r
}

/// Signing was asked for with an algorithm that has no usable key.
#[derive(Clone, Copy, Debug, PartialEq, Eq, Structural)]
pub enum KeyManagerError {
    NoKeyForAlgorithm(SigningAlgorithm),
}

/// Why a fixed key set could not be set up.
#[derive(Clone, Copy, Debug, PartialEq, Eq, Structural)]
pub enum ManualKeysError {
    /// An algorithm the broker signs with has no key.
    MissingKey(SigningAlgorithm),
    /// Two keys were supplied for one algorithm.
    DuplicateKey(SigningAlgorithm),
}

/// The index of the last key for algorithm `a`: the one that signs.
pub open spec fn current_index(s: Seq<SigningKey>, a: SigningAlgorithm) -> Option<int>
    decreases s.len(),
{
    if s.len() == 0 {
        None
    } else if s.last().algorithm == a {
        Some(s.len() - 1)
    } else {
        current_index(s.drop_last(), a)
    }
}

/// Some key in `s` is for algorithm `a`.
pub open spec fn has_key_for(s: Seq<SigningKey>, a: SigningAlgorithm) -> bool {
    exists|i: int| 0 <= i < s.len() && s[i].algorithm == a
}

/// Two keys in `s` are for algorithm `a`.
pub open spec fn duplicated(s: Seq<SigningKey>, a: SigningAlgorithm) -> bool {
    exists|i: int, j: int| 0 <= i < j < s.len() && s[i].algorithm == a && s[j].algorithm == a
}

/// Some algorithm has two keys in `s`.
pub open spec fn has_duplicate(s: Seq<SigningKey>) -> bool {
    exists|a: SigningAlgorithm| duplicated(s, a)
}

/// Some algorithm of `algs` has no key in `s`.
pub open spec fn has_missing(s: Seq<SigningKey>, algs: Seq<SigningAlgorithm>) -> bool {
    exists|i: int| 0 <= i < algs.len() && !has_key_for(s, #[trigger] algs[i])
}

proof fn lemma_current_index(s: Seq<SigningKey>, a: SigningAlgorithm)
    ensures
        match current_index(s, a) {
            Some(i) => 0 <= i < s.len() && s[i].algorithm == a && forall|j: int|
                i < j < s.len() ==> s[j].algorithm != a,
            None => !has_key_for(s, a),
        },
    decreases s.len(),
{
    if s.len() > 0 && s.last().algorithm != a {
        lemma_current_index(s.drop_last(), a);
        if let Some(i) = current_index(s, a) {
            assert(s.drop_last()[i] == s[i]);
            assert forall|j: int| i < j < s.len() implies s[j].algorithm != a by {
                if j < s.len() - 1 {
                    assert(s.drop_last()[j] == s[j]);
                }
            }
        }
        if current_index(s, a) is None {
            assert forall|i: int| 0 <= i < s.len() implies s[i].algorithm != a by {
                if i < s.len() - 1 {
                    assert(s.drop_last()[i] == s[i]);
                }
            }
        }
    }
}

/// The key that signs for `a` among `keys`, when signing with `a` is
/// configured.
pub open spec fn configured_key(keys: Seq<SigningKey>, algs: Seq<SigningAlgorithm>, a: SigningAlgorithm) -> Option<SigningKey> {
    match current_index(keys, a) {
        Some(i) => if algs.contains(a) {
            Some(keys[i])
        } else {
            None
        },
        None => None,
    }
}

/// A key created at `created_at` is still valid at `now` under lifetime `ttl`.
pub open spec fn unexpired(created_at: u64, now: u64, ttl: u64) -> bool {
    now < created_at + ttl
}

/// The key that signs for `a` among `keys`, when signing with `a` is
/// configured and the key has not expired at `now`.
pub open spec fn signer(keys: Seq<SigningKey>, algs: Seq<SigningAlgorithm>, a: SigningAlgorithm, now: u64, ttl: u64) -> Option<SigningKey> {
    match configured_key(keys, algs, a) {
        Some(k) => if unexpired(k.created_at, now, ttl) {
            Some(k)
        } else {
            None
        },
        None => None,
    }
}

fn contains_alg(algs: &Vec<SigningAlgorithm>, a: SigningAlgorithm) -> (r: bool)
    ensures
        r == algs@.contains(a),
{
    let mut i: usize = 0;
    while i < algs.len()
        invariant
            i <= algs@.len(),
            forall|j: int| 0 <= j < i ==> algs@[j] != a,
        decreases algs@.len() - i,
    {
        if algs[i] == a {
            return true;
        }
        i = i + 1;
    }
    false
}

fn find_current(keys: &Vec<SigningKey>, a: SigningAlgorithm) -> (r: Option<usize>)
    ensures
        match r {
            Some(i) => i < keys@.len() && current_index(keys@, a) == Some(i as int),
            None => current_index(keys@, a) is None,
        },
{
    proof {
        lemma_current_index(keys@, a);
    }
    let mut i: usize = keys.len();
    assert(keys@.subrange(0, i as int) =~= keys@);
    while i > 0
        invariant
            i <= keys@.len(),
            current_index(keys@, a) == current_index(keys@.subrange(0, i as int), a),
        decreases i,
    {
        let ghost t = keys@.subrange(0, i as int);
        assert(t.drop_last() =~= keys@.subrange(0, i - 1));
        if keys[i - 1].algorithm == a {
            return Some(i - 1);
        }
        i = i - 1;
    }
    assert(keys@.subrange(0, 0) =~= Seq::<SigningKey>::empty());
    None
}

/// The signing key for `a`, with the conditions of `configured_key`.
fn select_key(keys: &Vec<SigningKey>, algs: &Vec<SigningAlgorithm>, a: SigningAlgorithm) -> (r: Result<SigningKey, KeyManagerError>)
    ensures
        match configured_key(keys@, algs@, a) {
            Some(k) => r == Ok::<SigningKey, KeyManagerError>(k),
            None => r == Err::<SigningKey, KeyManagerError>(KeyManagerError::NoKeyForAlgorithm(a)),
        },
{
    if !contains_alg(algs, a) {
        return Err(KeyManagerError::NoKeyForAlgorithm(a));
    }
    match find_current(keys, a) {
        Some(i) => Ok(keys[i].duplicate()),
        None => Err(KeyManagerError::NoKeyForAlgorithm(a)),
    }
}

/// A fixed set of keys, supplied at startup and never changed.
pub struct ManualKeys {
    keys: Vec<SigningKey>,
    signing_algs: Vec<SigningAlgorithm>,
}

impl View for ManualKeys {
    type V = Seq<SigningKey>;

    closed spec fn view(&self) -> Seq<SigningKey> {
        self.keys@
    }
}

impl ManualKeys {
    /// The algorithms the broker signs with.
    pub closed spec fn algs(&self) -> Seq<SigningAlgorithm> {
        self.signing_algs@
    }

    /// Sets up the key set. Fails if two keys share an algorithm, or else if
    /// an algorithm of `signing_algs` has no key.
    pub fn new(keys: Vec<SigningKey>, signing_algs: &Vec<SigningAlgorithm>) -> (r: Result<ManualKeys, ManualKeysError>)
        ensures
            match r {
                Ok(m) => m@ == keys@ && m.algs() == signing_algs@ && !has_duplicate(keys@)
                    && !has_missing(keys@, signing_algs@),
                Err(ManualKeysError::DuplicateKey(a)) => duplicated(keys@, a),
                Err(ManualKeysError::MissingKey(a)) => !has_duplicate(keys@) && signing_algs@.contains(a)
                    && !has_key_for(keys@, a),
            },
    {
        let mut i: usize = 0;
        while i < keys.len()
            invariant
                i <= keys@.len(),
                forall|p: int, q: int| 0 <= p < q < i ==> keys@[p].algorithm != keys@[q].algorithm,
            decreases keys@.len() - i,
        {
            let mut j: usize = 0;
            while j < i
                invariant
                    i < keys@.len(),
                    j <= i,
                    forall|p: int| 0 <= p < j ==> keys@[p].algorithm != keys@[i as int].algorithm,
                decreases i - j,
            {
                if keys[j].algorithm == keys[i].algorithm {
                    let a = keys[i].algorithm;
                    proof {
                        assert(0 <= j < i < keys@.len() && keys@[j as int].algorithm == a);
                        assert(duplicated(keys@, a));
                    }
                    return Err(ManualKeysError::DuplicateKey(a));
                }
                j = j + 1;
            }
            i = i + 1;
        }
        assert(!has_duplicate(keys@));
        let mut k: usize = 0;
        while k < signing_algs.len()
            invariant
                k <= signing_algs@.len(),
                !has_duplicate(keys@),
                forall|p: int| 0 <= p < k ==> has_key_for(keys@, #[trigger] signing_algs@[p]),
            decreases signing_algs@.len() - k,
        {
            let a = signing_algs[k];
            match find_current(&keys, a) {
                None => {
                    proof {
                        lemma_current_index(keys@, a);
                        assert(signing_algs@[k as int] == a);
                    }
                    return Err(ManualKeysError::MissingKey(a));
                },
                Some(_) => {
                    proof {
                        lemma_current_index(keys@, a);
                    }
                },
            }
            k = k + 1;
        }
        Ok(ManualKeys { keys, signing_algs: signing_algs.clone() })
    }

    /// Every key, for publication.
    pub fn public_keys(&self) -> (r: Vec<SigningKey>)
        ensures
            r@ == self@,
    {
        copy_keys(&self.keys)
    }

    /// The key that signs for `alg`.
    pub fn signing_key(&self, alg: SigningAlgorithm) -> (r: Result<SigningKey, KeyManagerError>)
        ensures
            match configured_key(self@, self.algs(), alg) {
                Some(k) => r == Ok::<SigningKey, KeyManagerError>(k),
                None => r == Err::<SigningKey, KeyManagerError>(KeyManagerError::NoKeyForAlgorithm(alg)),
            },
    {
        select_key(&self.keys, &self.signing_algs, alg)
    }
}

/// The store key under which a rotating key set is persisted.
pub open spec fn key_set_key() -> Seq<char> {
    "keys:rotating"@
}

/// The interval at which rotating keys are replaced: half their lifetime, so
/// that a replaced key stays published for the other half.
pub open spec fn rotation_interval(ttl: u64) -> u64 {
    (ttl / 2) as u64
}

/// The keys of `s` that have not expired at `now`, in order.
pub open spec fn live_keys(s: Seq<SigningKey>, now: u64, ttl: u64) -> Seq<SigningKey>
    decreases s.len(),
{
    if s.len() == 0 {
        s
    } else if unexpired(s.last().created_at, now, ttl) {
        live_keys(s.drop_last(), now, ttl).push(s.last())
    } else {
        live_keys(s.drop_last(), now, ttl)
    }
}

/// The key set that a restart finds in the store at `now`: the persisted set
/// if one is live, else none.
pub open spec fn restored_keys(m: Map<Seq<char>, Entry>, now: u64) -> Seq<SigningKey> {
    match live_value(m, key_set_key(), now) {
        Some(ValueView::Keys(s)) => s,
        _ => Seq::empty(),
    }
}

/// A key set that rotates: for each algorithm the most recently installed key
/// signs, older keys stay published until `keys_ttl` seconds after their
/// creation, and the set is persisted through the store.
pub struct RotatingKeys {
    keys_ttl: u64,
    signing_algs: Vec<SigningAlgorithm>,
    keys: Vec<SigningKey>,
}

impl View for RotatingKeys {
    type V = Seq<SigningKey>;

    closed spec fn view(&self) -> Seq<SigningKey> {
        self.keys@
    }
}

impl RotatingKeys {
    /// The algorithms the broker signs with.
    pub closed spec fn algs(&self) -> Seq<SigningAlgorithm> {
        self.signing_algs@
    }

    /// The lifetime of each key, in seconds.
    pub closed spec fn ttl(&self) -> u64 {
        self.keys_ttl
    }

    /// A key set with no keys yet: every algorithm is due for a key.
    pub fn new(keys_ttl: u64, signing_algs: Vec<SigningAlgorithm>) -> (r: RotatingKeys)
        requires
            keys_ttl >= 2,
        ensures
            r@ == Seq::<SigningKey>::empty(),
            r.algs() == signing_algs@,
            r.ttl() == keys_ttl,
    {
        RotatingKeys { keys_ttl, signing_algs, keys: Vec::new() }
    }

    /// The key set that the store holds at `now`, or an empty one where it
    /// holds none.
    pub fn restore(keys_ttl: u64, signing_algs: Vec<SigningAlgorithm>, store: &mut MemoryStore, now: u64) -> (r: RotatingKeys)
        requires
            keys_ttl >= 2,
            old(store).wf(),
        ensures
            final(store).wf(),
            final(store)@ == after_read(old(store)@, key_set_key(), now),
            r@ == restored_keys(old(store)@, now),
            r.algs() == signing_algs@,
            r.ttl() == keys_ttl,
    {
        let key = String::from_str("keys:rotating");
        proof {
            reveal_strlit("keys:rotating");
        }
        let keys = match store.get(&key, now) {
            Some(StoreValue::Keys(k)) => k,
            _ => Vec::new(),
        };
        RotatingKeys { keys_ttl, signing_algs, keys }
    }

    /// Writes the key set to the store, to live as long as a key does.
    pub fn persist(&self, store: &mut MemoryStore, now: u64)
        requires
            old(store).wf(),
        ensures
            final(store).wf(),
            final(store)@ == old(store)@.insert(key_set_key(), (ValueView::Keys(self@), expiry(now, self.ttl()))),
    {
        let key = String::from_str("keys:rotating");
        proof {
            reveal_strlit("keys:rotating");
        }
        store.put(key, StoreValue::Keys(copy_keys(&self.keys)), self.keys_ttl, now);
    }

    /// The request that reads the persisted key set from a store agent.
    pub fn load_request() -> (r: StoreRequest)
        ensures
            r matches StoreRequest::Get(k) && k@ == key_set_key(),
    {
        proof {
            reveal_strlit("keys:rotating");
        }
        StoreRequest::Get(String::from_str("keys:rotating"))
    }

    /// The key set that a store agent answered `load_request` with, or an
    /// empty one where it held none.
    pub fn from_stored(keys_ttl: u64, signing_algs: Vec<SigningAlgorithm>, stored: Option<StoreValue>) -> (r: RotatingKeys)
        requires
            keys_ttl >= 2,
        ensures
            r@ == match stored {
                Some(StoreValue::Keys(k)) => k@,
                _ => Seq::<SigningKey>::empty(),
            },
            r.algs() == signing_algs@,
            r.ttl() == keys_ttl,
    {
        let keys = match stored {
            Some(StoreValue::Keys(k)) => k,
            _ => Vec::new(),
        };
        RotatingKeys { keys_ttl, signing_algs, keys }
    }

    /// The request that writes the key set to a store agent, as `persist` does.
    pub fn persist_request(&self) -> (r: StoreRequest)
        ensures
            r matches StoreRequest::Put(k, v, ttl) && k@ == key_set_key() && v@ == ValueView::Keys(self@)
                && ttl == self.ttl(),
    {
        proof {
            reveal_strlit("keys:rotating");
        }
        StoreRequest::Put(String::from_str("keys:rotating"), StoreValue::Keys(copy_keys(&self.keys)), self.keys_ttl)
    }

    /// The algorithms the broker signs with.
    pub fn signing_algs(&self) -> (r: Vec<SigningAlgorithm>)
        ensures
            r@ == self.algs(),
    {
        self.signing_algs.clone()
    }

    /// Whether `alg` needs a new key at `now`: it has none, or its signing key
    /// is at least one rotation interval old.
    pub fn rotation_due(&self, alg: SigningAlgorithm, now: u64) -> (r: bool)
        ensures
            r == match current_index(self@, alg) {
                None => true,
                Some(i) => now >= self@[i].created_at + rotation_interval(self.ttl()),
            },
    {
        match find_current(&self.keys, alg) {
            None => true,
            Some(i) => (now as u128) >= (self.keys[i].created_at as u128) + ((self.keys_ttl / 2) as u128),
        }
    }

    /// Adds a freshly generated key; it signs for its algorithm from now on,
    /// while the key it replaces stays published.
    pub fn install(&mut self, key: SigningKey)
        ensures
            final(self)@ == old(self)@.push(key),
            final(self).algs() == old(self).algs(),
            final(self).ttl() == old(self).ttl(),
    {
        self.keys.push(key);
    }

    /// Drops every key that has expired at `now`.
    pub fn expire(&mut self, now: u64)
        ensures
            final(self)@ == live_keys(old(self)@, now, old(self).ttl()),
            final(self).algs() == old(self).algs(),
            final(self).ttl() == old(self).ttl(),
    {
        let mut kept: Vec<SigningKey> = Vec::new();
        let mut i: usize = 0;
        while i < self.keys.len()
            invariant
                i <= self.keys@.len(),
                kept@ == live_keys(self.keys@.subrange(0, i as int), now, self.keys_ttl),
            decreases self.keys@.len() - i,
        {
            let ghost pre = self.keys@.subrange(0, i as int);
            assert(self.keys@.subrange(0, i + 1).drop_last() =~= pre);
            if (now as u128) < (self.keys[i].created_at as u128) + (self.keys_ttl as u128) {
                kept.push(self.keys[i].duplicate());
            }
            i = i + 1;
        }
        assert(self.keys@.subrange(0, self.keys@.len() as int) =~= self.keys@);
        self.keys = kept;
    }

    /// Every key, for publication.
    pub fn public_keys(&self) -> (r: Vec<SigningKey>)
        ensures
            r@ == self@,
    {
        copy_keys(&self.keys)
    }

    /// The key that signs for `alg` at `now`: the newest key for it, unless
    /// that key has expired.
    pub fn signing_key(&self, alg: SigningAlgorithm, now: u64) -> (r: Result<SigningKey, KeyManagerError>)
        ensures
            match signer(self@, self.algs(), alg, now, self.ttl()) {
                Some(k) => r == Ok::<SigningKey, KeyManagerError>(k),
                None => r == Err::<SigningKey, KeyManagerError>(KeyManagerError::NoKeyForAlgorithm(alg)),
            },
    {
        match select_key(&self.keys, &self.signing_algs, alg) {
            Ok(k) => {
                if (now as u128) < (k.created_at as u128) + (self.keys_ttl as u128) {
                    Ok(k)
                } else {
                    Err(KeyManagerError::NoKeyForAlgorithm(alg))
                }
            },
            Err(e) => Err(e),
        }
    }
}

proof fn lemma_live_keys(s: Seq<SigningKey>, now: u64, ttl: u64, k: SigningKey)
    ensures
        live_keys(s, now, ttl).contains(k) <==> (s.contains(k) && unexpired(k.created_at, now, ttl)),
    decreases s.len(),
{
    if s.len() > 0 {
        lemma_live_keys(s.drop_last(), now, ttl, k);
        let l = live_keys(s.drop_last(), now, ttl);
        if s.contains(k) && k != s.last() {
            let i = choose|i: int| 0 <= i < s.len() && s[i] == k;
            assert(s.drop_last()[i] == k);
        }
        if s.drop_last().contains(k) {
            let i = choose|i: int| 0 <= i < s.drop_last().len() && s.drop_last()[i] == k;
            assert(s[i] == k);
        }
        if unexpired(s.last().created_at, now, ttl) {
            assert(l.push(s.last())[l.len() as int] == s.last());
            if l.push(s.last()).contains(k) && k != s.last() {
                let i = choose|i: int| 0 <= i < l.len() + 1 && l.push(s.last())[i] == k;
                assert(l[i] == k);
            }
            if l.contains(k) {
                let i = choose|i: int| 0 <= i < l.len() && l[i] == k;
                assert(l.push(s.last())[i] == k);
            }
        }
        assert(s[s.len() - 1] == s.last());
    }
}

/// Installing a key makes it the signer for its algorithm (while it is
/// unexpired and its algorithm is configured), keeps every earlier key
/// published, and leaves the signer of every other algorithm as it was.
pub proof fn law_rotation_switches_signer(
    keys: Seq<SigningKey>,
    algs: Seq<SigningAlgorithm>,
    k: SigningKey,
    other: SigningAlgorithm,
    now: u64,
    ttl: u64,
)
    requires
        algs.contains(k.algorithm),
        unexpired(k.created_at, now, ttl),
        other != k.algorithm,
    ensures
        signer(keys.push(k), algs, k.algorithm, now, ttl) == Some(k),
        forall|i: int| 0 <= i < keys.len() ==> keys.push(k).contains(#[trigger] keys[i]),
        signer(keys.push(k), algs, other, now, ttl) == signer(keys, algs, other, now, ttl),
{
    let t = keys.push(k);
    assert(t.drop_last() =~= keys);
    assert forall|i: int| 0 <= i < keys.len() implies t.contains(#[trigger] keys[i]) by {
        assert(t[i] == keys[i]);
    }
    if let Some(i) = current_index(keys, other) {
        lemma_current_index(keys, other);
        assert(t[i] == keys[i]);
    }
}

/// A key is published after `expire` exactly while it is unexpired: it is
/// dropped once `ttl` seconds have passed since its creation, and it is still
/// there when its rotation falls due.
pub proof fn law_expiry_retires_keys(s: Seq<SigningKey>, k: SigningKey, now: u64, ttl: u64)
    requires
        s.contains(k),
        ttl >= 2,
    ensures
        now >= k.created_at + ttl ==> !live_keys(s, now, ttl).contains(k),
        now < k.created_at + ttl ==> live_keys(s, now, ttl).contains(k),
        now <= k.created_at + rotation_interval(ttl) ==> live_keys(s, now, ttl).contains(k),
{
    lemma_live_keys(s, now, ttl, k);
}

/// A key set persisted at `now` is what a restart finds at any later time
/// before the set's lifetime ends: the same keys, with their creation times,
/// so the same key signs and the rotation schedule resumes where it was.
pub proof fn law_restart_keeps_keys(m: Map<Seq<char>, Entry>, keys: Seq<SigningKey>, ttl: u64, now: u64, later: u64)
    requires
        now <= later,
        later < now + ttl,
        later < u64::MAX,
    ensures
        restored_keys(m.insert(key_set_key(), (ValueView::Keys(keys), expiry(now, ttl))), later) == keys,
{
    let m2 = m.insert(key_set_key(), (ValueView::Keys(keys), expiry(now, ttl)));
    assert(m2[key_set_key()] == (ValueView::Keys(keys), expiry(now, ttl)));
    assert(later < expiry(now, ttl));
    assert(live_value(m2, key_set_key(), later) == Some(ValueView::Keys(keys)));
}

/// Either key manager, behind one set of operations.
pub enum KeyManager {
    Manual(ManualKeys),
    Rotating(RotatingKeys),
}

/// The key that signs for `a` at `now` under key manager `km`.
pub open spec fn manager_signer(km: KeyManager, a: SigningAlgorithm, now: u64) -> Option<SigningKey> {
    match km {
        KeyManager::Manual(m) => configured_key(m@, m.algs(), a),
        KeyManager::Rotating(r) => signer(r@, r.algs(), a, now, r.ttl()),
    }
}

/// The keys that key manager `km` publishes.
pub open spec fn manager_keys(km: KeyManager) -> Seq<SigningKey> {
    match km {
        KeyManager::Manual(m) => m@,
        KeyManager::Rotating(r) => r@,
    }
}

impl KeyManager {
    /// Every published key.
    pub fn public_keys(&self) -> (r: Vec<SigningKey>)
        ensures
            r@ == manager_keys(*self),
    {
        match self {
            KeyManager::Manual(m) => m.public_keys(),
            KeyManager::Rotating(k) => k.public_keys(),
        }
    }

    /// The key that signs for `alg` at `now`.
    pub fn signing_key(&self, alg: SigningAlgorithm, now: u64) -> (r: Result<SigningKey, KeyManagerError>)
        ensures
            match manager_signer(*self, alg, now) {
                Some(k) => r == Ok::<SigningKey, KeyManagerError>(k),
                None => r == Err::<SigningKey, KeyManagerError>(KeyManagerError::NoKeyForAlgorithm(alg)),
            },
    {
        match self {
            KeyManager::Manual(m) => m.signing_key(alg),
            KeyManager::Rotating(k) => k.signing_key(alg, now),
        }
    }
}

/// Right after initialization, when one fresh key was installed for each of
/// the configured algorithms (all distinct), each algorithm has exactly one
/// key, and that key signs.
pub proof fn law_initial_keys_one_per_algorithm(
    ks: Seq<SigningKey>,
    algs: Seq<SigningAlgorithm>,
    now: u64,
    ttl: u64,
)
    requires
        ks.len() == algs.len(),
        forall|i: int| 0 <= i < ks.len() ==> #[trigger] ks[i].algorithm == algs[i],
        forall|i: int, j: int| 0 <= i < j < algs.len() ==> algs[i] != algs[j],
        forall|i: int| 0 <= i < ks.len() ==> unexpired(#[trigger] ks[i].created_at, now, ttl),
    ensures
        forall|i: int| 0 <= i < algs.len() ==> signer(ks, algs, #[trigger] algs[i], now, ttl) == Some(ks[i]),
        forall|i: int, j: int|
            0 <= i < algs.len() && 0 <= j < ks.len() && #[trigger] ks[j].algorithm == #[trigger] algs[i] ==> j == i,
{
    assert forall|i: int, j: int|
        0 <= i < algs.len() && 0 <= j < ks.len() && #[trigger] ks[j].algorithm == #[trigger] algs[i] implies j == i by {
        assert(ks[j].algorithm == algs[j]);
        if j < i {
            assert(algs[j] != algs[i]);
        } else if i < j {
            assert(algs[i] != algs[j]);
        }
    }
    assert forall|i: int| 0 <= i < algs.len() implies signer(ks, algs, #[trigger] algs[i], now, ttl) == Some(ks[i]) by {
        lemma_current_index(ks, algs[i]);
        assert(ks[i].algorithm == algs[i]);
        let c = current_index(ks, algs[i])->Some_0;
        assert(ks[c].algorithm == algs[c]);
        if c < i {
            assert(algs[c] != algs[i]);
        } else if i < c {
            assert(algs[i] != algs[c]);
        }
        assert(algs.contains(algs[i]));
    }
}

} // verus!
