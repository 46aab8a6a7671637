use std::collections::HashMap;
use vstd::prelude::*;

verus! {

broadcast use vstd::std_specs::hash::group_hash_axioms;

/// Why a backend cache operation failed.
#[derive(Clone, Copy, Debug, PartialEq, Eq, Structural)]
pub enum CacheError {
    /// The cache could not be reached.
    BackendUnavailable,
    /// A value could not be encoded or decoded.
    Serialization,
}

/// The instant, in seconds, at which a value stored at `now` for `ttl` seconds
/// expires; the last representable instant stands for "never".
pub open spec fn expiry(now: u64, ttl: u64) -> u64 {
    if now + ttl > u64::MAX { u64::MAX } else { (now + ttl) as u64 }
}

/// Whether an entry expiring at `until` is still live at `now`.
pub open spec fn is_live(until: u64, now: u64) -> bool {
    until == u64::MAX || now < until
}

/// The value a lookup of `key` at `now` finds: one stored and not yet expired.
pub open spec fn live_value<V>(m: Map<u64, (V, u64)>, key: u64, now: u64) -> Option<V> {
    if m.contains_key(key) && is_live(m[key].1, now) { Some(m[key].0) } else { None }
}

/// A value stored for a positive lifetime is found by a lookup at the same instant,
/// whatever the store held before, and other keys are found as before.
pub proof fn lemma_store_then_lookup<V>(m: Map<u64, (V, u64)>, key: u64, v: V, ttl: u64, now: u64, other: u64)
    requires
        ttl > 0,
    ensures
        live_value(m.insert(key, (v, expiry(now, ttl))), key, now) == Some(v),
        other != key ==> live_value(m.insert(key, (v, expiry(now, ttl))), other, now) == live_value(m, other, now),
{
}

/// A key-value store whose entries expire after a lifetime in seconds, shared by
/// the requests of a server. Time is passed in by the caller. Its operations may
/// fail; a miss is not a failure.
pub trait BackendCache<V> {
    /// Each key's value and the instant it expires.
    spec fn entries(&self) -> Map<u64, (V, u64)>;

    /// Every write asked of this backend, in order: key, value and expiry instant.
    spec fn requested(&self) -> Seq<(u64, V, u64)>;

    /// The live value of `key` at `now`, or none on a miss.
    fn get(&self, key: u64, now: u64) -> (r: Result<Option<&V>, CacheError>)
        ensures
            r matches Ok(Some(v)) ==> live_value(self.entries(), key, now) == Some(*v),
            r matches Ok(None) ==> live_value(self.entries(), key, now) is None;

    /// Stores `value` under `key` at `now` for `ttl` seconds; a failed write leaves
    /// the entries as they were.
    fn set(&mut self, key: u64, value: V, ttl: u64, now: u64) -> (r: Result<(), CacheError>)
        requires
            ttl > 0,
        ensures
            final(self).requested() == old(self).requested().push((key, value, expiry(now, ttl))),
            r is Ok ==> final(self).entries() == old(self).entries().insert(key, (value, expiry(now, ttl))),
            r is Err ==> final(self).entries() == old(self).entries();
}

/// An in-memory backend cache; its operations never fail.
pub struct TtlStore<V> {
    entries: HashMap<u64, (V, u64)>,
    requested: Ghost<Seq<(u64, V, u64)>>,
}

impl<V> TtlStore<V> {
    pub closed spec fn view(&self) -> Map<u64, (V, u64)> {
        self.entries@
    }

    pub closed spec fn writes(&self) -> Seq<(u64, V, u64)> {
        self.requested@
    }

    pub fn new() -> (r: TtlStore<V>)
        ensures
            r@.dom() == Set::<u64>::empty(),
            r.writes() == Seq::<(u64, V, u64)>::empty(),
    {
        TtlStore { entries: HashMap::new(), requested: Ghost(Seq::empty()) }
    }
}

impl<V> BackendCache<V> for TtlStore<V> {
    open spec fn entries(&self) -> Map<u64, (V, u64)> {
        self@
    }

    open spec fn requested(&self) -> Seq<(u64, V, u64)> {
        self.writes()
    }

    fn get(&self, key: u64, now: u64) -> (r: Result<Option<&V>, CacheError>)
        ensures
            r is Ok,
    {
        match self.entries.get(&key) {
            Some(e) => if e.1 == u64::MAX || now < e.1 { Ok(Some(&e.0)) } else { Ok(None) },
            None => Ok(None),
        }
    }

    fn set(&mut self, key: u64, value: V, ttl: u64, now: u64) -> (r: Result<(), CacheError>)
        ensures
            r is Ok,
    {
        let until = now.saturating_add(ttl);
        self.requested = Ghost(self.requested@.push((key, value, until)));
        self.entries.insert(key, (value, until));
        Ok(())
    }
}

} // verus!
