use std::collections::HashMap;
use vstd::prelude::*;

verus! {

broadcast use vstd::std_specs::hash::group_hash_axioms;

/// What the cache holds for one key: the tickets of the callers waiting on the
/// one running producer, or a finished value.
pub enum Slot<V> {
    InFlight(Vec<u64>),
    Ready(V),
}

/// The mathematical content of a slot.
pub enum SlotModel<V> {
    InFlight(Seq<u64>),
    Ready(V),
}

impl<V> Slot<V> {
    pub open spec fn model(self) -> SlotModel<V> {
        match self {
            Slot::InFlight(w) => SlotModel::InFlight(w@),
            Slot::Ready(v) => SlotModel::Ready(v),
        }
    }
}

/// What a caller asking for a key must do next.
#[derive(Clone, Copy, Debug, PartialEq, Eq, Structural)]
pub enum Step {
    /// Nobody is computing the key: this caller runs the producer.
    Lead,
    /// A producer is running: this caller waits for its outcome under its ticket.
    Joined,
    /// A finished value is held: this caller takes it.
    Ready,
}

pub open spec fn step_for<V>(m: Map<u64, SlotModel<V>>, key: u64) -> Step {
    if !m.contains_key(key) {
        Step::Lead
    } else {
        match m[key] {
            SlotModel::InFlight(_) => Step::Joined,
            SlotModel::Ready(_) => Step::Ready,
        }
    }
}

pub open spec fn after_begin<V>(m: Map<u64, SlotModel<V>>, key: u64, ticket: u64) -> Map<u64, SlotModel<V>> {
    if !m.contains_key(key) {
        m.insert(key, SlotModel::InFlight(Seq::empty()))
    } else {
        match m[key] {
            SlotModel::InFlight(w) => m.insert(key, SlotModel::InFlight(w.push(ticket))),
            SlotModel::Ready(_) => m,
        }
    }
}

/// The tickets waiting on the producer of `key`.
pub open spec fn waiters_of<V>(m: Map<u64, SlotModel<V>>, key: u64) -> Seq<u64> {
    if m.contains_key(key) {
        match m[key] {
            SlotModel::InFlight(w) => w,
            SlotModel::Ready(_) => Seq::empty(),
        }
    } else {
        Seq::empty()
    }
}

pub open spec fn after_success<V>(m: Map<u64, SlotModel<V>>, key: u64, v: V, retain: bool) -> Map<u64, SlotModel<V>> {
    if retain { m.insert(key, SlotModel::Ready(v)) } else { m.remove(key) }
}

/// The state after a whole run of callers asked for `key`, in order.
pub open spec fn begin_all<V>(m: Map<u64, SlotModel<V>>, key: u64, tickets: Seq<u64>) -> Map<u64, SlotModel<V>>
    decreases tickets.len(),
{
    if tickets.len() == 0 {
        m
    } else {
        after_begin(begin_all(m, key, tickets.drop_last()), key, tickets.last())
    }
}

/// When callers ask for a key that nobody holds, the first one runs the producer and
/// every later one joins it: exactly those later callers wait, in arrival order, and
/// each of them receives the one outcome that completion or failure hands out.
/// After a failure the key is free again, so the next caller retries.
pub proof fn lemma_single_flight<V>(m: Map<u64, SlotModel<V>>, key: u64, tickets: Seq<u64>)
    requires
        !m.contains_key(key),
        tickets.len() >= 1,
    ensures
        step_for(m, key) == Step::Lead,
        forall|i: int| 1 <= i < tickets.len() ==> step_for(#[trigger] begin_all(m, key, tickets.take(i)), key) == Step::Joined,
        waiters_of(begin_all(m, key, tickets), key) == tickets.drop_first(),
        step_for(begin_all(m, key, tickets).remove(key), key) == Step::Lead,
    decreases tickets.len(),
{
    if tickets.len() == 1 {
        assert(begin_all(m, key, tickets.drop_last()) == m);
    } else {
        let init = tickets.drop_last();
        lemma_single_flight(m, key, init);
        assert forall|i: int| 1 <= i < tickets.len() implies step_for(#[trigger] begin_all(m, key, tickets.take(i)), key) == Step::Joined by {
            if i < init.len() {
                assert(tickets.take(i) == init.take(i));
            } else {
                assert(tickets.take(i) == init);
                lemma_in_flight_after_begin(m, key, init);
            }
        }
        lemma_in_flight_after_begin(m, key, init);
        assert(init.drop_first().push(tickets.last()) =~= tickets.drop_first());
    }
}

proof fn lemma_in_flight_after_begin<V>(m: Map<u64, SlotModel<V>>, key: u64, tickets: Seq<u64>)
    requires
        !m.contains_key(key),
        tickets.len() >= 1,
    ensures
        begin_all(m, key, tickets).contains_key(key),
        begin_all(m, key, tickets)[key] is InFlight,
    decreases tickets.len(),
{
    if tickets.len() > 1 {
        lemma_in_flight_after_begin(m, key, tickets.drop_last());
    } else {
        assert(begin_all(m, key, tickets.drop_last()) == m);
    }
}

/// A coalescing cache forgets a value once delivered, so the next caller runs the
/// producer afresh; a retaining cache hands the value to later callers instead.
pub proof fn lemma_success_retention<V>(m: Map<u64, SlotModel<V>>, key: u64, v: V)
    ensures
        step_for(after_success(m, key, v, false), key) == Step::Lead,
        step_for(after_success(m, key, v, true), key) == Step::Ready,
        after_success(m, key, v, true)[key] == SlotModel::Ready(v),
{
}

/// Single-flight memoizer: for each key at most one producer runs, and every
/// caller that arrives meanwhile receives that producer's outcome.
/// A retaining cache keeps successful values; a coalescing one forgets them
/// once they are delivered. Failures are never kept.
pub struct DedupeCache<V> {
    retain: bool,
    entries: HashMap<u64, Slot<V>>,
}

impl<V> DedupeCache<V> {
    pub closed spec fn view(&self) -> Map<u64, SlotModel<V>> {
        self.entries@.map_values(|s: Slot<V>| s.model())
    }

    pub closed spec fn retains(&self) -> bool {
        self.retain
    }

    /// An empty cache; `retain` chooses between keeping and forgetting finished values.
    pub fn new(retain: bool) -> (r: DedupeCache<V>)
        ensures
            r@.dom() == Set::<u64>::empty(),
            r.retains() == retain,
    {
        let r = DedupeCache { retain, entries: HashMap::new() };
        assert(r@.dom() =~= Set::<u64>::empty());
        r
    }

    pub fn is_retaining(&self) -> (r: bool)
        ensures
            r == self.retains(),
    {
        self.retain
    }

    /// A caller holding `ticket` asks for `key`.
    pub fn begin(&mut self, key: u64, ticket: u64) -> (r: Step)
        ensures
            r == step_for(old(self)@, key),
            final(self)@ == after_begin(old(self)@, key, ticket),
            final(self).retains() == old(self).retains(),
    {
        let ghost m0 = self.entries@;
        match self.entries.remove(&key) {
            None => {
                self.entries.insert(key, Slot::InFlight(Vec::new()));
                assert(self@ =~= after_begin(old(self)@, key, ticket));
                Step::Lead
            },
            Some(Slot::InFlight(mut w)) => {
                w.push(ticket);
                self.entries.insert(key, Slot::InFlight(w));
                assert(self.entries@ == m0.insert(key, Slot::InFlight(w)));
                assert(self@ =~= after_begin(old(self)@, key, ticket));
                Step::Joined
            },
            Some(Slot::Ready(v)) => {
                self.entries.insert(key, Slot::Ready(v));
                assert(self.entries@ =~= m0);
                Step::Ready
            },
        }
    }

    /// The finished value held for `key`, if any.
    pub fn cached(&self, key: u64) -> (r: Option<&V>)
        ensures
            match r {
                Some(v) => self@.contains_key(key) && self@[key] == SlotModel::Ready(*v),
                None => step_for(self@, key) != Step::Ready,
            },
    {
        match self.entries.get(&key) {
            Some(Slot::Ready(v)) => Some(v),
            _ => None,
        }
    }

    /// The producer of `key` succeeded with `v`; returns the tickets to hand `v` to.
    pub fn complete(&mut self, key: u64, v: V) -> (r: Vec<u64>)
        ensures
            r@ == waiters_of(old(self)@, key),
            final(self)@ == after_success(old(self)@, key, v, old(self).retains()),
            final(self).retains() == old(self).retains(),
    {
        let ghost m0 = self.entries@;
        let waiting = self.entries.remove(&key);
        if self.retain {
            self.entries.insert(key, Slot::Ready(v));
            assert(self@ =~= old(self)@.insert(key, SlotModel::Ready(v)));
        } else {
            assert(self@ =~= old(self)@.remove(key));
        }
        match waiting {
            Some(Slot::InFlight(w)) => w,
            _ => Vec::new(),
        }
    }

    /// The producer of `key` failed or was cancelled; returns the tickets to hand the failure to.
    /// The key is forgotten, so the next caller runs the producer again.
    pub fn fail(&mut self, key: u64) -> (r: Vec<u64>)
        ensures
            r@ == waiters_of(old(self)@, key),
            final(self)@ == old(self)@.remove(key),
            final(self).retains() == old(self).retains(),
    {
        let waiting = self.entries.remove(&key);
        assert(self@ =~= old(self)@.remove(key));
        match waiting {
            Some(Slot::InFlight(w)) => w,
            _ => Vec::new(),
        }
    }
}

} // verus!
