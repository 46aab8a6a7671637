use vstd::prelude::*;

verus! {

/// How a backend response may be cached.
#[derive(Clone, Copy, Debug, PartialEq, Eq, Structural)]
pub enum Cachability {
    Public,
    Private,
    NoCache,
    Other,
}

/// The parsed cache-control directives of one backend response.
#[derive(Clone, Copy, Debug, PartialEq, Eq, Structural)]
pub struct CacheDirectives {
    /// Freshness lifetime in seconds, if the response gave one.
    pub max_age: Option<u64>,
    pub cachability: Option<Cachability>,
}

/// The value recorded for a response that must not be cached at all.
pub const NO_STORE: i32 = -1;

/// The smaller of an optional minimum and a new value.
pub open spec fn min_with(cur: Option<i32>, v: i32) -> Option<i32> {
    match cur {
        Some(m) => if v < m { Some(v) } else { Some(m) },
        None => Some(v),
    }
}

/// The visibility after an observation: private wins forever.
pub open spec fn visibility_with(cur: Option<bool>, private: bool) -> Option<bool> {
    if private { Some(false) } else { cur }
}

/// A lifetime in seconds as the aggregate records it: capped at the largest bound it can hold.
pub open spec fn secs_as_i32(secs: u64) -> i32 {
    if secs > i32::MAX as u64 { i32::MAX } else { secs as i32 }
}

/// The freshness bound after one backend response's directives.
pub open spec fn max_age_after(cur: Option<i32>, d: CacheDirectives) -> Option<i32> {
    let a = match d.max_age {
        Some(s) => min_with(cur, secs_as_i32(s)),
        None => cur,
    };
    if d.cachability == Some(Cachability::NoCache) { min_with(a, NO_STORE) } else { a }
}

/// The visibility after one backend response's directives.
pub open spec fn public_after(cur: Option<bool>, d: CacheDirectives) -> Option<bool> {
    visibility_with(cur, d.cachability == Some(Cachability::Private))
}

/// The freshness bound after a whole sequence of recorded lifetimes.
pub open spec fn min_of_all(start: Option<i32>, vs: Seq<i32>) -> Option<i32>
    decreases vs.len(),
{
    if vs.len() == 0 {
        start
    } else {
        min_with(min_of_all(start, vs.drop_last()), vs.last())
    }
}

/// The visibility after a whole sequence of observations.
pub open spec fn public_of_all(start: Option<bool>, ps: Seq<bool>) -> Option<bool>
    decreases ps.len(),
{
    if ps.len() == 0 {
        start
    } else {
        visibility_with(public_of_all(start, ps.drop_last()), ps.last())
    }
}

/// The recorded bound is exactly the minimum of the recorded lifetimes, whatever
/// their order, and nothing at all when none was recorded.
pub proof fn lemma_bound_is_minimum(vs: Seq<i32>)
    ensures
        vs.len() == 0 ==> min_of_all(None, vs) is None,
        vs.len() > 0 ==> exists|i: int|
            0 <= i < vs.len() && #[trigger] min_of_all(None, vs) == Some(vs[i]),
        vs.len() > 0 ==> forall|j: int|
            0 <= j < vs.len() ==> min_of_all(None, vs).unwrap() <= #[trigger] vs[j],
    decreases vs.len(),
{
    if vs.len() > 0 {
        let init = vs.drop_last();
        lemma_bound_is_minimum(init);
        if init.len() == 0 {
            assert(min_of_all(None, vs) == Some(vs[0]));
        } else {
            let i = choose|i: int| 0 <= i < init.len() && min_of_all(None, init) == Some(init[i]);
            if vs.last() < min_of_all(None, init).unwrap() {
                assert(min_of_all(None, vs) == Some(vs[vs.len() - 1]));
            } else {
                assert(min_of_all(None, vs) == Some(vs[i]));
            }
        }
        assert forall|j: int| 0 <= j < vs.len() implies min_of_all(None, vs).unwrap() <= #[trigger] vs[j] by {
            if j < vs.len() - 1 {
                assert(vs[j] == init[j]);
            }
        }
    }
}

/// Where no-store was recorded among ordinary lifetimes, the bound is the no-store
/// value, wherever in the sequence it came.
pub proof fn lemma_no_store_sticks(vs: Seq<i32>, k: int)
    requires
        0 <= k < vs.len(),
        vs[k] == NO_STORE,
        forall|j: int| 0 <= j < vs.len() ==> #[trigger] vs[j] >= 0 || vs[j] == NO_STORE,
    ensures
        min_of_all(None, vs) == Some(NO_STORE),
{
    lemma_bound_is_minimum(vs);
    let i = choose|i: int| 0 <= i < vs.len() && #[trigger] min_of_all(None, vs) == Some(vs[i]);
    assert(min_of_all(None, vs).unwrap() <= vs[k]);
}

/// From any starting bound, the bound after a run of lifetimes is the least of the
/// start and the lifetimes.
pub proof fn lemma_bound_from_start(start: Option<i32>, vs: Seq<i32>)
    ensures
        (start is None && vs.len() == 0) <==> min_of_all(start, vs) is None,
        min_of_all(start, vs) matches Some(m) ==> {
            &&& (start == Some(m) || vs.contains(m))
            &&& (start matches Some(s) ==> m <= s)
            &&& forall|j: int| 0 <= j < vs.len() ==> m <= #[trigger] vs[j]
        },
    decreases vs.len(),
{
    if vs.len() > 0 {
        let init = vs.drop_last();
        lemma_bound_from_start(start, init);
        if let Some(m) = min_of_all(start, vs) {
            if let Some(p) = min_of_all(start, init) {
                if init.contains(p) {
                    let i = choose|i: int| 0 <= i < init.len() && init[i] == p;
                    assert(vs[i] == init[i]);
                }
            }
            if m == vs.last() {
                assert(vs[vs.len() - 1] == m);
            }
            assert forall|j: int| 0 <= j < vs.len() implies m <= #[trigger] vs[j] by {
                if j < vs.len() - 1 {
                    assert(vs[j] == init[j]);
                }
            }
        }
    }
}

/// The recorded bound does not depend on the order of the lifetimes: any
/// rearrangement of them, from the same starting bound, ends at the same bound.
pub proof fn lemma_bound_order_free(start: Option<i32>, vs: Seq<i32>, ws: Seq<i32>)
    requires
        vs.to_multiset() == ws.to_multiset(),
    ensures
        min_of_all(start, vs) == min_of_all(start, ws),
{
    vs.to_multiset_ensures();
    ws.to_multiset_ensures();
    lemma_bound_from_start(start, vs);
    lemma_bound_from_start(start, ws);
    if let Some(x) = min_of_all(start, vs) {
        let y = min_of_all(start, ws).unwrap();
        if vs.contains(x) {
            assert(vs.to_multiset().count(x) > 0);
            assert(ws.contains(x));
            let i = choose|i: int| 0 <= i < ws.len() && ws[i] == x;
            assert(y <= ws[i]);
        }
        if ws.contains(y) {
            assert(ws.to_multiset().count(y) > 0);
            assert(vs.contains(y));
            let i = choose|i: int| 0 <= i < vs.len() && vs[i] == y;
            assert(x <= vs[i]);
        }
    }
}

/// Once a bound is recorded, later lifetimes can only lower it.
pub proof fn lemma_bound_never_grows(start: i32, vs: Seq<i32>)
    ensures
        min_of_all(Some(start), vs) is Some,
        min_of_all(Some(start), vs).unwrap() <= start,
    decreases vs.len(),
{
    if vs.len() > 0 {
        lemma_bound_never_grows(start, vs.drop_last());
    }
}

/// One private observation anywhere makes the response private, whatever else is observed.
pub proof fn lemma_private_is_final(start: Option<bool>, ps: Seq<bool>, k: int)
    requires
        0 <= k < ps.len(),
        ps[k],
    ensures
        public_of_all(start, ps) == Some(false),
    decreases ps.len(),
{
    if k < ps.len() - 1 {
        lemma_private_is_final(start, ps.drop_last(), k);
    }
}

/// A no-cache directive records the no-store bound: the bound afterwards is at most
/// the no-store value, and exactly it where the bound before was ordinary or unset.
pub proof fn lemma_no_cache_is_no_store(cur: Option<i32>, d: CacheDirectives)
    requires
        d.cachability == Some(Cachability::NoCache),
    ensures
        max_age_after(cur, d) is Some,
        max_age_after(cur, d).unwrap() <= NO_STORE,
        (cur matches Some(c) ==> c >= NO_STORE) ==> max_age_after(cur, d) == Some(NO_STORE),
{
}

/// Two backend responses folded in either order give the same aggregate.
pub proof fn lemma_directives_commute(age: Option<i32>, public: Option<bool>, a: CacheDirectives, b: CacheDirectives)
    ensures
        max_age_after(max_age_after(age, a), b) == max_age_after(max_age_after(age, b), a),
        public_after(public_after(public, a), b) == public_after(public_after(public, b), a),
{
}

/// Aggregate freshness and visibility over every backend call of one response.
/// Only its merge operations change it, so the bound never grows and privacy is never undone.
pub struct CachePolicy {
    min_max_age: Option<i32>,
    cache_public: Option<bool>,
}

impl CachePolicy {
    /// The freshness bound: none until a lifetime is recorded.
    pub closed spec fn max_age_bound(&self) -> Option<i32> {
        self.min_max_age
    }

    /// The visibility: `Some(false)` once any call was private.
    pub closed spec fn visibility(&self) -> Option<bool> {
        self.cache_public
    }

    /// Nothing observed yet.
    pub fn new() -> (r: CachePolicy)
        ensures
            r.max_age_bound() is None,
            r.visibility() is None,
    {
        CachePolicy { min_max_age: None, cache_public: None }
    }

    /// Records a freshness lifetime; the stored bound never grows.
    pub fn record_max_age(&mut self, seconds: i32)
        ensures
            final(self).max_age_bound() == min_with(old(self).max_age_bound(), seconds),
            final(self).visibility() == old(self).visibility(),
    {
        match self.min_max_age {
            Some(m) if seconds < m => {
                self.min_max_age = Some(seconds);
            },
            None => {
                self.min_max_age = Some(seconds);
            },
            _ => {},
        }
    }

    /// Marks the response private when `private` holds; never makes it public again.
    pub fn record_visibility(&mut self, private: bool)
        ensures
            final(self).visibility() == visibility_with(old(self).visibility(), private),
            final(self).max_age_bound() == old(self).max_age_bound(),
    {
        if private {
            self.cache_public = Some(false);
        }
    }

    /// Records that the response must not be cached.
    pub fn record_no_store(&mut self)
        ensures
            final(self).max_age_bound() == min_with(old(self).max_age_bound(), NO_STORE),
            final(self).visibility() == old(self).visibility(),
    {
        self.record_max_age(NO_STORE);
    }

    /// Folds in the directives of one backend response.
    pub fn apply_directive_set(&mut self, d: CacheDirectives)
        ensures
            final(self).max_age_bound() == max_age_after(old(self).max_age_bound(), d),
            final(self).visibility() == public_after(old(self).visibility(), d),
    {
        if let Some(secs) = d.max_age {
            let capped: i32 = if secs > i32::MAX as u64 { i32::MAX } else { secs as i32 };
            self.record_max_age(capped);
        }
        let private = match d.cachability {
            Some(Cachability::Private) => true,
            _ => false,
        };
        self.record_visibility(private);
        match d.cachability {
            Some(Cachability::NoCache) => self.record_no_store(),
            _ => {},
        }
    }

    /// A snapshot of the freshness bound and the visibility.
    pub fn read(&self) -> (r: (Option<i32>, Option<bool>))
        ensures
            r == (self.max_age_bound(), self.visibility()),
    {
        (self.min_max_age, self.cache_public)
    }
}

} // verus!
