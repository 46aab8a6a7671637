use async_graphql_value::ConstValue;
use reqwest::header::HeaderMap;
use vstd::prelude::*;

use crate::config::{Server, Upstream};
use crate::dedupe::DedupeCache;
use crate::headers::{header_entries, header_name_count, merged_cookies, HeaderAccumulator, HEADER_ROOM};
use crate::policy::{max_age_after, min_with, public_after, visibility_with, CacheDirectives, CachePolicy, Cachability, NO_STORE};
use crate::store::{expiry, live_value, BackendCache, CacheError};

verus! {

#[verifier::external_type_specification]
#[verifier::external_body]
pub struct ExConstValue(ConstValue);

/// The state of one inbound request while its fields are resolved: the aggregate
/// cache policy, the gathered headers, and the cache that keeps each backend value
/// it computed for later callers. What outlives the request (the backend cache,
/// the coalescing cache shared by concurrent requests) is handed to the operations
/// that use it.
pub struct RequestContext {
    pub server: Server,
    pub upstream: Upstream,
    pub headers: HeaderAccumulator,
    pub policy: CachePolicy,
    /// Keeps finished values for later callers of the same request.
    pub cache: DedupeCache<ConstValue>,
}

/// `b` differs from `a` in the cache policy alone.
pub open spec fn only_policy_changed(a: &RequestContext, b: &RequestContext) -> bool {
    &&& b.server == a.server
    &&& b.upstream == a.upstream
    &&& b.headers == a.headers
    &&& b.cache@ == a.cache@
    &&& b.cache.retains() == a.cache.retains()
}

/// `b` differs from `a` in the gathered cookies alone.
pub open spec fn only_cookies_changed(a: &RequestContext, b: &RequestContext) -> bool {
    &&& b.server == a.server
    &&& b.upstream == a.upstream
    &&& b.policy == a.policy
    &&& b.headers.x_response_headers == a.headers.x_response_headers
    &&& b.headers.allowed_headers == a.headers.allowed_headers
    &&& b.headers.experimental_headers == a.headers.experimental_headers
    &&& b.cache@ == a.cache@
    &&& b.cache.retains() == a.cache.retains()
}

/// A context as it stands before anything is observed.
pub open spec fn is_fresh(r: &RequestContext) -> bool {
    &&& header_entries(r.headers.x_response_headers).dom() == Set::<Seq<char>>::empty()
    &&& header_name_count(r.headers.x_response_headers) == 0
    &&& header_entries(r.headers.allowed_headers).dom() == Set::<Seq<char>>::empty()
    &&& header_name_count(r.headers.allowed_headers) == 0
    &&& (r.headers.cookie_headers matches Some(c) ==> header_entries(c).dom() == Set::<Seq<char>>::empty()
        && header_name_count(c) == 0)
    &&& r.policy.max_age_bound() is None
    &&& r.policy.visibility() is None
    &&& r.cache@.dom() == Set::<u64>::empty()
    &&& r.cache.retains()
}

impl RequestContext {
    /// A context with default settings, no cookie passing, no experimental headers,
    /// and nothing observed yet.
    pub fn new() -> (r: RequestContext)
        ensures
            is_fresh(&r),
            r.server.port == crate::config::DEFAULT_PORT,
            r.upstream.spec_base_url() is None,
            r.headers.cookie_headers is None,
            !r.headers.experimental_headers,
    {
        Self::with_config(Server::default(), Upstream::default(), false, false)
    }

    /// A context for the given settings; `cookies_enabled` passes backend cookies on to
    /// the client and `experimental_headers` passes the gathered experimental headers on.
    pub fn with_config(server: Server, upstream: Upstream, cookies_enabled: bool, experimental_headers: bool) -> (r: RequestContext)
        ensures
            is_fresh(&r),
            r.server == server,
            r.upstream == upstream,
            cookies_enabled <==> r.headers.cookie_headers is Some,
            r.headers.experimental_headers == experimental_headers,
    {
        RequestContext {
            server,
            upstream,
            headers: HeaderAccumulator::new(cookies_enabled, experimental_headers),
            policy: CachePolicy::new(),
            cache: DedupeCache::new(true),
        }
    }

    pub fn get_min_max_age(&self) -> (r: Option<i32>)
        ensures
            r == self.policy.max_age_bound(),
    {
        self.policy.read().0
    }

    pub fn set_cache_public_false(&mut self)
        ensures
            final(self).policy.visibility() == Some(false),
            final(self).policy.max_age_bound() == old(self).policy.max_age_bound(),
            only_policy_changed(old(self), final(self)),
    {
        self.policy.record_visibility(true);
    }

    pub fn is_cache_public(&self) -> (r: Option<bool>)
        ensures
            r == self.policy.visibility(),
    {
        self.policy.read().1
    }

    /// Lowers the freshness bound to `max_age` where that is smaller.
    pub fn set_min_max_age(&mut self, max_age: i32)
        ensures
            final(self).policy.max_age_bound() == min_with(old(self).policy.max_age_bound(), max_age),
            final(self).policy.visibility() == old(self).policy.visibility(),
            only_policy_changed(old(self), final(self)),
    {
        self.policy.record_max_age(max_age);
    }

    /// Makes the response private when a backend call was.
    pub fn set_cache_visibility(&mut self, cachability: &Option<Cachability>)
        ensures
            final(self).policy.visibility() == visibility_with(
                old(self).policy.visibility(),
                *cachability == Some(Cachability::Private),
            ),
            final(self).policy.max_age_bound() == old(self).policy.max_age_bound(),
            only_policy_changed(old(self), final(self)),
    {
        let private = match cachability {
            Some(Cachability::Private) => true,
            _ => false,
        };
        self.policy.record_visibility(private);
    }

    /// Folds in the cache-control directives of one backend response.
    pub fn set_cache_control(&mut self, cache_policy: CacheDirectives)
        ensures
            final(self).policy.max_age_bound() == max_age_after(old(self).policy.max_age_bound(), cache_policy),
            final(self).policy.visibility() == public_after(old(self).policy.visibility(), cache_policy),
            only_policy_changed(old(self), final(self)),
    {
        self.policy.apply_directive_set(cache_policy);
    }

    /// A snapshot of the freshness bound and the visibility.
    pub fn current_policy(&self) -> (r: (Option<i32>, Option<bool>))
        ensures
            r == (self.policy.max_age_bound(), self.policy.visibility()),
    {
        self.policy.read()
    }

    /// Merges a backend response's cookie header into the response's, where cookies are passed on.
    pub fn set_cookie_headers(&mut self, headers: &HeaderMap)
        requires
            old(self).headers.cookie_headers matches Some(c) ==> header_name_count(c) < HEADER_ROOM,
        ensures
            old(self).headers.cookie_headers is None ==> final(self).headers.cookie_headers is None,
            old(self).headers.cookie_headers matches Some(c) ==> final(self).headers.cookie_headers matches Some(d)
                && header_entries(d) == merged_cookies(header_entries(c), header_entries(*headers))
                && header_name_count(d) <= header_name_count(c) + 1,
            only_cookies_changed(old(self), final(self)),
    {
        self.headers.merge_cookies(headers);
    }

    /// Looks `key` up at `now` in the backend cache; a miss is `Ok(None)` and a
    /// backend failure is handed on as it came.
    pub fn cache_get<'a, B: BackendCache<ConstValue>>(runtime: &'a B, key: u64, now: u64) -> (r: Result<Option<&'a ConstValue>, CacheError>)
        ensures
            call_ensures(B::get, (runtime, key, now), r),
            r matches Ok(Some(v)) ==> live_value(runtime.entries(), key, now) == Some(*v),
            r matches Ok(None) ==> live_value(runtime.entries(), key, now) is None,
    {
        runtime.get(key, now)
    }

    /// Asks the backend cache, once, to store `value` under `key` at `now` for `ttl`
    /// seconds. `Ok` means the entry is stored; on an error the entries stay as they were.
    pub fn cache_insert<B: BackendCache<ConstValue>>(runtime: &mut B, key: u64, value: ConstValue, ttl: u64, now: u64) -> (r: Result<(), CacheError>)
        requires
            ttl > 0,
        ensures
            final(runtime).requested() == old(runtime).requested().push((key, value, expiry(now, ttl))),
            r is Ok ==> final(runtime).entries() == old(runtime).entries().insert(key, (value, expiry(now, ttl))),
            r is Err ==> final(runtime).entries() == old(runtime).entries(),
    {
        runtime.set(key, value, ttl, now)
    }

    /// Copies the experimental headers into `headers` where they are enabled.
    pub fn extend_x_headers(&self, headers: &mut HeaderMap)
        requires
            self.headers.experimental_headers ==> header_name_count(*old(headers)) + header_name_count(self.headers.x_response_headers) < HEADER_ROOM,
        ensures
            self.headers.experimental_headers ==> header_entries(*final(headers))
                == header_entries(*old(headers)).union_prefer_right(header_entries(self.headers.x_response_headers)),
            !self.headers.experimental_headers ==> *final(headers) == *old(headers),
            header_name_count(*final(headers)) <= header_name_count(*old(headers)) + header_name_count(self.headers.x_response_headers),
    {
        self.headers.extend_experimental_headers(headers);
    }
}

} // verus!
