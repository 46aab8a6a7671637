use async_graphql_value::ConstValue;
use reqwest::header::{HeaderMap, HeaderValue};
use request_scope::config::{is_default, Cache, ConfigReader, Server, Upstream};
use request_scope::context::RequestContext;
use request_scope::dedupe::Step;
use request_scope::policy::{CacheDirectives, Cachability};
use request_scope::store::{BackendCache, TtlStore};

#[test]
fn lookup_after_store_finds_value() {
    let mut backend: TtlStore<ConstValue> = TtlStore::new();
    let v = ConstValue::String("payload".to_string());
    assert_eq!(RequestContext::cache_get(&backend, 42, 1000), Ok(None));
    assert_eq!(RequestContext::cache_insert(&mut backend, 42, v.clone(), 60, 1000), Ok(()));
    assert_eq!(RequestContext::cache_get(&backend, 42, 1000), Ok(Some(&v)));
    assert_eq!(RequestContext::cache_get(&backend, 42, 1059), Ok(Some(&v)));
    assert_eq!(RequestContext::cache_get(&backend, 42, 1060), Ok(None));
    assert_eq!(RequestContext::cache_get(&backend, 43, 1000), Ok(None));
}

#[test]
fn backend_outlives_the_request() {
    let mut backend: TtlStore<ConstValue> = TtlStore::new();
    let v = ConstValue::String("kept".to_string());
    {
        let _first = RequestContext::new();
        assert_eq!(RequestContext::cache_insert(&mut backend, 7, v.clone(), 60, 10), Ok(()));
    }
    let _second = RequestContext::new();
    assert_eq!(RequestContext::cache_get(&backend, 7, 20), Ok(Some(&v)));
}

#[test]
fn store_lifetime_saturates_at_end_of_time() {
    let mut s: TtlStore<u32> = TtlStore::new();
    assert_eq!(s.set(1, 5, 10, u64::MAX - 3), Ok(()));
    assert_eq!(s.get(1, u64::MAX - 1), Ok(Some(&5)));
    assert_eq!(s.set(2, 6, 1, u64::MAX), Ok(()));
    assert_eq!(s.get(2, u64::MAX), Ok(Some(&6)));
}

#[test]
fn context_policy_end_to_end() {
    let mut ctx = RequestContext::new();
    ctx.set_cache_control(CacheDirectives { max_age: Some(60), cachability: Some(Cachability::Private) });
    ctx.set_cache_control(CacheDirectives { max_age: None, cachability: Some(Cachability::NoCache) });
    ctx.set_cache_control(CacheDirectives { max_age: Some(300), cachability: Some(Cachability::Public) });
    assert_eq!(ctx.current_policy(), (Some(-1), Some(false)));
    assert_eq!(ctx.get_min_max_age(), Some(-1));
    assert_eq!(ctx.is_cache_public(), Some(false));
}

#[test]
fn context_setters() {
    let mut ctx = RequestContext::new();
    ctx.set_min_max_age(100);
    ctx.set_min_max_age(200);
    assert_eq!(ctx.get_min_max_age(), Some(100));
    ctx.set_cache_visibility(&Some(Cachability::Public));
    assert_eq!(ctx.is_cache_public(), None);
    ctx.set_cache_visibility(&Some(Cachability::Private));
    assert_eq!(ctx.is_cache_public(), Some(false));
    let mut ctx2 = RequestContext::new();
    ctx2.set_cache_public_false();
    assert_eq!(ctx2.is_cache_public(), Some(false));
}

#[test]
fn long_lifetime_is_capped() {
    let mut ctx = RequestContext::new();
    ctx.set_cache_control(CacheDirectives { max_age: Some(1 << 32), cachability: None });
    assert_eq!(ctx.get_min_max_age(), Some(i32::MAX));
    ctx.set_cache_control(CacheDirectives { max_age: Some(1 << 31), cachability: None });
    assert_eq!(ctx.get_min_max_age(), Some(i32::MAX));
    ctx.set_cache_control(CacheDirectives { max_age: Some(90), cachability: None });
    assert_eq!(ctx.get_min_max_age(), Some(90));
}

#[test]
fn context_cookies_and_experimental_headers() {
    let mut ctx = RequestContext::with_config(Server { port: 9000 }, Upstream::new(Some("http://up".to_string())), true, true);
    assert_eq!(ctx.server.port, 9000);
    assert_eq!(ctx.upstream.base_url(), &Some("http://up".to_string()));
    let mut h = HeaderMap::new();
    h.insert("set-cookie", HeaderValue::from_static("a=1"));
    ctx.set_cookie_headers(&h);
    let mut h2 = HeaderMap::new();
    h2.insert("set-cookie", HeaderValue::from_static("b=2"));
    ctx.set_cookie_headers(&h2);
    assert_eq!(ctx.headers.cookie_headers.as_ref().unwrap().get("set-cookie").unwrap(), "a=1; b=2");
    ctx.headers.x_response_headers.insert("x-t", HeaderValue::from_static("1"));
    let mut out = HeaderMap::new();
    ctx.extend_x_headers(&mut out);
    assert_eq!(out.get("x-t").unwrap(), "1");
}

#[test]
fn context_cache_retains() {
    let mut ctx = RequestContext::new();
    assert!(ctx.cache.is_retaining());
    assert_eq!(ctx.cache.begin(1, 1), Step::Lead);
    assert_eq!(ctx.cache.complete(1, ConstValue::Boolean(true)), Vec::<u64>::new());
    assert_eq!(ctx.cache.begin(1, 2), Step::Ready);
    assert_eq!(ctx.cache.cached(1), Some(&ConstValue::Boolean(true)));
}

#[test]
fn config_defaults() {
    assert_eq!(Server::default().port, 8000);
    assert_eq!(Upstream::default().base_url(), &None);
    assert!(is_default(&0u16));
    assert!(!is_default(&5u16));
    assert!(is_default(&String::new()));
    let _reader = ConfigReader::init();
    assert_eq!(Cache::new(0), None);
    assert_eq!(Cache::new(30), Some(Cache { max_age: 30 }));
}

#[test]
fn no_cache_directive_anywhere_gives_no_store() {
    let no_cache = CacheDirectives { max_age: None, cachability: Some(Cachability::NoCache) };
    for pos in 0..4 {
        let mut ctx = RequestContext::new();
        let ages = [300u64, 60, 0, 120];
        for (i, a) in ages.iter().enumerate() {
            if i == pos {
                ctx.set_cache_control(no_cache);
            }
            ctx.set_cache_control(CacheDirectives { max_age: Some(*a), cachability: None });
        }
        assert_eq!(ctx.get_min_max_age(), Some(-1));
    }
}

#[test]
fn store_write_is_asked_once() {
    let mut backend: TtlStore<ConstValue> = TtlStore::new();
    let v = ConstValue::String("a".to_string());
    assert_eq!(RequestContext::cache_insert(&mut backend, 1, v.clone(), 5, 100), Ok(()));
    assert_eq!(RequestContext::cache_insert(&mut backend, 1, ConstValue::Null, 5, 101), Ok(()));
    assert_eq!(RequestContext::cache_get(&backend, 1, 102), Ok(Some(&ConstValue::Null)));
}
