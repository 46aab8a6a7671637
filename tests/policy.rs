use request_scope::policy::{CacheDirectives, CachePolicy, Cachability, NO_STORE};

#[test]
fn max_age_keeps_minimum_in_any_order() {
    let orders: [[i32; 3]; 3] = [[300, 60, 120], [60, 300, 120], [120, 300, 60]];
    for order in orders {
        let mut p = CachePolicy::new();
        for v in order {
            p.record_max_age(v);
        }
        assert_eq!(p.read(), (Some(60), None));
    }
}

#[test]
fn nothing_recorded_means_no_bound() {
    let p = CachePolicy::new();
    assert_eq!(p.read(), (None, None));
}

#[test]
fn max_age_never_increases() {
    let mut p = CachePolicy::new();
    p.record_max_age(30);
    p.record_max_age(600);
    assert_eq!(p.read().0, Some(30));
}

#[test]
fn no_store_wins_over_later_lifetimes() {
    let mut p = CachePolicy::new();
    p.record_max_age(300);
    p.record_no_store();
    p.record_max_age(10);
    assert_eq!(p.read().0, Some(NO_STORE));
    assert_eq!(p.read().0, Some(-1));
}

#[test]
fn private_once_is_private_for_good() {
    let mut p = CachePolicy::new();
    p.record_visibility(false);
    p.record_visibility(true);
    p.record_visibility(false);
    p.record_visibility(false);
    assert_eq!(p.read().1, Some(false));
}

#[test]
fn public_only_leaves_visibility_unset() {
    let mut p = CachePolicy::new();
    p.record_visibility(false);
    assert_eq!(p.read().1, None);
}

#[test]
fn three_backend_directives_in_every_order() {
    let a = CacheDirectives { max_age: Some(300), cachability: Some(Cachability::Public) };
    let b = CacheDirectives { max_age: Some(60), cachability: Some(Cachability::Private) };
    let c = CacheDirectives { max_age: None, cachability: Some(Cachability::NoCache) };
    let orders = [[a, b, c], [a, c, b], [b, a, c], [b, c, a], [c, a, b], [c, b, a]];
    for order in orders {
        let mut p = CachePolicy::new();
        for d in order {
            p.apply_directive_set(d);
        }
        assert_eq!(p.read(), (Some(-1), Some(false)));
    }
}

#[test]
fn directive_without_information_changes_nothing() {
    let mut p = CachePolicy::new();
    p.apply_directive_set(CacheDirectives { max_age: None, cachability: Some(Cachability::Other) });
    assert_eq!(p.read(), (None, None));
}
