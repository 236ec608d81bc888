use portier_broker::limits::{
    attempt_request, check_and_increment, limit_key_for, verdict, LimitConfig, RateLimited,
};
use portier_broker::store::{MemoryStore, StoreResponse, StoreValue};

#[test]
fn fifth_attempt_passes_sixth_is_limited_then_window_resets() {
    let mut store = MemoryStore::new();
    let limit = LimitConfig { max_count: 5, duration: 60 };
    let email = "a@example.com".to_string();
    for t in 0..5u64 {
        assert_eq!(check_and_increment(&mut store, &limit, &email, 100 + t), Ok(()));
    }
    assert_eq!(check_and_increment(&mut store, &limit, &email, 110), Err(RateLimited));
    assert_eq!(check_and_increment(&mut store, &limit, &email, 159), Err(RateLimited));
    assert_eq!(check_and_increment(&mut store, &limit, &email, 160), Ok(()));
    match store.get(&limit_key_for(&email), 161) {
        Some(StoreValue::Counter(n)) => assert_eq!(n, 1),
        _ => panic!("expected a fresh counter"),
    }
}

#[test]
fn limits_are_per_email() {
    let mut store = MemoryStore::new();
    let limit = LimitConfig::per_minute(1);
    let a = "a@example.com".to_string();
    let b = "b@example.com".to_string();
    assert_eq!(check_and_increment(&mut store, &limit, &a, 0), Ok(()));
    assert_eq!(check_and_increment(&mut store, &limit, &a, 1), Err(RateLimited));
    assert_eq!(check_and_increment(&mut store, &limit, &b, 1), Ok(()));
}

#[test]
fn zero_limit_refuses_everything() {
    let mut store = MemoryStore::new();
    let limit = LimitConfig::per_minute(0);
    let a = "a@example.com".to_string();
    assert_eq!(check_and_increment(&mut store, &limit, &a, 0), Err(RateLimited));
}

#[test]
fn per_minute_sets_a_sixty_second_window() {
    assert_eq!(LimitConfig::per_minute(5), LimitConfig { max_count: 5, duration: 60 });
}

#[test]
fn limit_key_prefixes_the_email() {
    assert_eq!(limit_key_for(&"x@y.z".to_string()), "limit:email:x@y.z".to_string());
}

#[test]
fn attempts_through_store_requests() {
    let mut store = MemoryStore::new();
    let limit = LimitConfig { max_count: 2, duration: 30 };
    let email = "c@example.com".to_string();
    let mut results = Vec::new();
    for _ in 0..3 {
        match store.handle(attempt_request(&limit, &email), 7) {
            StoreResponse::Count(n) => results.push(verdict(&limit, n)),
            _ => panic!("expected a count"),
        }
    }
    assert_eq!(results, vec![Ok(()), Ok(()), Err(RateLimited)]);
}
