use portier_broker::store::{MemoryStore, StoreRequest, StoreResponse, StoreValue};

fn key(s: &str) -> String {
    s.to_string()
}

fn text(v: &Option<StoreValue>) -> Option<String> {
    match v {
        Some(StoreValue::Text(t)) => Some(t.clone()),
        _ => None,
    }
}

#[test]
fn put_then_get_returns_value_until_ttl_passes() {
    let mut store = MemoryStore::new();
    store.put(key("session:1"), StoreValue::Text("alice".to_string()), 900, 1000);
    assert_eq!(text(&store.get(&key("session:1"), 1000)), Some("alice".to_string()));
    assert_eq!(text(&store.get(&key("session:1"), 1899)), Some("alice".to_string()));
    assert!(store.get(&key("session:1"), 1900).is_none());
    assert!(store.get(&key("session:1"), 1000).is_none());
}

#[test]
fn get_of_absent_key_is_none() {
    let mut store = MemoryStore::new();
    assert!(store.get(&key("nothing"), 0).is_none());
}

#[test]
fn put_replaces_value_and_expiry() {
    let mut store = MemoryStore::new();
    store.put(key("k"), StoreValue::Text("one".to_string()), 10, 0);
    store.put(key("k"), StoreValue::Text("two".to_string()), 100, 5);
    assert_eq!(text(&store.get(&key("k"), 50)), Some("two".to_string()));
    assert!(store.get(&key("k"), 105).is_none());
}

#[test]
fn put_with_huge_ttl_saturates() {
    let mut store = MemoryStore::new();
    store.put(key("k"), StoreValue::Text("v".to_string()), u64::MAX, 10);
    assert_eq!(text(&store.get(&key("k"), u64::MAX - 1)), Some("v".to_string()));
}

#[test]
fn increment_counts_one_to_n_without_gaps() {
    let mut store = MemoryStore::new();
    let mut seen = Vec::new();
    for _ in 0..20 {
        seen.push(store.increment(key("counter"), 60, 500));
    }
    let expected: Vec<u64> = (1..=20).collect();
    assert_eq!(seen, expected);
}

#[test]
fn increment_keeps_window_and_resets_after_expiry() {
    let mut store = MemoryStore::new();
    assert_eq!(store.increment(key("c"), 60, 0), 1);
    assert_eq!(store.increment(key("c"), 60, 59), 2);
    assert_eq!(store.increment(key("c"), 60, 60), 1);
    assert_eq!(store.increment(key("c"), 60, 119), 2);
}

#[test]
fn increment_over_text_starts_a_counter() {
    let mut store = MemoryStore::new();
    store.put(key("c"), StoreValue::Text("x".to_string()), 60, 0);
    assert_eq!(store.increment(key("c"), 60, 1), 1);
    match store.get(&key("c"), 2) {
        Some(StoreValue::Counter(n)) => assert_eq!(n, 1),
        _ => panic!("expected a counter"),
    }
}

#[test]
fn increment_saturates_at_max() {
    let mut store = MemoryStore::new();
    store.put(key("c"), StoreValue::Counter(u64::MAX), 60, 0);
    assert_eq!(store.increment(key("c"), 60, 1), u64::MAX);
}

#[test]
fn distinct_keys_are_independent() {
    let mut store = MemoryStore::new();
    assert_eq!(store.increment(key("a"), 60, 0), 1);
    assert_eq!(store.increment(key("b"), 60, 0), 1);
    assert_eq!(store.increment(key("a"), 60, 0), 2);
}

#[test]
fn delete_removes_and_ignores_absent() {
    let mut store = MemoryStore::new();
    store.put(key("k"), StoreValue::Text("v".to_string()), 60, 0);
    store.delete(&key("k"));
    assert!(store.get(&key("k"), 1).is_none());
    store.delete(&key("k"));
    assert!(store.get(&key("k"), 1).is_none());
}

#[test]
fn handle_carries_out_requests() {
    let mut store = MemoryStore::new();
    match store.handle(StoreRequest::Put(key("k"), StoreValue::Text("v".to_string()), 10), 0) {
        StoreResponse::Done => {}
        _ => panic!("expected Done"),
    }
    match store.handle(StoreRequest::Get(key("k")), 5) {
        StoreResponse::Value(v) => assert_eq!(text(&v), Some("v".to_string())),
        _ => panic!("expected a value"),
    }
    match store.handle(StoreRequest::Increment(key("n"), 10), 5) {
        StoreResponse::Count(c) => assert_eq!(c, 1),
        _ => panic!("expected a count"),
    }
    match store.handle(StoreRequest::Delete(key("k")), 6) {
        StoreResponse::Done => {}
        _ => panic!("expected Done"),
    }
    match store.handle(StoreRequest::Get(key("k")), 6) {
        StoreResponse::Value(v) => assert!(v.is_none()),
        _ => panic!("expected a value"),
    }
}

#[test]
fn evict_expired_drops_only_expired_records() {
    let mut store = MemoryStore::new();
    store.put(key("short"), StoreValue::Text("a".to_string()), 10, 0);
    store.put(key("long"), StoreValue::Text("b".to_string()), 100, 0);
    store.increment(key("count"), 50, 0);
    store.evict_expired(10);
    assert!(store.get(&key("short"), 0).is_none());
    assert_eq!(text(&store.get(&key("long"), 0)), Some("b".to_string()));
    match store.get(&key("count"), 0) {
        Some(StoreValue::Counter(n)) => assert_eq!(n, 1),
        _ => panic!("expected the counter to remain"),
    }
}
