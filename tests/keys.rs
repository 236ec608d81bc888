use portier_broker::keys::{
    KeyManager, KeyManagerError, ManualKeys, ManualKeysError, RotatingKeys, SigningAlgorithm,
    SigningKey,
};
use portier_broker::store::{MemoryStore, StoreResponse};

fn key(id: &str, algorithm: SigningAlgorithm, created_at: u64) -> SigningKey {
    SigningKey {
        id: id.to_string(),
        algorithm,
        private_pem: format!("private {}", id),
        public_pem: format!("public {}", id),
        created_at,
    }
}

fn ids(keys: &[SigningKey]) -> Vec<String> {
    keys.iter().map(|k| k.id.clone()).collect()
}

#[test]
fn manual_keys_missing_algorithm_fails() {
    let keys = vec![key("rsa", SigningAlgorithm::Rs256, 0)];
    let algs = vec![SigningAlgorithm::Rs256, SigningAlgorithm::Es256];
    match ManualKeys::new(keys, &algs) {
        Err(e) => assert_eq!(e, ManualKeysError::MissingKey(SigningAlgorithm::Es256)),
        Ok(_) => panic!("expected a missing key"),
    }
}

#[test]
fn manual_keys_duplicate_algorithm_fails() {
    let keys = vec![
        key("a", SigningAlgorithm::Rs256, 0),
        key("b", SigningAlgorithm::EdDsa, 0),
        key("c", SigningAlgorithm::Rs256, 0),
    ];
    let algs = vec![SigningAlgorithm::Rs256];
    match ManualKeys::new(keys, &algs) {
        Err(e) => assert_eq!(e, ManualKeysError::DuplicateKey(SigningAlgorithm::Rs256)),
        Ok(_) => panic!("expected a duplicate key"),
    }
}

#[test]
fn manual_keys_sign_with_the_published_key() {
    let keys = vec![key("rsa", SigningAlgorithm::Rs256, 0)];
    let algs = vec![SigningAlgorithm::Rs256];
    let manual = ManualKeys::new(keys, &algs).ok().expect("keys accepted");
    let signer = manual.signing_key(SigningAlgorithm::Rs256).ok().expect("a key");
    assert_eq!(signer.id, "rsa");
    let published = manual.public_keys();
    assert_eq!(ids(&published), vec!["rsa".to_string()]);
    assert_eq!(published[0].public_pem, signer.public_pem);
    assert_eq!(
        manual.signing_key(SigningAlgorithm::Es256).err(),
        Some(KeyManagerError::NoKeyForAlgorithm(SigningAlgorithm::Es256))
    );
}

#[test]
fn manual_keys_unconfigured_algorithm_does_not_sign() {
    let keys = vec![key("rsa", SigningAlgorithm::Rs256, 0), key("ed", SigningAlgorithm::EdDsa, 0)];
    let algs = vec![SigningAlgorithm::Rs256];
    let manual = ManualKeys::new(keys, &algs).ok().expect("keys accepted");
    assert_eq!(
        manual.signing_key(SigningAlgorithm::EdDsa).err(),
        Some(KeyManagerError::NoKeyForAlgorithm(SigningAlgorithm::EdDsa))
    );
}

#[test]
fn rotating_keys_lifecycle() {
    let algs = vec![SigningAlgorithm::Rs256, SigningAlgorithm::EdDsa];
    let ttl = 86_400;
    let mut rk = RotatingKeys::new(ttl, algs.clone());
    assert!(rk.rotation_due(SigningAlgorithm::Rs256, 0));
    assert!(rk.signing_key(SigningAlgorithm::Rs256, 0).is_err());
    rk.install(key("rsa-1", SigningAlgorithm::Rs256, 1000));
    rk.install(key("ed-1", SigningAlgorithm::EdDsa, 1000));
    assert_eq!(ids(&rk.public_keys()), vec!["rsa-1".to_string(), "ed-1".to_string()]);
    assert!(!rk.rotation_due(SigningAlgorithm::Rs256, 1000 + 43_199));
    assert!(rk.rotation_due(SigningAlgorithm::Rs256, 1000 + 43_200));

    let now = 1000 + 43_200;
    rk.install(key("rsa-2", SigningAlgorithm::Rs256, now));
    rk.expire(now);
    assert_eq!(rk.signing_key(SigningAlgorithm::Rs256, now).ok().map(|k| k.id), Some("rsa-2".to_string()));
    assert_eq!(rk.signing_key(SigningAlgorithm::EdDsa, now).ok().map(|k| k.id), Some("ed-1".to_string()));
    assert_eq!(
        ids(&rk.public_keys()),
        vec!["rsa-1".to_string(), "ed-1".to_string(), "rsa-2".to_string()]
    );

    let later = 1000 + ttl;
    rk.expire(later);
    assert_eq!(ids(&rk.public_keys()), vec!["rsa-2".to_string()]);
    assert_eq!(
        rk.signing_key(SigningAlgorithm::EdDsa, later).err(),
        Some(KeyManagerError::NoKeyForAlgorithm(SigningAlgorithm::EdDsa))
    );
}

#[test]
fn rotating_keys_restart_restores_the_same_keys() {
    let algs = vec![SigningAlgorithm::Rs256];
    let mut store = MemoryStore::new();
    let mut rk = RotatingKeys::new(100, algs.clone());
    rk.install(key("rsa-1", SigningAlgorithm::Rs256, 10));
    rk.persist(&mut store, 10);

    let restored = RotatingKeys::restore(100, algs.clone(), &mut store, 40);
    assert_eq!(ids(&restored.public_keys()), vec!["rsa-1".to_string()]);
    assert_eq!(restored.signing_key(SigningAlgorithm::Rs256, 40).ok().map(|k| k.id), Some("rsa-1".to_string()));
    assert_eq!(restored.public_keys()[0].created_at, 10);
    assert!(!restored.rotation_due(SigningAlgorithm::Rs256, 59));
    assert!(restored.rotation_due(SigningAlgorithm::Rs256, 60));
    assert_eq!(restored.signing_algs(), algs);
}

#[test]
fn rotating_keys_restore_without_persisted_set_is_empty() {
    let mut store = MemoryStore::new();
    let restored = RotatingKeys::restore(100, vec![SigningAlgorithm::Rs256], &mut store, 0);
    assert!(restored.public_keys().is_empty());
    assert!(restored.rotation_due(SigningAlgorithm::Rs256, 0));
}

#[test]
fn signing_key_duplicate_is_equal() {
    let k = key("x", SigningAlgorithm::Es256, 7);
    let d = k.duplicate();
    assert_eq!(d.id, k.id);
    assert_eq!(d.private_pem, k.private_pem);
    assert_eq!(d.created_at, 7);
}

#[test]
fn rotating_keys_persist_through_store_requests() {
    let algs = vec![SigningAlgorithm::Rs256];
    let mut store = MemoryStore::new();
    let mut rk = RotatingKeys::new(100, algs.clone());
    rk.install(key("rsa-1", SigningAlgorithm::Rs256, 5));
    store.handle(rk.persist_request(), 5);
    let stored = match store.handle(RotatingKeys::load_request(), 50) {
        StoreResponse::Value(v) => v,
        _ => panic!("expected a value"),
    };
    let restored = RotatingKeys::from_stored(100, algs.clone(), stored);
    assert_eq!(ids(&restored.public_keys()), vec!["rsa-1".to_string()]);
    let gone = match store.handle(RotatingKeys::load_request(), 105) {
        StoreResponse::Value(v) => v,
        _ => panic!("expected a value"),
    };
    assert!(RotatingKeys::from_stored(100, algs, gone).public_keys().is_empty());
}

#[test]
fn key_manager_dispatches_to_either_variant() {
    let algs = vec![SigningAlgorithm::Rs256];
    let manual = ManualKeys::new(vec![key("m", SigningAlgorithm::Rs256, 0)], &algs).ok().expect("keys accepted");
    let km = KeyManager::Manual(manual);
    assert_eq!(km.signing_key(SigningAlgorithm::Rs256, u64::MAX).ok().map(|k| k.id), Some("m".to_string()));
    assert_eq!(ids(&km.public_keys()), vec!["m".to_string()]);

    let mut rk = RotatingKeys::new(10, algs);
    rk.install(key("r", SigningAlgorithm::Rs256, 0));
    let km = KeyManager::Rotating(rk);
    assert_eq!(km.signing_key(SigningAlgorithm::Rs256, 9).ok().map(|k| k.id), Some("r".to_string()));
    assert_eq!(
        km.signing_key(SigningAlgorithm::Rs256, 10).err(),
        Some(KeyManagerError::NoKeyForAlgorithm(SigningAlgorithm::Rs256))
    );
}
