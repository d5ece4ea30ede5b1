use aether::barrier::{barrier_key, barrier_name, validate_barrier_name, BarrierManager};
use aether::registry::LEASE_ID_SIZE;

#[test]
fn test_barrier_key_generation() {
    let name = b"my-barrier";
    let key = barrier_key(name);
    assert_eq!(key, b"_aether_barrier/my-barrier");
}

#[test]
fn test_barrier_name_extraction() {
    let key = b"_aether_barrier/my-barrier";
    let name = barrier_name(key);
    assert_eq!(name, Some(b"my-barrier".as_slice()));
}

#[test]
fn test_barrier_name_extraction_invalid() {
    let key = b"not-a-barrier";
    let name = barrier_name(key);
    assert_eq!(name, None);
}

#[test]
fn mod_test_encode_decode_value() {
    let name = b"test-barrier";
    let lease_id = 42i64;
    let encoded = BarrierManager::encode_value(name, lease_id);

    assert_eq!(encoded.len(), LEASE_ID_SIZE + name.len());
    assert_eq!(&encoded[..LEASE_ID_SIZE], &lease_id.to_be_bytes());
    assert_eq!(&encoded[LEASE_ID_SIZE..], name);
}

#[test]
fn test_barrier_manager_create_release() {
    let mut mgr = BarrierManager::new();
    let name = b"test-barrier".to_vec();
    let key = barrier_key(&name);

    assert!(!mgr.is_held(&name));
    assert_eq!(mgr.barrier_count(), 0);

    mgr.create(name.clone(), key.clone(), 0);
    assert!(mgr.is_held(&name));
    assert_eq!(mgr.get_key(&name), Some(key.as_slice()));
    assert_eq!(mgr.barrier_count(), 1);

    assert!(mgr.release(&key));
    assert!(!mgr.is_held(&name));
    assert_eq!(mgr.barrier_count(), 0);
}

#[test]
fn test_barrier_manager_release_nonexistent() {
    let mut mgr = BarrierManager::new();
    assert!(!mgr.release(b"nonexistent"));
}

#[test]
fn test_barrier_manager_lease_association() {
    let mut mgr = BarrierManager::new();
    let name = b"test-barrier".to_vec();
    let key = barrier_key(&name);

    mgr.create(name.clone(), key.clone(), 42);
    assert_eq!(mgr.get_lease_id(&key), Some(42));
}

#[test]
fn test_barrier_manager_release_by_lease() {
    let mut mgr = BarrierManager::new();
    let name1 = b"barrier-1".to_vec();
    let name2 = b"barrier-2".to_vec();
    let key1 = barrier_key(&name1);
    let key2 = barrier_key(&name2);

    mgr.create(name1.clone(), key1.clone(), 42);
    mgr.create(name2.clone(), key2.clone(), 42);

    assert_eq!(mgr.barrier_count(), 2);

    let released = mgr.release_by_lease(42);
    assert_eq!(released.len(), 2);
    assert_eq!(mgr.barrier_count(), 0);
}

#[test]
fn test_validate_barrier_name() {
    assert!(validate_barrier_name(b"valid-name").is_ok());
    assert!(validate_barrier_name(b"").is_err());
    assert!(validate_barrier_name(b"null\x00byte").is_err());
    assert!(validate_barrier_name(b"_aether_reserved").is_err());
}
