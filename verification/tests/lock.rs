use aether::lock::{lock_key, lock_name, validate_lock_name, LockManager};
use aether::registry::LEASE_ID_SIZE;

#[test]
fn test_lock_key_generation() {
    let name = b"my-lock";
    let key = lock_key(name);
    assert_eq!(key, b"_aether_lock/my-lock");
}

#[test]
fn test_lock_name_extraction() {
    let key = b"_aether_lock/my-lock";
    let name = lock_name(key);
    assert_eq!(name, Some(b"my-lock".as_slice()));
}

#[test]
fn test_lock_name_extraction_invalid() {
    let key = b"not-a-lock";
    let name = lock_name(key);
    assert_eq!(name, None);
}

#[test]
fn test_encode_decode_value() {
    let name = b"test-lock";
    let lease_id = 42i64;
    let encoded = LockManager::encode_value(name, lease_id);

    assert_eq!(encoded.len(), LEASE_ID_SIZE + name.len());
    assert_eq!(&encoded[..LEASE_ID_SIZE], &lease_id.to_be_bytes());
    assert_eq!(&encoded[LEASE_ID_SIZE..], name);
}

#[test]
fn test_lock_manager_acquire_release() {
    let mut mgr = LockManager::new();
    let name = b"test-lock".to_vec();
    let key = lock_key(&name);

    assert!(!mgr.is_locked(&name));
    assert_eq!(mgr.lock_count(), 0);

    mgr.acquire(name.clone(), key.clone(), 0);
    assert!(mgr.is_locked(&name));
    assert_eq!(mgr.get_key(&name), Some(key.as_slice()));
    assert_eq!(mgr.lock_count(), 1);

    assert!(mgr.release(&key));
    assert!(!mgr.is_locked(&name));
    assert_eq!(mgr.lock_count(), 0);
}

#[test]
fn test_lock_manager_release_nonexistent() {
    let mut mgr = LockManager::new();
    assert!(!mgr.release(b"nonexistent"));
}

#[test]
fn test_lock_manager_overwrite() {
    let mut mgr = LockManager::new();
    let name = b"test-lock".to_vec();
    let key1 = lock_key(&name);
    let key2 = b"_aether_lock/test-lock-v2".to_vec();

    mgr.acquire(name.clone(), key1.clone(), 0);
    assert_eq!(mgr.get_key(&name), Some(key1.as_slice()));

    // Overwrite with new key
    mgr.acquire(name.clone(), key2.clone(), 0);
    assert_eq!(mgr.get_key(&name), Some(key2.as_slice()));
    assert_eq!(mgr.lock_count(), 1);
}

#[test]
fn test_lock_manager_lease_association() {
    let mut mgr = LockManager::new();
    let name = b"test-lock".to_vec();
    let key = lock_key(&name);

    mgr.acquire(name.clone(), key.clone(), 42);
    assert_eq!(mgr.get_lease_id(&key), Some(42));
}

#[test]
fn test_lock_manager_lease_clear_on_zero() {
    let mut mgr = LockManager::new();
    let name = b"test-lock".to_vec();
    let key = lock_key(&name);

    // First acquire with lease_id=42
    mgr.acquire(name.clone(), key.clone(), 42);
    assert_eq!(mgr.get_lease_id(&key), Some(42));

    // Second acquire with lease_id=0 should clear lease
    mgr.acquire(name.clone(), key.clone(), 0);
    assert_eq!(mgr.get_lease_id(&key), None);
}

#[test]
fn test_lock_manager_release_by_lease() {
    let mut mgr = LockManager::new();
    let name1 = b"lock-1".to_vec();
    let name2 = b"lock-2".to_vec();
    let key1 = lock_key(&name1);
    let key2 = lock_key(&name2);

    mgr.acquire(name1.clone(), key1.clone(), 42);
    mgr.acquire(name2.clone(), key2.clone(), 42);

    assert_eq!(mgr.lock_count(), 2);

    let released = mgr.release_by_lease(42);
    assert_eq!(released.len(), 2);
    assert_eq!(mgr.lock_count(), 0);
    assert!(!mgr.is_locked(&name1));
    assert!(!mgr.is_locked(&name2));
}

#[test]
fn test_lock_manager_release_by_lease_partial() {
    let mut mgr = LockManager::new();
    let name1 = b"lock-1".to_vec();
    let name2 = b"lock-2".to_vec();
    let key1 = lock_key(&name1);
    let key2 = lock_key(&name2);

    mgr.acquire(name1.clone(), key1.clone(), 42);
    mgr.acquire(name2.clone(), key2.clone(), 43);

    let released = mgr.release_by_lease(42);
    assert_eq!(released.len(), 1);
    assert_eq!(mgr.lock_count(), 1);
    assert!(!mgr.is_locked(&name1));
    assert!(mgr.is_locked(&name2));
}

#[test]
fn test_validate_lock_name() {
    assert!(validate_lock_name(b"valid-name").is_ok());
    assert!(validate_lock_name(b"").is_err());
    assert!(validate_lock_name(b"null\x00byte").is_err());
    assert!(validate_lock_name(b"_aether_reserved").is_err());
}

#[test]
fn test_lock_manager_get_keys_by_lease() {
    let mut mgr = LockManager::new();
    let name1 = b"lock-1".to_vec();
    let name2 = b"lock-2".to_vec();
    let key1 = lock_key(&name1);
    let key2 = lock_key(&name2);

    mgr.acquire(name1.clone(), key1.clone(), 42);
    mgr.acquire(name2.clone(), key2.clone(), 42);

    let keys = mgr.get_keys_by_lease(42);
    assert_eq!(keys.len(), 2);
}

#[test]
fn acquire_moves_a_lock_between_leases() {
    let mut mgr = LockManager::new();
    let name = b"lock-1".to_vec();
    let key = lock_key(&name);

    mgr.acquire(name.clone(), key.clone(), 42);
    mgr.acquire(name.clone(), key.clone(), 43);
    assert_eq!(mgr.get_lease_id(&key), Some(43));
    assert!(mgr.get_keys_by_lease(42).is_empty());
    assert_eq!(mgr.get_keys_by_lease(43), vec![key.clone()]);

    assert!(mgr.release_by_lease(42).is_empty());
    assert!(mgr.is_locked(&name));
    assert_eq!(mgr.release_by_lease(43), vec![key]);
    assert!(!mgr.is_locked(&name));
}

#[test]
fn acquire_forgets_the_former_key_and_name() {
    let mut mgr = LockManager::new();
    mgr.acquire(b"a".to_vec(), b"k1".to_vec(), 5);
    mgr.acquire(b"a".to_vec(), b"k2".to_vec(), 0);
    assert_eq!(mgr.get_lease_id(b"k1"), None);
    assert!(mgr.get_keys_by_lease(5).is_empty());
    assert!(!mgr.release(b"k1"));
    assert_eq!(mgr.get_key(b"a"), Some(b"k2".as_slice()));

    mgr.acquire(b"b".to_vec(), b"k2".to_vec(), 0);
    assert!(!mgr.is_locked(b"a"));
    assert_eq!(mgr.get_key(b"b"), Some(b"k2".as_slice()));
    assert_eq!(mgr.lock_count(), 1);
}
