use aether::election::{election_key, election_name, validate_election_name, ElectionManager};
use aether::registry::LEASE_ID_SIZE;

#[test]
fn test_election_key_generation() {
    let name = b"my-election";
    let key = election_key(name);
    assert_eq!(key, b"_aether_election/my-election");
}

#[test]
fn test_election_name_extraction() {
    let key = b"_aether_election/my-election";
    let name = election_name(key);
    assert_eq!(name, Some(b"my-election".as_slice()));
}

#[test]
fn test_election_name_extraction_invalid() {
    let key = b"not-an-election";
    let name = election_name(key);
    assert_eq!(name, None);
}

#[test]
fn election_test_encode_decode_value() {
    let value = b"candidate-1";
    let lease_id = 42i64;
    let encoded = ElectionManager::encode_value(value, lease_id);

    assert_eq!(encoded.len(), LEASE_ID_SIZE + value.len());
    assert_eq!(&encoded[..LEASE_ID_SIZE], &lease_id.to_be_bytes());
    assert_eq!(&encoded[LEASE_ID_SIZE..], value);
}

#[test]
fn test_election_manager_set_remove_leader() {
    let mut mgr = ElectionManager::new();
    let name = b"test-election".to_vec();
    let key = election_key(&name);

    assert!(!mgr.has_leader(&name));
    assert_eq!(mgr.election_count(), 0);

    mgr.set_leader(name.clone(), key.clone(), 0);
    assert!(mgr.has_leader(&name));
    assert_eq!(mgr.get_leader_key(&name), Some(key.as_slice()));
    assert_eq!(mgr.election_count(), 1);

    // Test reverse index
    assert_eq!(mgr.get_election_name_by_key(&key), Some(name.as_slice()));

    assert!(mgr.remove_leader(&key));
    assert!(!mgr.has_leader(&name));
    assert_eq!(mgr.election_count(), 0);
    assert!(mgr.get_election_name_by_key(&key).is_none());
}

#[test]
fn test_election_manager_remove_nonexistent() {
    let mut mgr = ElectionManager::new();
    assert!(!mgr.remove_leader(b"nonexistent"));
}

#[test]
fn test_election_manager_lease_association() {
    let mut mgr = ElectionManager::new();
    let name = b"test-election".to_vec();
    let key = election_key(&name);

    mgr.set_leader(name.clone(), key.clone(), 42);
    assert_eq!(mgr.get_lease_id(&key), Some(42));
}

#[test]
fn test_election_manager_remove_by_lease() {
    let mut mgr = ElectionManager::new();
    let name1 = b"election-1".to_vec();
    let name2 = b"election-2".to_vec();
    let key1 = election_key(&name1);
    let key2 = election_key(&name2);

    mgr.set_leader(name1.clone(), key1.clone(), 42);
    mgr.set_leader(name2.clone(), key2.clone(), 42);

    assert_eq!(mgr.election_count(), 2);

    let removed = mgr.remove_by_lease(42);
    assert_eq!(removed.len(), 2);
    assert_eq!(mgr.election_count(), 0);
    assert!(!mgr.has_leader(&name1));
    assert!(!mgr.has_leader(&name2));
}

#[test]
fn test_election_manager_remove_by_lease_partial() {
    let mut mgr = ElectionManager::new();
    let name1 = b"election-1".to_vec();
    let name2 = b"election-2".to_vec();
    let key1 = election_key(&name1);
    let key2 = election_key(&name2);

    mgr.set_leader(name1.clone(), key1.clone(), 42);
    mgr.set_leader(name2.clone(), key2.clone(), 43);

    let removed = mgr.remove_by_lease(42);
    assert_eq!(removed.len(), 1);
    assert_eq!(mgr.election_count(), 1);
    assert!(!mgr.has_leader(&name1));
    assert!(mgr.has_leader(&name2));
}

#[test]
fn test_validate_election_name() {
    assert!(validate_election_name(b"valid-name").is_ok());
    assert!(validate_election_name(b"").is_err());
    assert!(validate_election_name(b"null\x00byte").is_err());
    assert!(validate_election_name(b"_aether_reserved").is_err());
}
