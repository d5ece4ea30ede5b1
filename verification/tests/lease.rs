use aether::clock::{unix_millis, whole_millis};
use aether::lease::store::{BatchOp, ColumnFamily};
use aether::lease::{
    expiry_sleep_millis, millis_shown, now_millis, Lease, LeaseInfo, LeaseManager, LeaseStore,
};

fn keys_of(manager: &LeaseManager, id: i64) -> Vec<Vec<u8>> {
    match manager.get_keys(id) {
        Some(keys) => (0..keys.len()).map(|i| keys.key_at(i).clone()).collect(),
        None => Vec::new(),
    }
}

/// What a batch writes: whether it puts, the family, the key and the value.
fn writes(batch: &[BatchOp]) -> Vec<(bool, ColumnFamily, Vec<u8>, Vec<u8>)> {
    batch
        .iter()
        .map(|op| match op {
            BatchOp::Put { cf, key, value } => (true, *cf, key.clone(), value.clone()),
            BatchOp::Delete { cf, key } => (false, *cf, key.clone(), Vec::new()),
        })
        .collect()
}

fn joined(lease_id: i64, key: &[u8]) -> Vec<u8> {
    let mut r = lease_id.to_be_bytes().to_vec();
    r.extend_from_slice(key);
    r
}

#[test]
fn leases_are_granted_kept_alive_and_revoked() {
    let mut manager = LeaseManager::new(10, 1);
    assert_eq!((manager.max_leases(), manager.lease_count()), (10, 0));
    assert_eq!(manager.next_id(), 1);
    let id = manager.next_lease_id();
    assert_eq!((id, manager.next_id()), (1, 2));
    let lease = manager.grant(id, 30, 5_000);
    assert_eq!((lease.id, lease.ttl, lease.granted_ttl, lease.expiry_time), (1, 30, 30, 5_000));
    manager.grant(4, 10, 3_000);
    assert_eq!(manager.list(), vec![1, 4]);
    assert_eq!(manager.earliest_expiry(), 3_000);
    assert_eq!(manager.expired_ids_at(2_999), Vec::<i64>::new());
    assert_eq!(manager.expired_ids_at(3_000), vec![4]);
    assert_eq!(manager.expired_ids_at(5_000), vec![4, 1]);
    let kept = manager.keep_alive(4, 9_000).unwrap();
    assert_eq!(kept.expiry_time, 9_000);
    assert!(manager.keep_alive(7, 9_000).is_none());
    assert_eq!(manager.expired_ids_at(5_000), vec![1]);
    assert!(manager.still_expired(1, 5_000));
    assert!(!manager.still_expired(4, 5_000));
    assert!(manager.still_expired(7, 0));
    manager.attach_key(4, b"b".to_vec());
    manager.attach_key(4, b"a".to_vec());
    manager.attach_key(4, b"a".to_vec());
    assert_eq!(keys_of(&manager, 4), vec![b"a".to_vec(), b"b".to_vec()]);
    manager.detach_key(4, b"b");
    let (lease, keys) = manager.revoke(4).unwrap();
    assert_eq!((lease.id, keys.len()), (4, 1));
    assert!(manager.get(4).is_none());
    assert!(manager.revoke(4).is_none());
    manager.revoke(1);
    assert_eq!(manager.earliest_expiry(), i64::MAX);
}

#[test]
fn leases_are_restored_unless_they_expired() {
    let mut manager = LeaseManager::new(10, 1);
    let info = |id: i64, expiry_time: i64| LeaseInfo { id, ttl: 5, granted_ttl: 5, expiry_time };
    let pairs = vec![(2, b"k".to_vec()), (3, b"gone".to_vec())];
    manager.restore(9, &vec![info(2, 2_000), info(3, 1_000)], &pairs, 1_500);
    assert_eq!(manager.list(), vec![2]);
    assert_eq!(keys_of(&manager, 2), vec![b"k".to_vec()]);
    assert_eq!(manager.next_id(), 9);
    assert_eq!(manager.expired_ids_at(2_000), vec![2]);
}

#[test]
fn the_clock_is_read() {
    let now = now_millis().unwrap();
    assert!(now > 1_600_000_000_000);
    let mut manager = LeaseManager::new(10, 1);
    manager.grant(1, 1, now - 1);
    manager.grant(2, 1, now + 1_000_000);
    assert_eq!(manager.expired_ids().unwrap(), vec![1]);
}

#[test]
fn readings_are_whole_milliseconds() {
    let span = std::time::Duration::new(12, 345_999_999);
    assert_eq!(whole_millis(Ok(span)), Some(12_345));
    let earlier = std::time::UNIX_EPOCH;
    let later = earlier + span;
    assert_eq!(whole_millis(later.duration_since(earlier)), Some(12_345));
    assert_eq!(whole_millis(earlier.duration_since(later)), None);
    assert!(unix_millis().unwrap() > 1_600_000_000_000);
}

#[test]
fn readings_are_shown_in_64_bits() {
    assert_eq!(millis_shown(Some(12_345)), Some(12_345));
    assert_eq!(millis_shown(Some(i64::MAX as u128 + 1)), Some(i64::MIN));
    assert_eq!(millis_shown(None), None);
}

#[test]
fn expired_leases_are_listed_for_a_time() {
    let mut manager = LeaseManager::new(10, 1);
    manager.grant(1, 1, 300);
    manager.grant(2, 1, 100);
    assert_eq!(manager.expired_ids_on(Some(99)), Some(vec![]));
    assert_eq!(manager.expired_ids_on(Some(100)), Some(vec![2]));
    assert_eq!(manager.expired_ids_on(Some(300)), Some(vec![2, 1]));
    assert_eq!(manager.expired_ids_on(None), None);
}

#[test]
fn the_expiry_task_sleeps_until_the_earliest_expiry() {
    assert_eq!(expiry_sleep_millis(1_000, 200), 800);
    assert_eq!(expiry_sleep_millis(1_000, 950), 100);
    assert_eq!(expiry_sleep_millis(1_000, 5_000), 100);
    assert_eq!(expiry_sleep_millis(i64::MAX, i64::MIN), u64::MAX);
}

#[test]
fn leases_and_their_records_say_the_same() {
    let lease = Lease::new(3, 10, 500);
    let info = lease.to_info();
    assert_eq!((info.id, info.ttl, info.granted_ttl, info.expiry_time), (3, 10, 10, 500));
    assert_eq!(info.to_lease().expiry_time, 500);
}

#[test]
fn associations_are_written() {
    let store = LeaseStore::new();
    assert_eq!(store.lease_key(5), 5i64.to_be_bytes().to_vec());
    let mut batch = Vec::new();
    store.batch_put_lease_association(b"k", 5, Some(4), &mut batch);
    assert_eq!(
        writes(&batch),
        vec![
            (false, ColumnFamily::KeyLease, b"k".to_vec(), Vec::new()),
            (false, ColumnFamily::LeaseKeys, joined(4, b"k"), Vec::new()),
            (true, ColumnFamily::KeyLease, b"k".to_vec(), 5i64.to_be_bytes().to_vec()),
            (true, ColumnFamily::LeaseKeys, joined(5, b"k"), Vec::new()),
        ]
    );
    for old in [None, Some(5), Some(0)] {
        let mut batch = Vec::new();
        store.batch_put_lease_association(b"k", 5, old, &mut batch);
        assert_eq!(batch.len(), 2);
    }
}

#[test]
fn associations_are_cleaned_up_and_read_back() {
    let store = LeaseStore::new();
    let keys = vec![b"a".to_vec(), b"b".to_vec(), b"c".to_vec(), b"d".to_vec()];
    let found = vec![
        Some(7i64.to_be_bytes().to_vec()),
        None,
        Some(0i64.to_be_bytes().to_vec()),
        Some(vec![1, 2]),
    ];
    let mut batch = Vec::new();
    let ended = store.batch_lease_cleanup(&keys, &found, &mut batch);
    assert_eq!(ended, vec![(7, b"a".to_vec())]);
    assert_eq!(
        writes(&batch),
        vec![
            (false, ColumnFamily::KeyLease, b"a".to_vec(), Vec::new()),
            (false, ColumnFamily::LeaseKeys, joined(7, b"a"), Vec::new()),
        ]
    );
    let pairs = store.load_all_lease_key_pairs(&vec![joined(7, b"a"), vec![1], joined(-2, b"")]);
    assert_eq!(pairs, vec![(7, b"a".to_vec()), (-2, Vec::new())]);
    assert_eq!(store.get_key_lease_id(&Some(joined(9, b""))), Some(9));
    assert_eq!(store.get_key_lease_id(&Some(joined(9, b"x"))), None);
    assert_eq!(store.load_lease_counter(&Some(joined(12, b""))), 12);
    assert_eq!(store.load_lease_counter(&None), 0);
}
