use aether::queue::{
    queue_item_key, queue_meta_key, queue_meta_name, queue_scan_prefix, validate_queue_name, QueueManager,
};

#[test]
fn test_queue_item_key_generation() {
    let name = b"my-queue";
    let key = queue_item_key(name, 1);
    let expected_seq = 1u64.to_be_bytes();
    assert!(key.starts_with(b"_aether_queue/my-queue/"));
    assert_eq!(&key[key.len() - 8..], expected_seq);
}

#[test]
fn test_queue_scan_prefix() {
    let prefix = queue_scan_prefix(b"my-queue");
    assert_eq!(prefix, b"_aether_queue/my-queue/");
}

#[test]
fn test_queue_meta_key() {
    let key = queue_meta_key(b"my-queue");
    assert_eq!(key, b"_aether_queue_meta/my-queue");
}

#[test]
fn test_queue_meta_name_extraction() {
    let key = b"_aether_queue_meta/my-queue";
    let name = queue_meta_name(key);
    assert_eq!(name, Some(b"my-queue".as_slice()));
}

#[test]
fn test_queue_manager_next_seq() {
    let mut mgr = QueueManager::new();
    let name = b"test-queue";

    assert_eq!(mgr.next_seq(name), 1);
    assert_eq!(mgr.next_seq(name), 2);
    assert_eq!(mgr.next_seq(name), 3);
}

#[test]
fn test_queue_manager_peek_seq() {
    let mut mgr = QueueManager::new();
    let name = b"test-queue";

    assert_eq!(mgr.peek_seq(name), 1);
    mgr.next_seq(name);
    assert_eq!(mgr.peek_seq(name), 2);
}

#[test]
fn test_queue_manager_multiple_queues() {
    let mut mgr = QueueManager::new();

    assert_eq!(mgr.next_seq(b"queue-a"), 1);
    assert_eq!(mgr.next_seq(b"queue-b"), 1);
    assert_eq!(mgr.next_seq(b"queue-a"), 2);
    assert_eq!(mgr.next_seq(b"queue-b"), 2);
}

#[test]
fn test_validate_queue_name() {
    assert!(validate_queue_name(b"valid-name").is_ok());
    assert!(validate_queue_name(b"").is_err());
    assert!(validate_queue_name(b"null\x00byte").is_err());
    assert!(validate_queue_name(b"_aether_reserved").is_err());
    assert!(validate_queue_name(b"has/slash").is_err());
}

#[test]
fn test_queue_item_key_ordering() {
    let name = b"test";
    let key1 = queue_item_key(name, 1);
    let key2 = queue_item_key(name, 2);
    let key10 = queue_item_key(name, 10);

    // Big-endian encoding ensures lexicographic order matches logical order
    assert!(key1 < key2);
    assert!(key2 < key10);
}
