use aether::config::{AetherConfig, Overrides, PeerConfig};
use aether::error::AetherError;
use aether::node::{
    auth_enabled_at_start, checked_signing_key, fresh_signing_key, initial_peers, is_stored,
    node_addrs, raft_settings, signing_key_source, stored_signing_key, KeySource,
};
use aether::random::random_bytes;

#[test]
fn configurations_have_defaults() {
    let config = AetherConfig::default();
    assert_eq!((config.node_id, config.addr.as_str()), (1, "127.0.0.1:2379"));
    assert_eq!(config.data_dir, "/tmp/aether");
    assert!(config.cluster.peers.is_empty());
    assert_eq!(config.cluster.heartbeat_interval_ms, 1000);
    assert_eq!(config.cluster.election_timeout_ms, 10000);
    assert_eq!(config.cluster.snapshot_trigger_log_entries, 10000);
    assert_eq!(config.cluster.discovery.method, "static");
    assert_eq!(config.cluster.discovery.dns_default_port, 2380);
    assert_eq!(config.cluster.discovery.token_expected_size, 3);
    assert_eq!(config.cluster.discovery.poll_interval_ms, 500);
    assert_eq!(config.cluster.discovery.timeout_secs, 30);
    assert!(!config.auth.enabled);
    assert_eq!((config.auth.token_expiry_hours, config.auth.signing_key.as_str()), (24, ""));
    assert_eq!((config.log.level.as_str(), config.log.log_file_prefix.as_str()), ("info", "aether"));
    assert!(!config.log.json && config.log.log_dir.is_empty());
    assert_eq!((config.lease.max_ttl, config.lease.max_leases), (86400, 10000));
    assert_eq!(config.metrics.listen_addr, "127.0.0.1:9090");
    assert_eq!(config.shard.max_region_size_bytes, 67108864);
    assert_eq!(config.shard.max_regions, 1024);
    assert!(!config.shard.auto_split);
}

#[test]
fn settings_at_the_start_come_first() {
    let mut config = AetherConfig::default();
    config.override_with(Overrides { node_id: Some(5), addr: None, data_dir: Some("/d".to_string()) });
    assert_eq!((config.node_id, config.addr.as_str()), (5, "127.0.0.1:2379"));
    assert_eq!(config.data_dir, "/d");
    config.override_with(Overrides { node_id: None, addr: Some("a:1".to_string()), data_dir: None });
    assert_eq!((config.node_id, config.addr.as_str(), config.data_dir.as_str()), (5, "a:1", "/d"));
    assert_eq!(
        config.listen_addr_fault("bad"),
        "invalid metrics.listen_addr '127.0.0.1:9090': bad"
    );
}

#[test]
fn errors_have_messages() {
    assert_eq!(AetherError::Config("x".to_string()).message(), "config error: x");
    assert_eq!(AetherError::Io("y".to_string()).message(), "io error: y");
}

#[test]
fn signing_keys_are_found_or_made() {
    assert_eq!(signing_key_source("k", true), KeySource::Configured("k".to_string()));
    assert_eq!(signing_key_source("", true), KeySource::File);
    assert_eq!(signing_key_source("", false), KeySource::Fresh);
    assert_eq!(stored_signing_key(Some("  abc\n")), "abc");
    assert_eq!(stored_signing_key(Some("\u{2003}a b\u{a0}")), "a b");
    assert_eq!(stored_signing_key(Some(" \r\n")), "");
    assert_eq!(stored_signing_key(None), "");
    assert_eq!(checked_signing_key("k".to_string()), Ok("k".to_string()));
    assert_eq!(
        checked_signing_key(String::new()),
        Err("JWT signing key is empty; configure auth.signing_key or ensure data directory is writable"
            .to_string())
    );
    let key = fresh_signing_key();
    assert_eq!(key.len(), 64);
    assert!(key.chars().all(|c| c.is_ascii_hexdigit() && !c.is_ascii_uppercase()));
    assert_ne!(key, fresh_signing_key());
}

#[test]
fn random_bytes_are_random() {
    assert_eq!(random_bytes(0), Vec::<u8>::new());
    let a = random_bytes(64);
    assert_eq!(a.len(), 64);
    assert_ne!(a, vec![0; 64]);
    assert_ne!(a, random_bytes(64));
}

#[test]
fn a_node_starts_with_its_peers() {
    let mut config = AetherConfig::default();
    for (node_id, addr) in [(2, "b"), (3, "c"), (2, "d")] {
        config.cluster.peers.push(PeerConfig { node_id, addr: addr.to_string() });
    }
    let peers = initial_peers(&config);
    assert_eq!(
        peers,
        vec![
            (1, "127.0.0.1:2379".to_string()),
            (2, "b".to_string()),
            (3, "c".to_string()),
            (2, "d".to_string()),
        ]
    );
    let map = node_addrs(&config);
    assert_eq!(map.len(), 3);
    assert_eq!(map.get(&2), Some(&"d".to_string()));
    assert_eq!(map.get(&1), Some(&"127.0.0.1:2379".to_string()));
    assert_eq!(map.get(&4), None);
}

#[test]
fn consensus_is_set_up() {
    let settings = raft_settings(9);
    assert_eq!((settings.id, settings.election_tick, settings.heartbeat_tick), (9, 10, 1));
    assert_eq!((settings.max_size_per_msg, settings.max_inflight_msgs), (1048576, 256));
}

#[test]
fn flags_are_remembered() {
    assert!(auth_enabled_at_start(true, Ok(None)));
    assert!(auth_enabled_at_start(false, Ok(Some(Vec::new()))));
    assert!(!auth_enabled_at_start(false, Ok(None)));
    assert!(!auth_enabled_at_start(false, Err("x".to_string())));
    assert!(is_stored(Ok(Some(vec![0]))));
    assert!(!is_stored(Err("x".to_string())));
}
