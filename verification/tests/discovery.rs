use aether::cluster::discovery::{
    build_provider, DiscoveryConfig, DiscoveryError, DnsSrvDiscovery, DnsStep, Lookup, PeerInfo,
    Provider, TokenDiscovery, TokenStep,
};

fn peer(node_id: u64, addr: &str) -> PeerInfo {
    PeerInfo {
        node_id,
        addr: addr.to_string(),
    }
}

fn token(self_info: PeerInfo, expected_size: usize) -> TokenDiscovery {
    TokenDiscovery::new("discovery.json".to_string(), self_info, expected_size, 50, 5_000)
}

/// Registers in a token file that is kept in memory, and looks at it until the
/// deadline, which passes after a few looks.
fn discover_in(file: &mut String, provider: &TokenDiscovery) -> Result<Vec<PeerInfo>, DiscoveryError> {
    file.push_str(&provider.registration()?);
    let mut looks = 0;
    loop {
        let peers = TokenDiscovery::read_peers(file);
        match provider.step(peers.len(), looks >= 4) {
            TokenStep::Complete => return Ok(peers),
            TokenStep::Fail(e) => return Err(e),
            TokenStep::Wait { millis } => assert_eq!(millis, 50),
        }
        looks += 1;
    }
}

/// Resolves names that are addresses already.
fn discover_by_name(provider: &DnsSrvDiscovery) -> Result<Vec<PeerInfo>, DiscoveryError> {
    let mut parsed: Vec<(u64, String)> = Vec::new();
    loop {
        match provider.next_step(parsed.len(), false) {
            DnsStep::Lookup { id, addr } => {
                let found = DnsSrvDiscovery::resolved(addr.clone(), Lookup::Found(addr))?;
                parsed.push((id, found));
            }
            DnsStep::Done => return Ok(DnsSrvDiscovery::assign_ids(parsed)),
            DnsStep::Fail(e) => return Err(e),
        }
    }
}

#[test]
fn test_parse_host_entry_hostname_only() {
    let (id, addr) = DnsSrvDiscovery::parse_host_entry("node1.example.com", 2380).unwrap();
    assert_eq!(id, 0);
    assert_eq!(addr, "node1.example.com:2380");
}

#[test]
fn test_parse_host_entry_with_port() {
    let (id, addr) = DnsSrvDiscovery::parse_host_entry("node1.example.com:2381", 2380).unwrap();
    assert_eq!(id, 0);
    assert_eq!(addr, "node1.example.com:2381");
}

#[test]
fn test_parse_host_entry_with_port_and_id() {
    let (id, addr) = DnsSrvDiscovery::parse_host_entry("node1.example.com:2381:42", 2380).unwrap();
    assert_eq!(id, 42);
    assert_eq!(addr, "node1.example.com:2381");
}

#[test]
fn test_parse_host_entry_invalid_port() {
    let result = DnsSrvDiscovery::parse_host_entry("host:notaport", 2380);
    assert!(result.is_err());
}

#[test]
fn test_parse_host_entry_ipv6_with_port_and_id() {
    let (id, addr) = DnsSrvDiscovery::parse_host_entry("[::1]:2381:42", 2380).unwrap();
    assert_eq!(id, 42);
    assert_eq!(addr, "[::1]:2381");
}

#[test]
fn test_parse_host_entry_ipv6_with_port() {
    let (id, addr) = DnsSrvDiscovery::parse_host_entry("[::1]:2381", 2380).unwrap();
    assert_eq!(id, 0);
    assert_eq!(addr, "[::1]:2381");
}

#[test]
fn test_parse_host_entry_ipv6_default_port() {
    let (id, addr) = DnsSrvDiscovery::parse_host_entry("[::1]", 2380).unwrap();
    assert_eq!(id, 0);
    assert_eq!(addr, "[::1]:2380");
}

#[test]
fn test_parse_host_entry_ipv6_loopback() {
    let (id, addr) = DnsSrvDiscovery::parse_host_entry("[::ffff:127.0.0.1]:2380:5", 2380).unwrap();
    assert_eq!(id, 5);
    assert_eq!(addr, "[::ffff:127.0.0.1]:2380");
}

#[test]
fn host_entries_that_say_no_address() {
    for entry in [
        "::1]:2380", "[::1]2380", "[::1]:x", "host:70000", "host:1:-1", "host:1:2:3", "host:",
    ] {
        match DnsSrvDiscovery::parse_host_entry(entry, 2380) {
            Err(DiscoveryError::InvalidAddress(said)) => assert_eq!(said, entry),
            other => panic!("{entry}: {other:?}"),
        }
    }
    let (id, addr) = DnsSrvDiscovery::parse_host_entry("host:+80:+7", 2380).unwrap();
    assert_eq!((id, addr.as_str()), (7, "host:80"));
}

#[test]
fn test_token_discovery_register_and_read() {
    let mut file = String::new();
    let provider = token(peer(1, "127.0.0.1:2380"), 1);
    let peers = discover_in(&mut file, &provider).unwrap();
    assert_eq!(peers.len(), 1);
    assert_eq!(peers[0].node_id, 1);
    assert_eq!(peers[0].addr, "127.0.0.1:2380");
    assert_eq!(file, "{\"node_id\":1,\"addr\":\"127.0.0.1:2380\"}\n");
}

#[test]
fn test_token_discovery_multiple_nodes() {
    let mut file = "{\"node_id\":1,\"addr\":\"127.0.0.1:2380\"}\n\
                    {\"node_id\":2,\"addr\":\"127.0.0.1:2381\"}\n"
        .to_string();
    let provider = token(peer(3, "127.0.0.1:2382"), 3);
    let peers = discover_in(&mut file, &provider).unwrap();
    assert_eq!(peers.len(), 3);
    assert_eq!(peers[0].node_id, 1);
    assert_eq!(peers[1].node_id, 2);
    assert_eq!(peers[2].node_id, 3);
}

#[test]
fn test_token_discovery_timeout() {
    let mut file = String::new();
    let provider = TokenDiscovery::new(
        "discovery.json".to_string(),
        peer(1, "127.0.0.1:2380"),
        3,
        50,
        200,
    );
    assert_eq!(provider.timeout_in_millis(), 200);
    let result = discover_in(&mut file, &provider);
    assert!(result.is_err());
    let error = result.unwrap_err();
    assert!(matches!(error, DiscoveryError::Timeout { .. }));
    assert_eq!(error.message(), "discovery timed out after 200ms");
}

#[test]
fn test_token_discovery_always_appends() {
    let mut file = String::new();
    let provider = token(peer(1, "127.0.0.1:2380"), 1);
    assert_eq!(discover_in(&mut file, &provider).unwrap().len(), 1);
    let provider2 = token(peer(1, "127.0.0.1:2380"), 2);
    assert_eq!(discover_in(&mut file, &provider2).unwrap().len(), 2);
}

#[test]
fn test_token_discovery_re_register_on_addr_change() {
    let mut file = String::new();
    let provider = token(peer(1, "127.0.0.1:2380"), 1);
    discover_in(&mut file, &provider).unwrap();
    let provider2 = token(peer(1, "10.0.0.5:2380"), 1);
    let peers = discover_in(&mut file, &provider2).unwrap();
    assert_eq!(peers.len(), 2);
    assert!(peers.iter().any(|p| p.addr == "10.0.0.5:2380"));
}

#[test]
fn test_token_discovery_no_duplicate_on_restart() {
    let mut file = String::new();
    let provider = token(peer(1, "127.0.0.1:2380"), 1);
    assert_eq!(discover_in(&mut file, &provider).unwrap().len(), 1);
    let provider2 = token(peer(1, "127.0.0.1:2380"), 2);
    assert_eq!(discover_in(&mut file, &provider2).unwrap().len(), 2);
}

#[test]
fn test_token_discovery_skips_corrupt_lines() {
    let mut file = "{\"node_id\":1,\"addr\":\"127.0.0.1:2380\"}\n\
                    {this is not valid json\n\
                    {\"node_id\":2,\"addr\":\"127.0.0.1:2381\"}\n"
        .to_string();
    let provider = token(peer(3, "127.0.0.1:2382"), 3);
    let peers = discover_in(&mut file, &provider).unwrap();
    assert_eq!(peers.len(), 3);
    assert_eq!(peers[0].node_id, 1);
    assert_eq!(peers[1].node_id, 2);
    assert_eq!(peers[2].node_id, 3);
}

#[test]
fn lines_of_a_token_file() {
    let content = "\r\n  {\"addr\":\"a\\nb\",\"node_id\":7,\"more\":1}  \r\n\n{\"node_id\":1}\n\
                   {\"node_id\":-1,\"addr\":\"x\"}\n{\"node_id\":2,\"addr\":\"y\"}";
    let peers = TokenDiscovery::read_peers(content);
    assert_eq!(peers, vec![peer(7, "a\nb"), peer(2, "y")]);
    assert!(TokenDiscovery::read_peers("").is_empty());
}

#[test]
fn any_address_is_registered_and_read_back() {
    for addr in ["", "a\"b", "a\\b", "line\nbreak", "tab\t", "\u{e9}\u{1f980}", "\u{1}"] {
        let provider = token(peer(u64::MAX, addr), 1);
        let line = provider.registration().unwrap();
        assert_eq!(line.matches('\n').count(), 1);
        let before = "{\"node_id\":1,\"addr\":\"first\"}\n";
        let peers = TokenDiscovery::read_peers(&format!("{before}{line}"));
        assert_eq!(peers, vec![peer(1, "first"), peer(u64::MAX, addr)]);
    }
}

#[test]
fn test_build_provider_static_rejected() {
    let config = DiscoveryConfig::default(); // method = "static"
    let self_info = peer(1, "127.0.0.1:2380");
    // "static" is handled by the caller, not by build_provider.
    let result = build_provider(&config, self_info);
    assert!(result.is_err());
}

#[test]
fn test_build_provider_dns_empty_hosts() {
    let config = DiscoveryConfig {
        method: "dns".to_string(),
        dns_hosts: Vec::new(),
        ..Default::default()
    };
    let self_info = peer(1, "127.0.0.1:2380");
    let result = build_provider(&config, self_info);
    assert!(result.is_err());
}

#[test]
fn test_build_provider_unknown_method() {
    let config = DiscoveryConfig {
        method: "unknown".to_string(),
        ..Default::default()
    };
    let self_info = peer(1, "127.0.0.1:2380");
    let result = build_provider(&config, self_info);
    assert!(result.is_err());
}

#[test]
fn test_build_provider_token_empty_file() {
    let config = DiscoveryConfig {
        method: "token".to_string(),
        token_file: "/tmp/test-discovery-token.json".to_string(),
        ..Default::default()
    };
    let self_info = peer(1, "127.0.0.1:2380");
    let provider = build_provider(&config, self_info);
    assert!(provider.is_ok());
}

fn refusal(config: DiscoveryConfig) -> String {
    match build_provider(&config, peer(1, "a")) {
        Err(e) => e.message(),
        Ok(_) => panic!("accepted"),
    }
}

#[test]
fn providers_are_built_as_configured() {
    let config = DiscoveryConfig {
        method: "dns".to_string(),
        dns_hosts: vec!["h1".to_string(), "h2:1:9".to_string()],
        ..Default::default()
    };
    match build_provider(&config, peer(1, "a")) {
        Ok(Provider::Dns(dns)) => {
            assert_eq!(dns.timeout_in_millis(), 30_000);
            match dns.next_step(0, false) {
                DnsStep::Lookup { id, addr } => assert_eq!((id, addr.as_str()), (0, "h1:2380")),
                _ => panic!("no lookup"),
            }
            match dns.next_step(1, false) {
                DnsStep::Lookup { id, addr } => assert_eq!((id, addr.as_str()), (9, "h2:1")),
                _ => panic!("no lookup"),
            }
            assert!(matches!(dns.next_step(2, false), DnsStep::Done));
        }
        _ => panic!("no names"),
    }
    let config = DiscoveryConfig {
        method: "token".to_string(),
        token_file: "f".to_string(),
        ..Default::default()
    };
    match build_provider(&config, peer(4, "b")) {
        Ok(Provider::Token(t)) => {
            assert_eq!(t.token_path(), "f");
            assert_eq!(t.timeout_in_millis(), 30_000);
            assert_eq!(t.registration().unwrap(), "{\"node_id\":4,\"addr\":\"b\"}\n");
            assert!(matches!(t.step(3, false), TokenStep::Complete));
            assert!(matches!(t.step(2, false), TokenStep::Wait { millis: 500 }));
        }
        _ => panic!("no token"),
    }
    assert_eq!(
        refusal(DiscoveryConfig {
            method: "dns".to_string(),
            ..Default::default()
        }),
        "discovery config error: dns_hosts must not be empty for dns discovery"
    );
    assert_eq!(
        refusal(DiscoveryConfig {
            method: "token".to_string(),
            ..Default::default()
        }),
        "discovery config error: token_file must not be empty for token discovery"
    );
    assert_eq!(
        refusal(DiscoveryConfig::default()),
        "discovery config error: unknown discovery method: static (valid: dns, token)"
    );
}

#[test]
fn test_dns_discovery_localhost() {
    let provider = DnsSrvDiscovery::new(vec!["127.0.0.1:2380:1".to_string()], 2380, 5_000);
    let peers = discover_by_name(&provider).unwrap();
    assert_eq!(peers.len(), 1);
    assert_eq!(peers[0].node_id, 1);
    assert!(peers[0].addr.starts_with("127.0.0.1"));
}

#[test]
fn test_dns_discovery_auto_id_avoids_collision() {
    // Host with explicit id=1 and host with auto-id: should not collide.
    let provider = DnsSrvDiscovery::new(
        vec![
            "127.0.0.1:2380:1".to_string(),
            "127.0.0.1:2381".to_string(), // auto-id, should get 2 not 1
        ],
        2380,
        5_000,
    );
    let peers = discover_by_name(&provider).unwrap();
    assert_eq!(peers.len(), 2);
    let ids: Vec<u64> = peers.iter().map(|p| p.node_id).collect();
    assert!(ids.contains(&1));
    assert!(ids.contains(&2));
}

#[test]
fn found_identifiers_skip_those_that_are_given() {
    let parsed: Vec<(u64, String)> = [0, 3, 0, 1, 0, 3]
        .iter()
        .map(|id| (*id, "a".to_string()))
        .collect();
    let ids: Vec<u64> = DnsSrvDiscovery::assign_ids(parsed)
        .iter()
        .map(|p| p.node_id)
        .collect();
    assert_eq!(ids, vec![2, 3, 4, 1, 5, 3]);
}

#[test]
fn lookups_that_fail() {
    let failed = |outcome: Lookup| match DnsSrvDiscovery::resolved("h:1".to_string(), outcome) {
        Err(e) => e.message(),
        Ok(found) => found,
    };
    assert_eq!(failed(Lookup::Found("1.2.3.4:1".to_string())), "1.2.3.4:1");
    assert_eq!(failed(Lookup::TimedOut), "dns resolution failed for h:1: timeout");
    assert_eq!(
        failed(Lookup::Failed("no".to_string())),
        "dns resolution failed for h:1: no"
    );
    assert!(failed(Lookup::NoAddress).starts_with("dns resolution failed for h:1: "));
    let provider = DnsSrvDiscovery::new(vec!["h".to_string(), "h:x".to_string()], 2380, 5_000);
    match provider.next_step(0, true) {
        DnsStep::Fail(DiscoveryError::Timeout { millis }) => assert_eq!(millis, 5_000),
        _ => panic!("no timeout"),
    }
    match provider.next_step(1, false) {
        DnsStep::Fail(e) => assert_eq!(e.message(), "invalid address format: h:x"),
        _ => panic!("accepted"),
    }
    assert_eq!(
        DiscoveryError::Io("x".to_string()).message(),
        "io error: x"
    );
    assert_eq!(
        DiscoveryError::Json("y".to_string()).message(),
        "json error: y"
    );
}

#[test]
fn timeouts_are_shown_in_the_largest_unit() {
    let said = |millis: u128| DiscoveryError::Timeout { millis }.message();
    assert_eq!(said(0), "discovery timed out after 0ns");
    assert_eq!(said(7), "discovery timed out after 7ms");
    assert_eq!(said(30_000), "discovery timed out after 30s");
    for millis in [1u64, 999, 1_000, 1_050, 1_500, 2_001, 12_340, 60_000_000] {
        let span = std::time::Duration::from_millis(millis);
        assert_eq!(said(millis as u128), format!("discovery timed out after {span:?}"));
    }
}

#[test]
fn registrations_escape_the_address() {
    let own = peer(7, "a\"b\\c\n\u{8}\u{c}\t\r\u{1}\u{1f}/\u{7f}\u{e9}");
    let line = token(own, 1).registration().unwrap();
    assert_eq!(
        line,
        "{\"node_id\":7,\"addr\":\"a\\\"b\\\\c\\n\\b\\f\\t\\r\\u0001\\u001f/\u{7f}\u{e9}\"}\n"
    );
    let read = TokenDiscovery::read_peers(&line);
    assert_eq!(read, vec![peer(7, "a\"b\\c\n\u{8}\u{c}\t\r\u{1}\u{1f}/\u{7f}\u{e9}")]);
}

#[test]
fn token_lines_may_be_arrays() {
    let read = TokenDiscovery::read_peers("[3,\"a:1\"]\n[3]\n[3,\"a\",1]\n[\"a\",3]\n7\n");
    assert_eq!(read, vec![peer(3, "a:1")]);
}
