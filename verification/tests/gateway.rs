use aether::gateway::pool::backend_uri;
use aether::gateway::{
    after_first_reply, after_redirected_reply, extract_leader_redirect, redirect_connection,
    BackendPool, Call, ChannelFault, GatewayConfig, LeaderHeader, ProxyStep, Reply, TlsConfig,
};
use aether::status::{Code, Status};

fn addrs(names: &[&str]) -> Vec<String> {
    names.iter().map(|s| s.to_string()).collect()
}

fn pool(names: &[&str]) -> BackendPool {
    let connected = vec![true; names.len()];
    match BackendPool::connect(&addrs(names), &connected, 5000, None) {
        Ok(pool) => pool,
        Err(_) => panic!("no pool"),
    }
}

fn said_leader(leader: &str) -> Reply {
    Reply::Refused(LeaderHeader::Said(leader.to_string()))
}

fn status(step: ProxyStep) -> (Code, String) {
    match step {
        ProxyStep::Fail(status) => (status.code, status.message),
        _ => panic!("not refused"),
    }
}

fn late() -> (Code, String) {
    (Code::DeadlineExceeded, "request timed out".to_string())
}

#[test]
fn gateways_have_defaults() {
    let config = GatewayConfig::new("0.0.0.0:1".to_string(), addrs(&["a", "b"]));
    assert_eq!(config.listen_addr, "0.0.0.0:1");
    assert_eq!(config.backend_addrs, addrs(&["a", "b"]));
    assert_eq!(config.request_timeout_ms, 5000);
    assert!(config.tls.is_none());
    assert_eq!(config.health_addr, "127.0.0.1:9091");
}

#[test]
fn pools_hold_the_backends_that_were_reached() {
    let all = addrs(&["a", "b", "c"]);
    let mut found = BackendPool::connect(&all, &vec![true, false, true], 70, None).ok().unwrap();
    assert_eq!(found.backends_count(), 2);
    assert_eq!(found.timeout_ms(), 70);
    assert_eq!(found.get_any_kv(), Some(("a".to_string(), 0)));
    assert_eq!(found.get_any_kv(), Some(("c".to_string(), 1)));
    match BackendPool::connect(&all, &vec![false, false, false], 70, None) {
        Err(e) => assert_eq!(
            (e.code, e.message.as_str()),
            (Code::Unavailable, "failed to connect to any backend node")
        ),
        Ok(_) => panic!("connected"),
    }
}

#[test]
fn backends_take_turns() {
    let mut p = pool(&["a", "b", "c"]);
    let picked: Vec<usize> = (0..7).map(|_| p.get_any_lock().unwrap().1).collect();
    assert_eq!(picked, vec![0, 1, 2, 0, 1, 2, 0]);
    // Without a leader the next in turn is asked.
    assert_eq!(p.get_leader_queue(), Some(("b".to_string(), 1)));
}

#[test]
fn the_leader_is_asked_once_it_is_known() {
    let mut p = pool(&["a", "b", "a"]);
    p.discover_leader(&vec![false, true]);
    assert_eq!(p.get_leader_auth(), Some(("b".to_string(), 1)));
    assert_eq!(p.get_leader_session(), Some(("b".to_string(), 1)));
    p.update_leader("a");
    assert_eq!(p.get_leader_watch(), Some(("a".to_string(), 2)));
    p.update_leader("unknown");
    assert_eq!(p.get_leader_lease(), Some(("a".to_string(), 2)));
    p.add_redirect_connection("d".to_string());
    assert_eq!(p.get_leader_election(), Some(("d".to_string(), 3)));
    assert_eq!(p.backends_count(), 4);
    let mut unknown = pool(&["a"]);
    unknown.discover_leader(&vec![false]);
    assert_eq!(unknown.get_leader_barrier(), Some(("a".to_string(), 0)));
}

#[test]
fn all_services_are_served_by_the_same_backends() {
    let mut p = pool(&["a"]);
    let one = Some(("a".to_string(), 0));
    assert_eq!(p.get_leader_kv(), one);
    assert_eq!(p.get_leader_cluster(), one);
    assert_eq!(p.get_any_cluster(), one);
    assert_eq!(p.get_leader_maintenance(), one);
    assert_eq!(p.get_any_maintenance(), one);
    assert_eq!(p.get_any_watch(), one);
    assert_eq!(p.get_any_lease(), one);
    assert_eq!(p.get_any_auth(), one);
    assert_eq!(p.get_leader_lock(), one);
    assert_eq!(p.get_any_election(), one);
    assert_eq!(p.get_any_barrier(), one);
    assert_eq!(p.get_any_queue(), one);
    assert_eq!(p.get_any_session(), one);
}

#[test]
fn reads_go_anywhere_and_writes_to_the_leader() {
    let mut p = pool(&["a", "b"]);
    p.update_leader("b");
    assert_eq!(Call::UserAdd.pick(&mut p), Ok(("b".to_string(), 1)));
    assert_eq!(Call::UserGet.pick(&mut p), Ok(("a".to_string(), 0)));
    assert_eq!(Call::BarrierQuery.pick(&mut p), Ok(("b".to_string(), 1)));
    assert!(Call::LeaseTimeToLive.goes_anywhere() && !Call::LeaseGrant.goes_anywhere());
    assert!(Call::Watch.is_streaming() && !Call::Enqueue.is_streaming());
}

#[test]
fn replies_of_plain_requests() {
    assert_eq!(after_first_reply(Call::LeaseGrant, Reply::Answered), ProxyStep::PassOn);
    assert_eq!(status(after_first_reply(Call::LeaseGrant, Reply::TimedOut)), late());
    assert_eq!(
        after_first_reply(Call::LeaseGrant, said_leader("n2")),
        ProxyStep::Redirect("n2".to_string())
    );
    assert_eq!(
        after_first_reply(Call::LeaseGrant, Reply::Refused(LeaderHeader::Absent)),
        ProxyStep::PassOn
    );
    assert_eq!(
        after_first_reply(Call::LeaseGrant, Reply::Refused(LeaderHeader::Unreadable)),
        ProxyStep::PassOn
    );
    assert_eq!(after_redirected_reply(said_leader("n3")), ProxyStep::PassOn);
    assert_eq!(after_redirected_reply(Reply::Answered), ProxyStep::PassOn);
    assert_eq!(status(after_redirected_reply(Reply::TimedOut)), late());
}

#[test]
fn replies_of_streams() {
    let retry = (Code::Unavailable, "leader redirect to n2, please retry".to_string());
    assert_eq!(status(after_first_reply(Call::Observe, said_leader("n2"))), retry);
    assert_eq!(status(after_first_reply(Call::SessionKeepAlive, said_leader("n2"))), retry);
    match after_first_reply(Call::Watch, said_leader("n2")) {
        ProxyStep::FailAndConnect { status, leader } => {
            assert_eq!((status.code, status.message), retry);
            assert_eq!(leader, "n2");
        }
        _ => panic!("not connected"),
    }
    assert_eq!(status(after_first_reply(Call::Watch, Reply::TimedOut)), late());
}

#[test]
fn leaders_join_once_they_are_connected() {
    let mut p = pool(&["a"]);
    let fault = ChannelFault::Connect("refused".to_string());
    let failed: Result<usize, Status> = redirect_connection(&mut p, "n2", Err(fault));
    assert_eq!(failed.unwrap_err().message, "connect failed: refused");
    assert_eq!(p.backends_count(), 1);
    assert_eq!(redirect_connection(&mut p, "n2", Ok(())), Ok(1));
    assert_eq!(p.get_leader_kv(), Some(("n2".to_string(), 1)));
    let message = |fault: ChannelFault| fault.status().message;
    assert_eq!(message(ChannelFault::InvalidUri("x".to_string())), "invalid uri: x");
    assert_eq!(message(ChannelFault::CaCert("x".to_string())), "read ca cert: x");
    assert_eq!(message(ChannelFault::ClientCert("x".to_string())), "read client cert: x");
    assert_eq!(message(ChannelFault::ClientKey("x".to_string())), "read client key: x");
    assert_eq!(message(ChannelFault::Tls("x".to_string())), "tls config: x");
}

#[test]
fn addresses_are_reached_with_or_without_tls() {
    assert_eq!(backend_uri(false, "h:1"), "http://h:1");
    assert_eq!(backend_uri(true, "h:1"), "https://h:1");
    let tls = TlsConfig {
        ca_cert: "ca".to_string(),
        client_cert: "cert".to_string(),
        client_key: "key".to_string(),
    };
    let secure = BackendPool::connect(&addrs(&["a"]), &vec![true], 1, Some(tls)).ok().unwrap();
    assert_eq!(secure.uri("h:1"), "https://h:1");
    assert_eq!(secure.tls().as_ref().unwrap().client_key, "key");
    assert_eq!(pool(&["a"]).uri("h:1"), "http://h:1");
    assert_eq!(
        extract_leader_redirect(LeaderHeader::Said("x".to_string())),
        Some("x".to_string())
    );
    assert_eq!(extract_leader_redirect(LeaderHeader::Unreadable), None);
}
