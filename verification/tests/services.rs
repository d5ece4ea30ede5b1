use aether::api::barrier::{BarrierEvent, BarrierService, BarrierStep, BarrierWait};
use aether::api::cluster::ClusterService;
use aether::api::election::{Campaign, CampaignEvent, CampaignStep, ElectionService};
use aether::api::guard::{require_root, unexpected, watch_verdict, WaitOutcome, WatchVerdict};
use aether::api::health::{admin_route, health_route, AdminAnswer, HealthStatus};
use aether::api::lock::LockService;
use aether::api::maintenance::{MaintenanceService, NodeReport};
use aether::api::metrics::{code_label, method_label};
use aether::api::queue::QueueService;
use aether::api::session::SessionService;
use aether::api::shard::ShardService;
use aether::api::watch::{
    create_plan, created_response, forward_step, ForwardEvent, ForwardStep, WatchService,
};
use aether::barrier::{barrier_key, BarrierManager};
use aether::cluster::{AlarmManager, AlarmType};
use aether::election::{election_key, ElectionManager};
use aether::lease::LeaseManager;
use aether::lock::{lock_key, LockManager};
use aether::proto;
use aether::raft::{
    ClusterMember, KeyValue, RaftError, RaftRequest, RaftResponse, Region, RegionEpoch, WatchEvent,
    WatchEventType, WatchResponse,
};
use aether::registry::Entry;
use aether::status::{Code, Status};

fn said<T>(r: Result<T, Status>) -> (Code, String) {
    match r {
        Err(status) => (status.code, status.message),
        Ok(_) => panic!("accepted"),
    }
}

fn refusal(code: Code, message: &str) -> (Code, String) {
    (code, message.to_string())
}

fn not_leader() -> Result<(), Status> {
    Err(Status { code: Code::Unavailable, message: "not leader".to_string(), leader: Some("n2".to_string()) })
}

fn failure(message: &str) -> RaftResponse {
    RaftResponse::Error { message: message.to_string() }
}

fn header(member_id: u64, raft_term: u64) -> Option<proto::ResponseHeader> {
    Some(proto::ResponseHeader { cluster_id: 0, member_id, revision: 0, raft_term })
}

fn kv(key: &[u8]) -> KeyValue {
    KeyValue {
        key: key.to_vec(),
        value: b"v".to_vec(),
        create_revision: 1,
        mod_revision: 2,
        version: 3,
        lease: 4,
    }
}

fn event(event_type: WatchEventType, key: &[u8]) -> WatchEvent {
    WatchEvent { event_type, kv: kv(key), prev_kv: None }
}

fn delivery(events: Vec<WatchEvent>, canceled: bool) -> WatchResponse {
    WatchResponse { watch_id: 5, created: false, events, canceled, cancel_reason: "why".to_string() }
}

#[test]
fn root_is_needed_where_it_is_needed() {
    assert!(require_root(false, None).is_ok());
    assert!(require_root(true, Some("root")).is_ok());
    assert_eq!(said(require_root(true, None)), refusal(Code::Unauthenticated, "no user in context"));
    assert_eq!(
        said(require_root(true, Some("alice"))),
        refusal(Code::PermissionDenied, "root user required")
    );
    assert_eq!(unexpected(failure("x")).message, "x");
    assert_eq!(unexpected(RaftResponse::LockRelease {}).message, "unexpected response type");
}

#[test]
fn locks_are_requested_and_answered() {
    let service = LockService::new(7);
    let ask = |name: &[u8], lease_id: i64| {
        service.lock_request(proto::LockRequest { name: name.to_vec(), lease_id })
    };
    assert!(matches!(ask(b"l", 0), Ok(RaftRequest::LockAcquire { name, lease_id: 0 }) if name == b"l"));
    assert_eq!(said(ask(b"l", -1)), refusal(Code::InvalidArgument, "lease_id must be non-negative"));
    assert_eq!(said(ask(b"", 0)).0, Code::InvalidArgument);
    assert_eq!(said(ask(&[b'x'; 1025], 0)).0, Code::InvalidArgument);
    assert!(ask(&[b'x'; 1024], 0).is_ok());
    let resp = service.lock_response(3, RaftResponse::LockAcquire { key: b"k".to_vec() }).unwrap();
    assert_eq!(resp, proto::LockResponse { header: header(7, 3), key: b"k".to_vec() });
    assert_eq!(said(service.lock_response(3, failure("held"))), refusal(Code::Internal, "held"));
    let unlock = |key: &[u8]| service.unlock_request(proto::UnlockRequest { key: key.to_vec() });
    assert_eq!(said(unlock(b"")), refusal(Code::InvalidArgument, "lock key must not be empty"));
    assert_eq!(said(unlock(b"x")), refusal(Code::InvalidArgument, "key is not a lock key"));
    assert!(matches!(unlock(b"_aether_lock/l"), Ok(RaftRequest::LockRelease { key }) if key == b"_aether_lock/l"));
    assert!(service.unlock_response(3, RaftResponse::LockRelease {}).is_ok());
    assert_eq!(
        said(service.unlock_response(3, RaftResponse::LeaseRevoke {})),
        refusal(Code::Internal, "unexpected response type")
    );
}

#[test]
fn locks_are_queried() {
    let service = LockService::new(7);
    let mut manager = LockManager::new();
    let req = proto::LockQueryRequest { name: b"l".to_vec() };
    let free = service.lock_query(3, Ok(()), &manager, &req).unwrap();
    assert_eq!((free.owner, free.lease_id), (Vec::new(), 0));
    manager.acquire(b"l".to_vec(), lock_key(b"l"), 9);
    let held = service.lock_query(3, Ok(()), &manager, &req).unwrap();
    assert_eq!((held.header, held.owner, held.lease_id), (header(7, 3), lock_key(b"l"), 9));
    manager.release(&lock_key(b"l"));
    assert!(service.lock_query(3, Ok(()), &manager, &req).unwrap().owner.is_empty());
    match service.lock_query(3, not_leader(), &manager, &req) {
        Err(status) => assert_eq!(status.leader, Some("n2".to_string())),
        Ok(_) => panic!("answered"),
    }
    let bad = proto::LockQueryRequest { name: Vec::new() };
    assert_eq!(said(service.lock_query(3, not_leader(), &manager, &bad)).0, Code::InvalidArgument);
}

#[test]
fn barriers_are_created_once_they_are_free() {
    let service = BarrierService::new(7);
    let ask = |name: &[u8], lease_id: i64| {
        service.create(proto::BarrierCreateRequest { name: name.to_vec(), lease_id })
    };
    assert_eq!(said(ask(b"b", -1)), refusal(Code::InvalidArgument, "lease_id must be non-negative"));
    assert_eq!(said(ask(b"", 0)).0, Code::InvalidArgument);
    let wait: BarrierWait = match ask(b"b", 4) {
        Ok(wait) => wait,
        Err(_) => panic!("refused"),
    };
    let watch = match wait.step(BarrierEvent::Begun) {
        BarrierStep::Watch(plan) => plan,
        _ => panic!("no watch"),
    };
    assert_eq!((watch.key, watch.range_end, watch.prev_kv), (barrier_key(b"b"), Vec::new(), false));
    assert_eq!(watch.filters, vec![WatchEventType::Delete]);
    let proposes = |request: &RaftRequest| {
        matches!(request, RaftRequest::BarrierCreate { name, lease_id: 4 } if name == b"b")
    };
    match wait.step(BarrierEvent::Watching) {
        BarrierStep::Propose(request) => assert!(proposes(&request)),
        _ => panic!("no proposal"),
    }
    let held = BarrierEvent::Proposed(Ok(RaftResponse::BarrierAlreadyHeld {}));
    assert!(matches!(wait.step(held), BarrierStep::AwaitDelete { secs: 30 }));
    match wait.step(BarrierEvent::Waited(WaitOutcome::Deleted)) {
        BarrierStep::Propose(request) => assert!(proposes(&request)),
        _ => panic!("no proposal"),
    }
    match wait.step(BarrierEvent::Proposed(Ok(RaftResponse::BarrierCreate { key: b"k".to_vec() }))) {
        BarrierStep::Done(Ok(key)) => assert_eq!(key, b"k"),
        _ => panic!("not done"),
    }
    let failed = |event: BarrierEvent| match wait.step(event) {
        BarrierStep::Done(result) => said(result),
        _ => panic!("not done"),
    };
    assert_eq!(
        failed(BarrierEvent::Waited(WaitOutcome::TimedOut)),
        refusal(Code::DeadlineExceeded, "barrier create timed out after 30 seconds: barrier is held")
    );
    assert_eq!(
        failed(BarrierEvent::Waited(WaitOutcome::Ended)),
        refusal(Code::Internal, "watch canceled unexpectedly")
    );
    assert_eq!(
        failed(BarrierEvent::Proposed(Err(Status::internal("x")))),
        refusal(Code::Internal, "x")
    );
    assert_eq!(
        failed(BarrierEvent::Proposed(Ok(failure("y")))),
        refusal(Code::Internal, "y")
    );
    assert_eq!(
        service.create_response(2, b"k".to_vec()),
        proto::BarrierCreateResponse { header: header(7, 2), key: b"k".to_vec() }
    );
}

#[test]
fn barriers_are_released_and_queried() {
    let service = BarrierService::new(7);
    let release = service.release_request(proto::BarrierReleaseRequest { name: b"b".to_vec() });
    assert!(matches!(release, Ok(RaftRequest::BarrierRelease { name }) if name == b"b"));
    assert!(service.release_request(proto::BarrierReleaseRequest { name: b"_aether_".to_vec() }).is_err());
    assert!(service.release_response(1, RaftResponse::BarrierRelease {}).is_ok());
    assert!(service.release_response(1, failure("no")).is_err());
    let mut manager = BarrierManager::new();
    manager.create(b"b".to_vec(), barrier_key(b"b"), 6);
    let req = proto::BarrierQueryRequest { name: b"b".to_vec() };
    let held = service.query(1, Ok(()), &manager, &req).unwrap();
    assert_eq!((held.held, held.key, held.lease_id), (true, barrier_key(b"b"), 6));
    let other = proto::BarrierQueryRequest { name: b"c".to_vec() };
    let free = service.query(1, Ok(()), &manager, &other).unwrap();
    assert_eq!((free.held, free.key, free.lease_id), (false, Vec::new(), 0));
    assert!(service.query(1, not_leader(), &manager, &req).is_err());
}

#[test]
fn watches_are_understood() {
    assert_eq!(watch_verdict(None), WatchVerdict::Ended);
    let gone = delivery(vec![event(WatchEventType::Delete, b"k")], false);
    assert_eq!(watch_verdict(Some(&gone)), WatchVerdict::Deleted);
    let kept = delivery(vec![event(WatchEventType::Put, b"k")], false);
    assert_eq!(watch_verdict(Some(&kept)), WatchVerdict::Continue);
    let over = delivery(vec![event(WatchEventType::Delete, b"k")], true);
    assert_eq!(watch_verdict(Some(&over)), WatchVerdict::Ended);
}

#[test]
fn campaigns_are_won_once_the_leader_is_gone() {
    let service = ElectionService::new(7);
    let ask = |name: &[u8], lease_id: i64, size: usize| {
        service.campaign(proto::CampaignRequest { name: name.to_vec(), lease_id, value: vec![1; size] })
    };
    assert_eq!(said(ask(b"e", 0, 1)), refusal(Code::InvalidArgument, "lease_id must be positive"));
    assert_eq!(said(ask(b"", 1, 1)).0, Code::InvalidArgument);
    assert_eq!(
        said(ask(b"e", 1, 65537)),
        refusal(Code::InvalidArgument, "value size 65537 exceeds maximum 65536")
    );
    let campaign: Campaign = match ask(b"e", 1, 65536) {
        Ok(campaign) => campaign,
        Err(_) => panic!("refused"),
    };
    match campaign.step(CampaignEvent::Begun) {
        CampaignStep::Watch(plan) => {
            assert_eq!((plan.key, plan.prev_kv), (election_key(b"e"), false));
            assert_eq!(plan.filters, vec![WatchEventType::Delete]);
        }
        _ => panic!("no watch"),
    }
    let proposes = |request: &RaftRequest| {
        matches!(request, RaftRequest::ElectionCampaign { name, lease_id: 1, value }
            if name == b"e" && value.len() == 65536)
    };
    match campaign.step(CampaignEvent::Watching) {
        CampaignStep::Propose(request) => assert!(proposes(&request)),
        _ => panic!("no proposal"),
    }
    let taken = CampaignEvent::Proposed(Ok(RaftResponse::ElectionAlreadyHasLeader {}));
    assert!(matches!(campaign.step(taken), CampaignStep::AwaitDelete { secs: 30 }));
    match campaign.step(CampaignEvent::Waited(WaitOutcome::Deleted)) {
        CampaignStep::Propose(request) => assert!(proposes(&request)),
        _ => panic!("no proposal"),
    }
    let done = |event: CampaignEvent| match campaign.step(event) {
        CampaignStep::Done { cancel_watch, result } => (cancel_watch, result),
        _ => panic!("not done"),
    };
    let won = CampaignEvent::Proposed(Ok(RaftResponse::ElectionCampaign { leader_key: b"k".to_vec() }));
    assert_eq!(done(won), (true, Ok(b"k".to_vec())));
    let (cancel, result) = done(CampaignEvent::Proposed(Err(Status::internal("x"))));
    assert_eq!((cancel, said(result)), (false, refusal(Code::Internal, "x")));
    let (cancel, result) = done(CampaignEvent::Waited(WaitOutcome::TimedOut));
    assert_eq!(
        (cancel, said(result)),
        (
            true,
            refusal(
                Code::DeadlineExceeded,
                "campaign timed out after 30 seconds: election already has a leader"
            )
        )
    );
    let (cancel, result) = done(CampaignEvent::Waited(WaitOutcome::Ended));
    assert_eq!((cancel, said(result)), (true, refusal(Code::Internal, "watch canceled unexpectedly")));
    let (cancel, result) = done(CampaignEvent::Proposed(Ok(RaftResponse::LockRelease {})));
    assert_eq!((cancel, said(result)), (true, refusal(Code::Internal, "unexpected response type")));
    assert_eq!(service.campaign_response(1, b"k".to_vec()).leader_key, b"k");
}

#[test]
fn leaders_are_named_with_what_they_proclaim() {
    let service = ElectionService::new(7);
    let mut manager = ElectionManager::new();
    let req = proto::LeaderRequest { name: b"e".to_vec() };
    assert_eq!(service.leader(Ok(()), &manager, &req), Ok(None));
    manager.set_leader(b"e".to_vec(), election_key(b"e"), 8);
    let found = service.leader(Ok(()), &manager, &req).unwrap();
    assert_eq!(found, Some((election_key(b"e"), 8)));
    assert!(service.leader(not_leader(), &manager, &req).is_err());
    let stored = Some(ElectionManager::encode_value(b"me", 8));
    let resp = service.leader_response(1, found, &stored);
    let kv = resp.kv.unwrap();
    assert_eq!((kv.key, kv.value, kv.version, kv.lease), (election_key(b"e"), b"me".to_vec(), 1, 8));
    assert_eq!(service.leader_response(1, None, &stored).kv, None);
    assert_eq!(ElectionService::get_leader_value(&Some(vec![0; 8])), Vec::<u8>::new());
    assert_eq!(ElectionService::get_leader_value(&None), Vec::<u8>::new());
    assert_eq!(ElectionService::build_leader_kv(b"k".to_vec(), 2, &stored).value, b"me");
}

#[test]
fn leaders_resign() {
    let service = ElectionService::new(7);
    let ask = |key: &[u8]| service.resign_request(proto::ResignRequest { leader_key: key.to_vec() });
    assert_eq!(said(ask(b"")), refusal(Code::InvalidArgument, "leader_key must not be empty"));
    assert_eq!(said(ask(b"x")), refusal(Code::InvalidArgument, "key is not an election key"));
    assert!(matches!(ask(b"_aether_election/e"), Ok(RaftRequest::ElectionResign { .. })));
    assert!(service.resign_response(1, RaftResponse::ElectionResign {}).is_ok());
    assert_eq!(
        said(service.resign_response(1, RaftResponse::ElectionResignNotFound {})),
        refusal(Code::NotFound, "leader key not found")
    );
    assert_eq!(said(service.resign_response(1, failure("x"))), refusal(Code::Internal, "x"));
}

#[test]
fn observers_are_told_of_the_leader() {
    let service = ElectionService::new(7);
    let mut manager = ElectionManager::new();
    manager.set_leader(b"e".to_vec(), election_key(b"e"), 8);
    let req = proto::ObserveRequest { name: b"e".to_vec() };
    let first = service.observe_start(1, Ok(()), &manager, &req).unwrap();
    let kv = first.kv.unwrap();
    assert_eq!((kv.key, kv.value, kv.lease), (election_key(b"e"), Vec::new(), 8));
    let none = proto::ObserveRequest { name: b"f".to_vec() };
    assert_eq!(service.observe_start(1, Ok(()), &manager, &none).unwrap().kv, None);
    assert!(service.observe_start(1, not_leader(), &manager, &req).is_err());
    let plan = ElectionService::observe_watch(b"e");
    assert_eq!((plan.key, plan.prev_kv), (election_key(b"e"), true));
    assert_eq!(plan.filters, vec![WatchEventType::Put, WatchEventType::Delete]);
    let told = ElectionService::observe_events(delivery(
        vec![event(WatchEventType::Put, b"a"), event(WatchEventType::Delete, b"b")],
        false,
    ))
    .unwrap();
    assert_eq!(told.len(), 2);
    assert_eq!(told[1].kv.as_ref().unwrap().key, b"b");
    assert!(told[0].header.is_none());
    assert!(ElectionService::observe_events(delivery(vec![], true)).is_none());
}

#[test]
fn queues_are_served() {
    let service = QueueService::new(7);
    let enqueue = |name: &[u8], size: usize| {
        service.enqueue_request(proto::QueueEnqueueRequest { name: name.to_vec(), value: vec![1; size] })
    };
    assert!(matches!(enqueue(b"q", 1), Ok(RaftRequest::QueueEnqueue { .. })));
    assert_eq!(said(enqueue(b"q", 0)), refusal(Code::InvalidArgument, "value must not be empty"));
    assert_eq!(
        said(enqueue(b"q", 1048577)),
        refusal(Code::InvalidArgument, "value size 1048577 exceeds maximum 1048576")
    );
    assert_eq!(said(enqueue(b"a/b", 1)).0, Code::InvalidArgument);
    let resp = service.enqueue_response(1, RaftResponse::QueueEnqueue { key: b"k".to_vec() }).unwrap();
    assert_eq!(resp.key, b"k");
    assert!(service.enqueue_response(1, failure("x")).is_err());
    assert!(service.dequeue_request(proto::QueueDequeueRequest { name: b"q".to_vec() }).is_ok());
    let resp = service
        .dequeue_response(1, RaftResponse::QueueDequeue { key: b"k".to_vec(), value: b"v".to_vec() })
        .unwrap();
    assert_eq!((resp.key, resp.value), (b"k".to_vec(), b"v".to_vec()));
    assert_eq!(
        said(service.dequeue_response(1, RaftResponse::QueueDequeueEmpty {})),
        refusal(Code::NotFound, "queue is empty")
    );
    let peek = proto::QueuePeekRequest { name: b"q".to_vec() };
    assert_eq!(service.peek_prefix(Ok(()), &peek).unwrap(), b"_aether_queue/q/");
    assert!(service.peek_prefix(not_leader(), &peek).is_err());
    let front = Entry { key: b"k".to_vec(), value: b"v".to_vec() };
    assert_eq!(service.peek_response(1, Some(front)).unwrap().value, b"v");
    assert_eq!(said(service.peek_response(1, None)), refusal(Code::NotFound, "queue is empty"));
    assert_eq!(QueueService::scan_failed("x").message, "storage scan failed: x");
}

#[test]
fn sessions_are_leases() {
    let service = SessionService::new(7, 60);
    let create = |ttl: i64| {
        service.create_request(false, None, &proto::SessionCreateRequest { ttl }, 1000)
    };
    let granted = |r: Result<RaftRequest, Status>| match r {
        Ok(RaftRequest::LeaseGrant { ttl, expiry_time }) => (ttl, expiry_time),
        _ => panic!("not granted"),
    };
    assert_eq!(granted(create(10)), (10, 11000));
    assert_eq!(granted(create(0)), (1, 2000));
    assert_eq!(granted(create(-5)), (1, 2000));
    assert_eq!(granted(create(1000)), (60, 61000));
    assert_eq!(
        said(service.create_request(true, None, &proto::SessionCreateRequest { ttl: 1 }, 0)).0,
        Code::Unauthenticated
    );
    let resp = service.create_response(2, RaftResponse::LeaseGrant { id: 5, ttl: 10 }).unwrap();
    assert_eq!((resp.header, resp.id, resp.granted_ttl), (header(7, 2), 5, 10));
    assert!(service.create_response(2, failure("x")).is_err());
    let close = |id: i64, exists: bool| {
        service.close_request(false, None, &proto::SessionCloseRequest { id }, exists)
    };
    assert!(matches!(close(5, true), Ok(RaftRequest::LeaseRevoke { id: 5 })));
    assert_eq!(said(close(0, true)), refusal(Code::InvalidArgument, "session ID must be positive"));
    assert_eq!(said(close(5, false)), refusal(Code::NotFound, "session not found: 5"));
    assert!(service.close_response(2, RaftResponse::LeaseRevoke {}).is_ok());
}

#[test]
fn sessions_are_kept_alive_and_queried() {
    let service = SessionService::new(7, 60);
    let mut leases = LeaseManager::new(10, 1);
    leases.grant(5, 10, 20_500);
    leases.attach_key(5, b"k".to_vec());
    assert!(service.keep_alive_check(false, None, Ok(())).is_ok());
    assert_eq!(said(service.keep_alive_check(false, None, not_leader())).1, "not leader");
    assert_eq!(said(service.keep_alive_check(true, Some("x"), Ok(()))).0, Code::PermissionDenied);
    let keep = |id: i64, leases: Option<&LeaseManager>| {
        service.keep_alive_request(&proto::SessionKeepAliveRequest { id }, leases, 1000)
    };
    assert!(matches!(keep(5, Some(&leases)), Ok(RaftRequest::LeaseKeepAlive { id: 5, expiry_time: 11000 })));
    assert_eq!(said(keep(6, Some(&leases))), refusal(Code::NotFound, "session not found: 6"));
    assert_eq!(said(keep(5, None)), refusal(Code::NotFound, "session not found: 5"));
    assert_eq!(said(keep(-1, None)), refusal(Code::InvalidArgument, "session ID must be positive"));
    let members = vec![ClusterMember { id: 2, addr: "n2".to_string(), is_learner: false }];
    let answer = |resp: Result<RaftResponse, RaftError>, leader: Option<u64>| {
        SessionService::keep_alive_response(service.header(3), resp, &members, leader)
    };
    assert_eq!(answer(Ok(RaftResponse::LeaseKeepAlive { ttl: 10 }), None).unwrap().ttl, 10);
    assert_eq!(
        answer(Err(RaftError::NotLeader), Some(2)).unwrap_err().leader,
        Some("n2".to_string())
    );
    assert_eq!(answer(Err(RaftError::NotLeader), Some(3)).unwrap_err().leader, None);
    assert_eq!(said(answer(Err(RaftError::NoLeader), None)), refusal(Code::Unavailable, "no leader elected"));
    assert_eq!(
        said(answer(Err(RaftError::Other("x".to_string())), None)),
        refusal(Code::Internal, "raft error: x")
    );
    assert_eq!(said(answer(Ok(failure("y")), None)), refusal(Code::Internal, "y"));
    assert_eq!(
        said(answer(Ok(RaftResponse::LockRelease {}), None)),
        refusal(Code::Internal, "unexpected response")
    );
    let query = |id: i64, now: i64| {
        service.query(false, None, Ok(()), 3, &proto::SessionQueryRequest { id }, &leases, now)
    };
    let resp = query(5, 10_000).unwrap();
    assert_eq!((resp.ttl, resp.granted_ttl, resp.keys), (10, 10, 1));
    assert_eq!(query(5, 30_000).unwrap().ttl, 0);
    assert_eq!(said(query(6, 0)), refusal(Code::NotFound, "session not found: 6"));
    assert_eq!(said(query(0, 0)), refusal(Code::InvalidArgument, "session ID must be positive"));
}

#[test]
fn members_come_and_go() {
    let service = ClusterService::new(1);
    let members = vec![
        ClusterMember { id: 1, addr: "n1".to_string(), is_learner: false },
        ClusterMember { id: 4, addr: "n4".to_string(), is_learner: true },
    ];
    let list = service.member_list(false, None, &members).unwrap();
    assert_eq!(list.members.len(), 2);
    assert_eq!((list.members[1].id, list.members[1].addr.as_str(), list.members[1].is_learner), (4, "n4", false));
    assert!(service.member_list(true, Some("x"), &members).is_err());
    let add = |addr: &str, is_learner: bool| proto::MemberAddRequest { addr: addr.to_string(), is_learner };
    assert_eq!(service.member_add(false, None, Ok(()), &add("n5", false), &members), Ok(5));
    assert_eq!(service.member_add(false, None, Ok(()), &add("n5", false), &Vec::new()), Ok(1));
    assert_eq!(
        said(service.member_add(false, None, Ok(()), &add("", false), &members)),
        refusal(Code::InvalidArgument, "addr must not be empty")
    );
    assert!(service.member_add(false, None, not_leader(), &add("", false), &members).is_err());
    assert_eq!(ClusterService::add_voters(&add("n5", false), &members, 5), Some(vec![1, 4, 5]));
    assert_eq!(ClusterService::add_voters(&add("n5", true), &members, 5), None);
    let resp = service.member_add_response(add("n5", true), 5, &members);
    let member = resp.member.unwrap();
    assert_eq!((member.id, member.addr.as_str(), member.is_learner), (5, "n5", true));
    assert_eq!(resp.members.len(), 2);
    let remove = |id: u64| {
        service.member_remove(false, None, Ok(()), &proto::MemberRemoveRequest { id }, &members)
    };
    assert_eq!(remove(4), Ok(vec![1]));
    assert_eq!(remove(9), Ok(vec![1, 4]));
    assert_eq!(said(remove(0)), refusal(Code::InvalidArgument, "member id must not be 0"));
    assert_eq!(said(remove(1)), refusal(Code::InvalidArgument, "cannot remove self"));
    assert_eq!(service.member_remove_response(&members).members.len(), 2);
    assert_eq!(ClusterService::add_learner_failed("x").message, "add_learner failed: x");
    assert_eq!(ClusterService::change_membership_failed("x").message, "change_membership failed: x");
}

#[test]
fn maintenance_is_done() {
    let service = MaintenanceService::new(7);
    assert!(service.defrag_response(1, Ok(Ok(()))).is_ok());
    assert_eq!(
        said(service.defrag_response(1, Ok(Err("x".to_string())))),
        refusal(Code::Internal, "defrag failed: x")
    );
    assert_eq!(
        said(service.defrag_response(1, Err("y".to_string()))),
        refusal(Code::Internal, "defrag task failed: y")
    );
    let report = NodeReport {
        leader: None,
        raft_index: 2,
        raft_term: 3,
        raft_applied_index: 4,
        db_size: 5,
        db_in_use: 6,
    };
    let members = vec![ClusterMember { id: 7, addr: String::new(), is_learner: true }];
    let resp = service.status(false, None, "1.0", &report, &members).unwrap();
    assert_eq!((resp.leader, resp.raft_index, resp.raft_term), (0, 2, 3));
    assert_eq!((resp.raft_applied_index, resp.db_size, resp.db_in_use), (4, 5, 6));
    assert_eq!((resp.version.as_str(), resp.is_learner), ("1.0", true));
    assert_eq!(resp.header, header(7, 3));
    assert!(service.status(true, None, "1.0", &report, &members).is_err());
}

#[test]
fn alarms_are_raised_and_acknowledged() {
    let service = MaintenanceService::new(7);
    let mut alarms = AlarmManager::new();
    let mut ask = |action: Option<proto::AlarmAction>, member_id: u64, alarm: i32| {
        service.alarm(false, None, 1, &proto::AlarmRequest { action, member_id, alarm }, &mut alarms)
    };
    let raised = ask(Some(proto::AlarmAction::Activate), 3, 1).unwrap();
    assert_eq!(raised.alarms, vec![proto::AlarmMember { member_id: 7, alarm: 1 }]);
    let listed = ask(Some(proto::AlarmAction::Get), 0, 0).unwrap();
    assert_eq!(listed.alarms, vec![proto::AlarmMember { member_id: 7, alarm: 1 }]);
    assert_eq!(said(ask(None, 0, 0)), refusal(Code::InvalidArgument, "invalid alarm action"));
    assert_eq!(
        said(ask(Some(proto::AlarmAction::Get), 0, 9)),
        refusal(Code::InvalidArgument, "invalid alarm type")
    );
    assert_eq!(
        said(ask(Some(proto::AlarmAction::Activate), 0, 0)),
        refusal(Code::InvalidArgument, "cannot activate ALARM_TYPE_NONE")
    );
    assert_eq!(
        said(ask(Some(proto::AlarmAction::Acknowledge), 0, 0)),
        refusal(Code::InvalidArgument, "cannot acknowledge ALARM_TYPE_NONE")
    );
    assert!(ask(Some(proto::AlarmAction::Acknowledge), 0, 1).unwrap().alarms.is_empty());
    assert!(ask(Some(proto::AlarmAction::Get), 0, 0).unwrap().alarms.is_empty());
    assert!(!alarms.has_alarm(7, AlarmType::NoSpace));
}

#[test]
fn regions_are_shown_and_split() {
    let service = ShardService::new(7);
    let region = |id: u64| Region {
        id,
        start_key: b"a".to_vec(),
        end_key: b"m".to_vec(),
        region_epoch: RegionEpoch { conf_ver: 1, version: 2 },
        leader: 3,
        replicas: vec![3, 4],
    };
    let shown = service.get_region(Some(&region(5))).unwrap().region.unwrap();
    assert_eq!((shown.id, shown.leader, shown.replicas), (5, 3, vec![3, 4]));
    assert_eq!(shown.region_epoch, Some(proto::RegionEpoch { conf_ver: 1, version: 2 }));
    assert_eq!(said(service.get_region(None)), refusal(Code::NotFound, "no region found for key"));
    assert_eq!(service.list_regions(&vec![region(1), region(2)]).regions[1].id, 2);
    let ask = |region_id: u64, split_key: &[u8], leadership: Result<(), Status>| {
        let req = proto::SplitRegionRequest { region_id, split_key: split_key.to_vec() };
        service.split_request(false, None, leadership, req)
    };
    assert!(matches!(ask(5, b"c", Ok(())), Ok(RaftRequest::RegionSplit { region_id: 5, .. })));
    assert_eq!(said(ask(0, b"c", Ok(()))), refusal(Code::InvalidArgument, "region_id must not be 0"));
    assert_eq!(said(ask(5, b"", Ok(()))), refusal(Code::InvalidArgument, "split_key must not be empty"));
    assert_eq!(said(ask(0, b"", not_leader())).1, "not leader");
    let resp = service
        .split_response(Ok(RaftResponse::RegionSplit { parent: region(5), child: region(6) }))
        .unwrap();
    assert_eq!((resp.parent.unwrap().id, resp.child.unwrap().id), (5, 6));
    assert_eq!(said(service.split_response(Ok(failure("x")))), refusal(Code::FailedPrecondition, "x"));
    assert_eq!(
        said(service.split_response(Err("y".to_string()))),
        refusal(Code::Internal, "propose failed: y")
    );
    assert_eq!(
        said(service.split_response(Ok(RaftResponse::LockRelease {}))),
        refusal(Code::Internal, "unexpected response type")
    );
}

#[test]
fn watches_are_forwarded() {
    let plan = create_plan(proto::WatchCreateRequest {
        key: b"k".to_vec(),
        range_end: b"m".to_vec(),
        filters: vec![0, 1, 7],
        prev_kv: true,
    });
    assert_eq!(plan.filters, vec![WatchEventType::Put, WatchEventType::Delete, WatchEventType::Put]);
    assert_eq!((plan.key, plan.range_end, plan.prev_kv), (b"k".to_vec(), b"m".to_vec(), true));
    let ack = created_response(9);
    assert!(ack.created && !ack.canceled && ack.watch_id == 9);
    assert_eq!(ack.header, header(0, 0));
    let events = vec![event(WatchEventType::Put, b"a"), event(WatchEventType::Delete, b"b")];
    match forward_step(ForwardEvent::Delivered(Some(delivery(events, false)))) {
        ForwardStep::Send(resp) => {
            assert_eq!(resp.watch_id, 5);
            assert_eq!(resp.events.iter().map(|e| e.event_type).collect::<Vec<i32>>(), vec![0, 1]);
            assert_eq!(resp.events[1].kv.as_ref().unwrap().key, b"b");
            assert_eq!(resp.cancel_reason, "why");
        }
        _ => panic!("not sent"),
    }
    assert!(matches!(forward_step(ForwardEvent::Delivered(None)), ForwardStep::Stop));
    assert!(matches!(forward_step(ForwardEvent::Sent { canceled: true }), ForwardStep::Stop));
    assert!(matches!(forward_step(ForwardEvent::Sent { canceled: false }), ForwardStep::Receive));
    assert!(matches!(forward_step(ForwardEvent::ClientGone), ForwardStep::CancelAndStop(why) if why == "stream closed"));
    assert!(matches!(forward_step(ForwardEvent::Canceled), ForwardStep::CancelAndStop(why) if why == "client cancel"));
    let mut service = WatchService::new();
    service.started(1);
    service.started(2);
    service.started(1);
    assert!(service.cancel(1));
    assert!(!service.cancel(1));
    assert_eq!(service.close(), vec![2]);
    assert!(service.close().is_empty());
    assert_eq!(WatchService::stream_error("x"), "stream error: x");
}

#[test]
fn health_is_shown() {
    let mut health = HealthStatus::new();
    assert!(!health.is_ready());
    health.set_storage_ready(true);
    assert!(health.is_storage_ready() && !health.is_raft_ready() && !health.is_ready());
    let plain = |code: u16, body: &'static str| AdminAnswer::Plain { code, body };
    assert_eq!(admin_route(true, "/health/ready", &health), plain(503, "NOT READY"));
    health.set_raft_ready(true);
    assert!(health.is_ready());
    assert_eq!(admin_route(true, "/health/ready", &health), plain(200, "OK"));
    assert_eq!(admin_route(true, "/health/live", &HealthStatus::new()), plain(200, "OK"));
    assert_eq!(admin_route(true, "/metrics", &health), AdminAnswer::Metrics);
    assert_eq!(admin_route(false, "/metrics", &health), plain(405, "METHOD NOT ALLOWED"));
    assert_eq!(admin_route(true, "/", &health), plain(404, "NOT FOUND"));
    assert_eq!(health_route(true, "/metrics", true), (404, "NOT FOUND"));
}

#[test]
fn requests_are_labelled() {
    assert_eq!(method_label("/aether.AetherKv/Put"), "Put");
    assert_eq!(method_label("/x/"), "");
    assert_eq!(method_label("plain"), "plain");
    assert_eq!(code_label(Some(200)), "OK");
    assert_eq!(code_label(Some(299)), "OK");
    assert_eq!(code_label(Some(300)), "ERROR");
    assert_eq!(code_label(Some(199)), "ERROR");
    assert_eq!(code_label(None), "ERROR");
}

#[test]
fn session_times_are_negotiated() {
    let service = SessionService::new(7, 60);
    assert_eq!(service.negotiate(i64::MIN), 1);
    assert_eq!(service.negotiate(30), 30);
    assert_eq!(service.negotiate(i64::MAX), 60);
}
