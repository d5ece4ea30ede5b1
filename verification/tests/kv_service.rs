use aether::api::kv::{
    check_txn_ops_permissions, convert_compares, convert_kv, convert_request_ops,
    convert_response_ops, linearizable_step, propose_failed, KvService, ReadPlan, ReadStep,
};
use aether::auth::{AuthCache, AuthInterceptor, Permission, PermissionType, Role, TokenValidator, User};
use aether::proto;
use aether::raft;
use aether::registry::Entry;
use aether::status::{Code, Status};

fn off() -> AuthInterceptor {
    AuthInterceptor::new(false, TokenValidator::new("key", 24), AuthCache::new(), false)
}

/// Authentication is on; alice may read and write under /a/ and read /r.
fn on() -> AuthInterceptor {
    let mut role = Role::new("a".to_string());
    role.permissions.push(Permission {
        perm_type: PermissionType::Readwrite,
        key: b"/a/".to_vec(),
        range_end: b"/a0".to_vec(),
    });
    role.permissions.push(Permission {
        perm_type: PermissionType::Read,
        key: b"/r".to_vec(),
        range_end: Vec::new(),
    });
    let mut user = User::new("alice".to_string(), "hash".to_string());
    user.roles.push("a".to_string());
    let mut cache = AuthCache::new();
    cache.insert_role(role);
    cache.insert_user(user);
    AuthInterceptor::new(true, TokenValidator::new("key", 24), cache, true)
}

fn code<T>(r: Result<T, Status>) -> (Code, String) {
    match r {
        Err(status) => (status.code, status.message),
        Ok(_) => panic!("accepted"),
    }
}

fn denied(message: &str) -> (Code, String) {
    (Code::PermissionDenied, message.to_string())
}

fn invalid(message: &str) -> (Code, String) {
    (Code::InvalidArgument, message.to_string())
}

fn put(key: &[u8]) -> proto::PutRequest {
    proto::PutRequest { key: key.to_vec(), value: b"v".to_vec(), lease: 3, prev_kv: true }
}

fn delete(key: &[u8], range_end: &[u8]) -> proto::DeleteRequest {
    proto::DeleteRequest { key: key.to_vec(), range_end: range_end.to_vec(), prev_kv: true }
}

fn get(key: &[u8], range_end: &[u8], limit: i64) -> proto::GetRequest {
    proto::GetRequest {
        key: key.to_vec(),
        range_end: range_end.to_vec(),
        limit,
        revision: 0,
        serializable: false,
        sort_order: 0,
        sort_target: 0,
    }
}

fn range(key: &[u8], range_end: &[u8], limit: i64) -> proto::RangeRequest {
    proto::RangeRequest { key: key.to_vec(), range_end: range_end.to_vec(), limit, revision: 5 }
}

fn op(request: proto::Request) -> proto::RequestOp {
    proto::RequestOp { request: Some(request) }
}

fn txn(success: Vec<proto::RequestOp>, failure: Vec<proto::RequestOp>) -> proto::TxnRequest {
    proto::TxnRequest { compare: Vec::new(), success, failure }
}

fn compare(key: &[u8]) -> proto::Compare {
    proto::Compare {
        result: proto::CompareResult::NotEqual,
        target: proto::CompareTarget::Value,
        key: key.to_vec(),
        target_union: Some(proto::TargetUnion::Value(b"x".to_vec())),
    }
}

fn kv(key: &[u8]) -> raft::KeyValue {
    raft::KeyValue {
        key: key.to_vec(),
        value: b"old".to_vec(),
        create_revision: 1,
        mod_revision: 2,
        version: 3,
        lease: 4,
    }
}

fn shown(key: &[u8]) -> proto::KeyValue {
    proto::KeyValue {
        key: key.to_vec(),
        value: b"old".to_vec(),
        create_revision: 1,
        mod_revision: 2,
        version: 3,
        lease: 4,
    }
}

fn header(member_id: u64) -> Option<proto::ResponseHeader> {
    Some(proto::ResponseHeader { cluster_id: 0, member_id, revision: 0, raft_term: 0 })
}

#[test]
fn puts_are_proposed_or_refused() {
    let service = KvService::new(7);
    match service.put_request(&off(), None, put(b"k")) {
        Ok(raft::RaftRequest::Put { key, value, lease_id }) => {
            assert_eq!((key, value, lease_id), (b"k".to_vec(), b"v".to_vec(), 3));
        }
        _ => panic!("not proposed"),
    }
    assert_eq!(code(service.put_request(&off(), None, put(b""))), invalid("key must not be empty"));
    assert_eq!(
        code(service.put_request(&off(), None, put(b"_aether_x"))),
        denied("keys starting with _aether_ are reserved")
    );
    assert!(service.put_request(&off(), None, put(b"_aether")).is_ok());
    assert_eq!(
        code(service.put_request(&on(), None, put(b"/a/1"))),
        (Code::Unauthenticated, "no user in context".to_string())
    );
    assert!(service.put_request(&on(), Some("alice"), put(b"/a/1")).is_ok());
    assert_eq!(
        code(service.put_request(&on(), Some("alice"), put(b"/r"))).0,
        Code::PermissionDenied
    );
    assert_eq!(
        code(service.put_request(&on(), Some("bob"), put(b"/a/1"))),
        (Code::Unauthenticated, "user not found".to_string())
    );
}

#[test]
fn puts_are_answered() {
    let service = KvService::new(7);
    let resp = service.put_response(true, raft::RaftResponse::Put { prev_kv: Some(kv(b"k")) });
    assert_eq!(resp, proto::PutResponse { header: header(7), prev_kv: Some(shown(b"k")) });
    let resp = service.put_response(false, raft::RaftResponse::Put { prev_kv: Some(kv(b"k")) });
    assert_eq!(resp.prev_kv, None);
    assert_eq!(service.put_response(true, raft::RaftResponse::LockRelease {}).prev_kv, None);
}

#[test]
fn gets_are_planned() {
    let service = KvService::new(7);
    assert!(matches!(service.get_plan(&off(), None, &get(b"k", b"", 0)), Ok(ReadPlan::Key)));
    match service.get_plan(&off(), None, &get(b"k", b"m", 10)) {
        Ok(ReadPlan::Span { end, limit }) => assert_eq!((end, limit), (b"m".to_vec(), 10)),
        _ => panic!("no span"),
    }
    match service.get_plan(&off(), None, &get(b"k", b"\0", -1)) {
        Ok(ReadPlan::Span { end, limit }) => assert_eq!((end, limit), (Vec::new(), usize::MAX)),
        _ => panic!("no span"),
    }
    assert_eq!(
        code(service.get_plan(&off(), None, &get(b"", b"", 0))),
        invalid("key must not be empty")
    );
    assert!(service.get_plan(&on(), Some("alice"), &get(b"/r", b"", 0)).is_ok());
    assert!(service.get_plan(&on(), Some("alice"), &get(b"/a/1", b"/a/2", 0)).is_ok());
    assert_eq!(
        code(service.get_plan(&on(), Some("alice"), &get(b"/r", b"/s", 0))).0,
        Code::PermissionDenied
    );
}

#[test]
fn gets_are_answered() {
    let service = KvService::new(7);
    let stored = |key: &[u8]| proto::KeyValue {
        key: key.to_vec(),
        value: b"v".to_vec(),
        create_revision: 0,
        mod_revision: 0,
        version: 0,
        lease: 0,
    };
    let resp = service.get_key_response(b"k".to_vec(), Some(b"v".to_vec()));
    assert_eq!(resp, proto::GetResponse { header: header(7), kvs: vec![stored(b"k")], count: 1 });
    let resp = service.get_key_response(b"k".to_vec(), None);
    assert_eq!(resp, proto::GetResponse { header: header(7), kvs: vec![], count: 0 });
    let entries = vec![
        Entry { key: b"a".to_vec(), value: b"v".to_vec() },
        Entry { key: b"b".to_vec(), value: b"v".to_vec() },
    ];
    let resp = service.get_span_response(entries);
    assert_eq!(
        resp,
        proto::GetResponse { header: header(7), kvs: vec![stored(b"a"), stored(b"b")], count: 2 }
    );
    let resp = service.range_key_response(b"k".to_vec(), Some(b"v".to_vec()));
    assert_eq!(resp, proto::RangeResponse { header: header(7), kvs: vec![stored(b"k")], count: 1 });
    let resp = service.range_span_response(vec![Entry { key: b"a".to_vec(), value: b"v".to_vec() }]);
    assert_eq!(resp, proto::RangeResponse { header: header(7), kvs: vec![stored(b"a")], count: 1 });
}

#[test]
fn ranges_need_range_access_even_for_one_key() {
    let service = KvService::new(7);
    assert!(service.range_check(&off(), None, &range(b"", b"", 0)).is_ok());
    assert_eq!(
        code(service.range_check(&on(), None, &range(b"/r", b"", 0))),
        (Code::Unauthenticated, "no user in context".to_string())
    );
    assert!(service.range_check(&on(), Some("alice"), &range(b"/a/", b"/a0", 0)).is_ok());
    assert!(service.range_check(&on(), Some("alice"), &range(b"/a/", b"/a1", 0)).is_err());
    assert_eq!(code(service.range_plan(&range(b"", b"", 0))), invalid("key must not be empty"));
    assert!(matches!(service.range_plan(&range(b"k", b"", 0)), Ok(ReadPlan::Key)));
}

#[test]
fn deletes_are_proposed_and_answered() {
    let service = KvService::new(7);
    match service.delete_request(&off(), None, delete(b"k", b"m")) {
        Ok(raft::RaftRequest::Delete { key, range_end }) => {
            assert_eq!((key, range_end), (b"k".to_vec(), b"m".to_vec()));
        }
        _ => panic!("not proposed"),
    }
    assert_eq!(
        code(service.delete_request(&off(), None, delete(b"", b""))),
        invalid("key must not be empty")
    );
    assert_eq!(
        code(service.delete_request(&off(), None, delete(b"_aether_x", b""))),
        denied("keys starting with _aether_ are reserved")
    );
    assert!(service.delete_request(&on(), Some("alice"), delete(b"/a/1", b"/a/3")).is_ok());
    assert!(service.delete_request(&on(), Some("alice"), delete(b"/a/1", b"\0")).is_err());
    let resp = || raft::RaftResponse::Delete { deleted: 2, prev_kvs: vec![kv(b"a"), kv(b"b")] };
    let full = service.delete_response(true, resp());
    assert_eq!((full.deleted, full.prev_kvs), (2, vec![shown(b"a"), shown(b"b")]));
    let short = service.delete_response(false, resp());
    assert_eq!((short.deleted, short.prev_kvs), (2, vec![]));
    let none = service.delete_response(true, raft::RaftResponse::LockRelease {});
    assert_eq!((none.header, none.deleted, none.prev_kvs), (header(7), 0, vec![]));
}

#[test]
fn transactions_are_converted() {
    let service = KvService::new(7);
    let nested = proto::TxnRequest {
        compare: vec![compare(b"c")],
        success: vec![op(proto::Request::Put(put(b"n")))],
        failure: vec![],
    };
    let req = proto::TxnRequest {
        compare: vec![compare(b"k")],
        success: vec![
            op(proto::Request::Put(put(b"p"))),
            op(proto::Request::Get(get(b"g", b"h", 4))),
            proto::RequestOp { request: None },
        ],
        failure: vec![
            op(proto::Request::Delete(delete(b"d", b""))),
            op(proto::Request::Range(range(b"r", b"s", 2))),
            op(proto::Request::Txn(nested)),
        ],
    };
    let (compare_out, success, failure) = match service.txn_request(&off(), None, req) {
        Ok(raft::RaftRequest::Txn { compare, success, failure }) => (compare, success, failure),
        _ => panic!("not proposed"),
    };
    assert_eq!(
        compare_out,
        vec![raft::Compare {
            result: raft::CompareResult::NotEqual,
            target: raft::CompareTarget::Value,
            key: b"k".to_vec(),
            target_union: raft::TargetUnion::Value(b"x".to_vec()),
        }]
    );
    assert_eq!(success.len(), 3);
    match &success[1].request {
        Some(raft::Request::Get(g)) => {
            assert_eq!((g.key.as_slice(), g.range_end.as_slice(), g.limit), (b"g".as_slice(), b"h".as_slice(), 4));
        }
        _ => panic!("no get"),
    }
    assert!(success[2].request.is_none());
    assert!(matches!(&failure[0].request, Some(raft::Request::Delete(d)) if d.key == b"d" && d.prev_kv));
    assert!(matches!(&failure[1].request, Some(raft::Request::Range(r)) if r.limit == 2 && r.revision == 5));
    match &failure[2].request {
        Some(raft::Request::Txn(t)) => {
            assert_eq!((t.compare.len(), t.success.len(), t.failure.len()), (1, 1, 0));
        }
        _ => panic!("no transaction"),
    }
}

#[test]
fn conditions_without_a_target_compare_the_version() {
    let out = convert_compares(vec![proto::Compare {
        result: proto::CompareResult::Less,
        target: proto::CompareTarget::Mod,
        key: b"k".to_vec(),
        target_union: None,
    }]);
    assert_eq!(out[0].target_union, raft::TargetUnion::Version(0));
    assert_eq!(out[0].target, raft::CompareTarget::Mod);
    assert_eq!(out[0].result, raft::CompareResult::Less);
}

#[test]
fn transactions_are_nested_once_at_most() {
    let inner = || op(proto::Request::Txn(txn(vec![], vec![])));
    let middle = || op(proto::Request::Txn(txn(vec![], vec![inner()])));
    assert!(convert_request_ops(vec![inner()]).is_ok());
    assert_eq!(
        code(convert_request_ops(vec![middle()])),
        invalid("transaction nesting depth exceeded")
    );
    let service = KvService::new(7);
    assert_eq!(
        code(service.txn_request(&off(), None, txn(vec![], vec![middle()]))),
        invalid("transaction nesting depth exceeded")
    );
}

#[test]
fn transactions_are_checked_at_any_depth() {
    let service = KvService::new(7);
    let auth = on();
    let check = |t: &proto::TxnRequest| check_txn_ops_permissions(&auth, "alice", t);
    assert!(check(&txn(vec![op(proto::Request::Put(put(b"/a/1")))], vec![])).is_ok());
    assert!(check(&txn(vec![op(proto::Request::Get(get(b"/r", b"", 0)))], vec![])).is_ok());
    assert!(check(&txn(vec![], vec![op(proto::Request::Put(put(b"/r")))])).is_err());
    assert!(check(&txn(vec![], vec![op(proto::Request::Range(range(b"/r", b"/s", 0)))])).is_err());
    assert!(check(&txn(vec![op(proto::Request::Delete(delete(b"/a/1", b"/z")))], vec![])).is_err());
    assert_eq!(
        code(check(&txn(vec![op(proto::Request::Delete(delete(b"_aether_", b"")))], vec![]))),
        denied("keys starting with _aether_ are reserved")
    );
    let nested = op(proto::Request::Txn(proto::TxnRequest {
        compare: vec![compare(b"/secret")],
        success: vec![],
        failure: vec![],
    }));
    assert!(check(&txn(vec![nested], vec![])).is_err());
    assert_eq!(
        code(service.txn_request(&on(), None, txn(vec![], vec![]))),
        (Code::Unauthenticated, "no user in context".to_string())
    );
    // Without authentication a transaction may write reserved keys.
    let reserved = txn(vec![op(proto::Request::Put(put(b"_aether_x")))], vec![]);
    assert!(service.txn_request(&off(), None, reserved).is_ok());
}

#[test]
fn transactions_are_answered() {
    let service = KvService::new(7);
    let responses = || {
        vec![
            raft::ResponseOp {
                response: Some(raft::Response::Put(raft::PutResponse { prev_kv: Some(kv(b"p")) })),
            },
            raft::ResponseOp {
                response: Some(raft::Response::Get(raft::RangeResponse { kvs: vec![kv(b"g")], count: 9 })),
            },
            raft::ResponseOp {
                response: Some(raft::Response::Delete(raft::DeleteResponse {
                    deleted: 1,
                    prev_kvs: vec![kv(b"d")],
                })),
            },
            raft::ResponseOp {
                response: Some(raft::Response::Txn(raft::TxnResponse {
                    succeeded: true,
                    responses: vec![raft::ResponseOp { response: None }],
                })),
            },
        ]
    };
    let resp = service.txn_response(raft::RaftResponse::Txn { succeeded: true, responses: responses() });
    assert!(resp.succeeded);
    assert_eq!(resp.header, header(7));
    assert_eq!(resp.responses, convert_response_ops(responses()));
    assert_eq!(
        resp.responses[0].response,
        Some(proto::Response::Put(proto::PutResponse { header: None, prev_kv: Some(shown(b"p")) }))
    );
    assert_eq!(
        resp.responses[1].response,
        Some(proto::Response::Get(proto::GetResponse { header: None, kvs: vec![shown(b"g")], count: 9 }))
    );
    assert_eq!(
        resp.responses[3].response,
        Some(proto::Response::Txn(proto::TxnResponse {
            header: None,
            succeeded: true,
            responses: vec![proto::ResponseOp { response: None }],
        }))
    );
    let other = service.txn_response(raft::RaftResponse::LockRelease {});
    assert!(!other.succeeded && other.responses.is_empty());
    assert_eq!(convert_kv(kv(b"k")), shown(b"k"));
}

#[test]
fn reads_wait_for_the_state_machine() {
    assert!(matches!(linearizable_step(5, 5, true), ReadStep::Ready));
    assert!(matches!(linearizable_step(4, 5, false), ReadStep::Wait));
    match linearizable_step(4, 5, true) {
        ReadStep::TimedOut(status) => {
            assert_eq!(status.code, Code::DeadlineExceeded);
            assert_eq!(status.message, "timed out waiting for state machine to apply");
        }
        _ => panic!("not given up"),
    }
    assert_eq!(propose_failed("x").message, "raft write failed: x");
}
