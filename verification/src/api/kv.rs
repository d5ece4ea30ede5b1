//! Key-value service: what is asked of the state machine and of storage for
//! each request, and how the answers are given back.

use vstd::prelude::*;

use crate::auth::{AuthInterceptor, PermissionType};
use crate::names::is_reserved;
use crate::proto;
use crate::proto::ResponseHeader;
use crate::raft;
use crate::registry::Entry;
use crate::status::Status;

verus! {

/// Maximum nesting depth for transactions (1 = one level of nested transactions).
pub const MAX_TXN_DEPTH: u32 = 1;

/// The conditions of a transaction as the state machine takes them.
pub open spec fn raft_compare(c: proto::Compare) -> raft::Compare {
    raft::Compare {
        result: match c.result {
            proto::CompareResult::Equal => raft::CompareResult::Equal,
            proto::CompareResult::Greater => raft::CompareResult::Greater,
            proto::CompareResult::Less => raft::CompareResult::Less,
            proto::CompareResult::NotEqual => raft::CompareResult::NotEqual,
        },
        target: match c.target {
            proto::CompareTarget::Version => raft::CompareTarget::Version,
            proto::CompareTarget::Create => raft::CompareTarget::Create,
            proto::CompareTarget::Mod => raft::CompareTarget::Mod,
            proto::CompareTarget::Value => raft::CompareTarget::Value,
            proto::CompareTarget::Lease => raft::CompareTarget::Lease,
        },
        key: c.key,
        target_union: match c.target_union {
            Some(proto::TargetUnion::Version(v)) => raft::TargetUnion::Version(v),
            Some(proto::TargetUnion::CreateRevision(v)) => raft::TargetUnion::CreateRevision(v),
            Some(proto::TargetUnion::ModRevision(v)) => raft::TargetUnion::ModRevision(v),
            Some(proto::TargetUnion::Value(v)) => raft::TargetUnion::Value(v),
            Some(proto::TargetUnion::Lease(v)) => raft::TargetUnion::Lease(v),
            None => raft::TargetUnion::Version(0),
        },
    }
}

/// Transactions are nested at most as deep as allowed, starting at `depth`.
pub open spec fn depth_fits(ops: Seq<proto::RequestOp>, depth: nat) -> bool
    decreases MAX_TXN_DEPTH - depth,
{
    forall|i: int|
        0 <= i < ops.len() ==> match (#[trigger] ops[i]).request {
            Some(proto::Request::Txn(t)) => depth < MAX_TXN_DEPTH && depth_fits(
                t.success@,
                depth + 1,
            ) && depth_fits(t.failure@, depth + 1),
            _ => true,
        }
}

/// An operation as the state machine takes it.
pub open spec fn same_op(a: proto::RequestOp, b: raft::RequestOp) -> bool
    decreases a,
{
    match (a.request, b.request) {
        (None, None) => true,
        (Some(proto::Request::Put(p)), Some(raft::Request::Put(q))) => q == raft::PutRequest {
            key: p.key,
            value: p.value,
            lease: p.lease,
            prev_kv: p.prev_kv,
        },
        (Some(proto::Request::Get(g)), Some(raft::Request::Get(q))) => q == raft::RangeRequest {
            key: g.key,
            range_end: g.range_end,
            limit: g.limit,
            revision: g.revision,
            sort_order: raft::SortOrder::Unsorted,
            sort_target: raft::SortTarget::Key,
        },
        (Some(proto::Request::Delete(d)), Some(raft::Request::Delete(q))) => q
            == raft::DeleteRequest { key: d.key, range_end: d.range_end, prev_kv: d.prev_kv },
        (Some(proto::Request::Range(r)), Some(raft::Request::Range(q))) => q
            == raft::RangeRequest {
            key: r.key,
            range_end: r.range_end,
            limit: r.limit,
            revision: r.revision,
            sort_order: raft::SortOrder::Unsorted,
            sort_target: raft::SortTarget::Key,
        },
        (Some(proto::Request::Txn(t)), Some(raft::Request::Txn(u))) => same_txn(t, *u),
        _ => false,
    }
}

/// A transaction as the state machine takes it.
pub open spec fn same_txn(a: proto::TxnRequest, b: raft::TxnRequest) -> bool
    decreases a,
{
    &&& b.compare@ == a.compare@.map_values(|c: proto::Compare| raft_compare(c))
    &&& b.success@.len() == a.success@.len()
    &&& forall|i: int| 0 <= i < a.success@.len() ==> same_op(#[trigger] a.success@[i], b.success@[i])
    &&& b.failure@.len() == a.failure@.len()
    &&& forall|i: int| 0 <= i < a.failure@.len() ==> same_op(#[trigger] a.failure@[i], b.failure@[i])
}

/// Operations as the state machine takes them, one for one.
pub open spec fn same_ops(a: Seq<proto::RequestOp>, b: Seq<raft::RequestOp>) -> bool {
    &&& a.len() == b.len()
    &&& forall|i: int| 0 <= i < a.len() ==> same_op(#[trigger] a[i], b[i])
}

/// Converts the conditions of a transaction.
pub fn convert_compares(compares: Vec<proto::Compare>) -> (r: Vec<raft::Compare>)
    ensures
        r@ == compares@.map_values(|c: proto::Compare| raft_compare(c)),
{
    let mut out: Vec<raft::Compare> = Vec::new();
    for c in iter: compares
        invariant
            out@.len() == iter.index(),
            forall|j: int| 0 <= j < out@.len() ==> #[trigger] out@[j] == raft_compare(iter.seq()[j]),
    {
        out.push(
            raft::Compare {
                result: match c.result {
                    proto::CompareResult::Equal => raft::CompareResult::Equal,
                    proto::CompareResult::Greater => raft::CompareResult::Greater,
                    proto::CompareResult::Less => raft::CompareResult::Less,
                    proto::CompareResult::NotEqual => raft::CompareResult::NotEqual,
                },
                target: match c.target {
                    proto::CompareTarget::Version => raft::CompareTarget::Version,
                    proto::CompareTarget::Create => raft::CompareTarget::Create,
                    proto::CompareTarget::Mod => raft::CompareTarget::Mod,
                    proto::CompareTarget::Value => raft::CompareTarget::Value,
                    proto::CompareTarget::Lease => raft::CompareTarget::Lease,
                },
                key: c.key,
                target_union: match c.target_union {
                    Some(proto::TargetUnion::Version(v)) => raft::TargetUnion::Version(v),
                    Some(proto::TargetUnion::CreateRevision(v)) => {
                        raft::TargetUnion::CreateRevision(v)
                    },
                    Some(proto::TargetUnion::ModRevision(v)) => raft::TargetUnion::ModRevision(v),
                    Some(proto::TargetUnion::Value(v)) => raft::TargetUnion::Value(v),
                    Some(proto::TargetUnion::Lease(v)) => raft::TargetUnion::Lease(v),
                    None => raft::TargetUnion::Version(0),
                },
            },
        );
    }
    assert(out@ =~= compares@.map_values(|c: proto::Compare| raft_compare(c)));
    out
}

/// With what a transaction that is nested too deep is refused.
pub open spec fn depth_refusal() -> crate::status::Refusal {
    (crate::status::Code::InvalidArgument, "transaction nesting depth exceeded"@)
}

/// Converts the operations of a transaction.
pub fn convert_request_ops(ops: Vec<proto::RequestOp>) -> (r: Result<Vec<raft::RequestOp>, Status>)
    ensures
        crate::status::answers(
            r,
            if depth_fits(ops@, 0) {
                None
            } else {
                Some(depth_refusal())
            },
        ),
        r matches Ok(list) ==> same_ops(ops@, list@),
{
    convert_request_ops_inner(ops, 0)
}

fn convert_request_ops_inner(ops: Vec<proto::RequestOp>, depth: u32) -> (r: Result<
    Vec<raft::RequestOp>,
    Status,
>)
    requires
        depth <= MAX_TXN_DEPTH,
    ensures
        crate::status::answers(
            r,
            if depth_fits(ops@, depth as nat) {
                None
            } else {
                Some(depth_refusal())
            },
        ),
        r matches Ok(list) ==> same_ops(ops@, list@),
    decreases MAX_TXN_DEPTH - depth,
{
    let ghost all = ops@;
    let mut out: Vec<raft::RequestOp> = Vec::new();
    for op in iter: ops
        invariant
            depth <= MAX_TXN_DEPTH,
            iter.seq() == all,
            out@.len() == iter.index(),
            forall|j: int| 0 <= j < out@.len() ==> same_op(#[trigger] all[j], out@[j]),
            forall|j: int|
                0 <= j < out@.len() ==> match (#[trigger] all[j]).request {
                    Some(proto::Request::Txn(t)) => depth < MAX_TXN_DEPTH && depth_fits(
                        t.success@,
                        (depth + 1) as nat,
                    ) && depth_fits(t.failure@, (depth + 1) as nat),
                    _ => true,
                },
    {
        let ghost k = out@.len() as int;
        assert(op == all[k]);
        let request = match op.request {
            None => None,
            Some(proto::Request::Put(p)) => Some(
                raft::Request::Put(
                    raft::PutRequest {
                        key: p.key,
                        value: p.value,
                        lease: p.lease,
                        prev_kv: p.prev_kv,
                    },
                ),
            ),
            Some(proto::Request::Get(g)) => Some(
                raft::Request::Get(
                    raft::RangeRequest {
                        key: g.key,
                        range_end: g.range_end,
                        limit: g.limit,
                        revision: g.revision,
                        sort_order: raft::SortOrder::Unsorted,
                        sort_target: raft::SortTarget::Key,
                    },
                ),
            ),
            Some(proto::Request::Delete(d)) => Some(
                raft::Request::Delete(
                    raft::DeleteRequest {
                        key: d.key,
                        range_end: d.range_end,
                        prev_kv: d.prev_kv,
                    },
                ),
            ),
            Some(proto::Request::Range(r)) => Some(
                raft::Request::Range(
                    raft::RangeRequest {
                        key: r.key,
                        range_end: r.range_end,
                        limit: r.limit,
                        revision: r.revision,
                        sort_order: raft::SortOrder::Unsorted,
                        sort_target: raft::SortTarget::Key,
                    },
                ),
            ),
            Some(proto::Request::Txn(t)) => {
                if depth >= MAX_TXN_DEPTH {
                    return Err(Status::invalid_argument("transaction nesting depth exceeded"));
                }
                let compare = convert_compares(t.compare);
                let success = match convert_request_ops_inner(t.success, depth + 1) {
                    Ok(list) => list,
                    Err(status) => {
                        return Err(status);
                    },
                };
                let failure = match convert_request_ops_inner(t.failure, depth + 1) {
                    Ok(list) => list,
                    Err(status) => {
                        return Err(status);
                    },
                };
                let txn = raft::TxnRequest { compare, success, failure };
                assert(same_txn(t, txn));
                Some(raft::Request::Txn(Box::new(txn)))
            },
        };
        let converted = raft::RequestOp { request };
        assert(same_op(all[k], converted));
        out.push(converted);
    }
    Ok(out)
}

/// A key with its value as clients see it.
pub open spec fn proto_kv(kv: raft::KeyValue) -> proto::KeyValue {
    proto::KeyValue {
        key: kv.key,
        value: kv.value,
        create_revision: kv.create_revision,
        mod_revision: kv.mod_revision,
        version: kv.version,
        lease: kv.lease,
    }
}

/// Keys with their values as clients see them.
pub open spec fn proto_kvs(kvs: Seq<raft::KeyValue>) -> Seq<proto::KeyValue> {
    kvs.map_values(|kv: raft::KeyValue| proto_kv(kv))
}

/// A key with its value as clients see it, if there is one.
pub open spec fn proto_opt_kv(kv: Option<raft::KeyValue>) -> Option<proto::KeyValue> {
    match kv {
        Some(kv) => Some(proto_kv(kv)),
        None => None,
    }
}

/// What an operation gave as clients see it.
pub open spec fn same_response(a: raft::ResponseOp, b: proto::ResponseOp) -> bool
    decreases a,
{
    match (a.response, b.response) {
        (None, None) => true,
        (Some(raft::Response::Put(p)), Some(proto::Response::Put(q))) => q == proto::PutResponse {
            header: None,
            prev_kv: proto_opt_kv(p.prev_kv),
        },
        (Some(raft::Response::Get(g)), Some(proto::Response::Get(q))) => q.header is None
            && q.kvs@ == proto_kvs(g.kvs@) && q.count == g.count,
        (Some(raft::Response::Delete(d)), Some(proto::Response::Delete(q))) => q.header is None
            && q.deleted == d.deleted && q.prev_kvs@ == proto_kvs(d.prev_kvs@),
        (Some(raft::Response::Range(r)), Some(proto::Response::Range(q))) => q.header is None
            && q.kvs@ == proto_kvs(r.kvs@) && q.count == r.count,
        (Some(raft::Response::Txn(t)), Some(proto::Response::Txn(q))) => q.header is None
            && q.succeeded == t.succeeded && q.responses@.len() == t.responses@.len() && forall|
            i: int,
        |
            0 <= i < t.responses@.len() ==> same_response(
                #[trigger] t.responses@[i],
                q.responses@[i],
            ),
        _ => false,
    }
}

/// What operations gave as clients see it, one for one.
pub open spec fn same_responses(a: Seq<raft::ResponseOp>, b: Seq<proto::ResponseOp>) -> bool {
    &&& a.len() == b.len()
    &&& forall|i: int| 0 <= i < a.len() ==> same_response(#[trigger] a[i], b[i])
}

/// Converts a key with its value.
pub fn convert_kv(kv: raft::KeyValue) -> (r: proto::KeyValue)
    ensures
        r == proto_kv(kv),
{
    proto::KeyValue {
        key: kv.key,
        value: kv.value,
        create_revision: kv.create_revision,
        mod_revision: kv.mod_revision,
        version: kv.version,
        lease: kv.lease,
    }
}

/// Converts keys with their values.
pub fn convert_kvs(kvs: Vec<raft::KeyValue>) -> (r: Vec<proto::KeyValue>)
    ensures
        r@ == proto_kvs(kvs@),
{
    let mut out: Vec<proto::KeyValue> = Vec::new();
    for kv in iter: kvs
        invariant
            out@.len() == iter.index(),
            forall|j: int| 0 <= j < out@.len() ==> #[trigger] out@[j] == proto_kv(iter.seq()[j]),
    {
        out.push(convert_kv(kv));
    }
    assert(out@ =~= proto_kvs(kvs@));
    out
}

fn convert_opt_kv(kv: Option<raft::KeyValue>) -> (r: Option<proto::KeyValue>)
    ensures
        r == proto_opt_kv(kv),
{
    match kv {
        Some(kv) => Some(convert_kv(kv)),
        None => None,
    }
}

/// Converts what operations gave.
pub fn convert_response_ops(responses: Vec<raft::ResponseOp>) -> (r: Vec<proto::ResponseOp>)
    ensures
        same_responses(responses@, r@),
    decreases responses@,
{
    let ghost all = responses@;
    let mut out: Vec<proto::ResponseOp> = Vec::new();
    for op in iter: responses
        invariant
            iter.seq() == all,
            all == responses@,
            out@.len() == iter.index(),
            forall|j: int| 0 <= j < out@.len() ==> same_response(#[trigger] all[j], out@[j]),
    {
        let ghost k = out@.len() as int;
        assert(op == all[k]);
        let response = match op.response {
            None => None,
            Some(raft::Response::Put(p)) => Some(
                proto::Response::Put(
                    proto::PutResponse { header: None, prev_kv: convert_opt_kv(p.prev_kv) },
                ),
            ),
            Some(raft::Response::Get(g)) => Some(
                proto::Response::Get(
                    proto::GetResponse { header: None, kvs: convert_kvs(g.kvs), count: g.count },
                ),
            ),
            Some(raft::Response::Delete(d)) => Some(
                proto::Response::Delete(
                    proto::DeleteResponse {
                        header: None,
                        deleted: d.deleted,
                        prev_kvs: convert_kvs(d.prev_kvs),
                    },
                ),
            ),
            Some(raft::Response::Range(r)) => Some(
                proto::Response::Range(
                    proto::RangeResponse { header: None, kvs: convert_kvs(r.kvs), count: r.count },
                ),
            ),
            Some(raft::Response::Txn(t)) => {
                assert(decreases_to!(responses@ => responses@[k]));
                assert(decreases_to!(responses@ => t.responses@));
                let inner = convert_response_ops(t.responses);
                Some(
                    proto::Response::Txn(
                        proto::TxnResponse {
                            header: None,
                            succeeded: t.succeeded,
                            responses: inner,
                        },
                    ),
                )
            },
        };
        let converted = proto::ResponseOp { response };
        assert(same_response(all[k], converted));
        out.push(converted);
    }
    out
}

/// With what a write to a reserved key is refused.
pub open spec fn reserved_refusal() -> crate::status::Refusal {
    (crate::status::Code::PermissionDenied, "keys starting with _aether_ are reserved"@)
}

/// The key begins with the reserved prefix.
pub open spec fn reserved(key: Seq<u8>) -> bool {
    crate::names::reserved_prefix().is_prefix_of(key)
}

/// With what one operation of a transaction is refused to a user.
pub open spec fn op_refusal(
    data: crate::auth::cache::AuthData,
    user: Seq<char>,
    op: proto::RequestOp,
) -> Option<crate::status::Refusal>
    decreases op, 0nat,
{
    match op.request {
        Some(proto::Request::Put(p)) => if reserved(p.key@) {
            Some(reserved_refusal())
        } else {
            crate::auth::interceptor::key_refusal(data, user, p.key@, PermissionType::Write)
        },
        Some(proto::Request::Delete(d)) => if reserved(d.key@) {
            Some(reserved_refusal())
        } else if d.range_end@.len() > 0 {
            crate::auth::interceptor::range_refusal(
                data,
                user,
                d.key@,
                d.range_end@,
                PermissionType::Write,
            )
        } else {
            crate::auth::interceptor::key_refusal(data, user, d.key@, PermissionType::Write)
        },
        Some(proto::Request::Get(g)) => crate::auth::interceptor::key_refusal(
            data,
            user,
            g.key@,
            PermissionType::Read,
        ),
        Some(proto::Request::Range(r)) => crate::auth::interceptor::range_refusal(
            data,
            user,
            r.key@,
            r.range_end@,
            PermissionType::Read,
        ),
        Some(proto::Request::Txn(t)) => txn_refusal(data, user, t),
        None => None,
    }
}

/// With what the first refused of the first `n` operations is refused.
pub open spec fn ops_refusal(
    data: crate::auth::cache::AuthData,
    user: Seq<char>,
    ops: Seq<proto::RequestOp>,
    n: nat,
) -> Option<crate::status::Refusal>
    decreases ops, n,
{
    if n == 0 || n > ops.len() {
        None
    } else {
        match ops_refusal(data, user, ops, (n - 1) as nat) {
            Some(refusal) => Some(refusal),
            None => op_refusal(data, user, ops[n - 1]),
        }
    }
}

/// With what the first refused of the first `n` conditions is refused.
pub open spec fn compares_refusal(
    data: crate::auth::cache::AuthData,
    user: Seq<char>,
    compare: Seq<proto::Compare>,
    n: nat,
) -> Option<crate::status::Refusal>
    decreases n,
{
    if n == 0 || n > compare.len() {
        None
    } else {
        match compares_refusal(data, user, compare, (n - 1) as nat) {
            Some(refusal) => Some(refusal),
            None => crate::auth::interceptor::key_refusal(
                data,
                user,
                compare[n - 1].key@,
                PermissionType::Read,
            ),
        }
    }
}

/// With what a transaction is refused to a user: conditions need read access, and
/// operations what they do; the first refusal counts.
pub open spec fn txn_refusal(
    data: crate::auth::cache::AuthData,
    user: Seq<char>,
    t: proto::TxnRequest,
) -> Option<crate::status::Refusal>
    decreases t, 0nat,
{
    match compares_refusal(data, user, t.compare@, t.compare@.len()) {
        Some(refusal) => Some(refusal),
        None => match ops_refusal(data, user, t.success@, t.success@.len()) {
            Some(refusal) => Some(refusal),
            None => ops_refusal(data, user, t.failure@, t.failure@.len()),
        },
    }
}

/// A user may do an operation: what a nested transaction holds included.
pub open spec fn op_allowed(
    data: crate::auth::cache::AuthData,
    user: Seq<char>,
    op: proto::RequestOp,
) -> bool
    decreases op,
{
    match op.request {
        Some(proto::Request::Put(p)) => !reserved(p.key@)
            && crate::auth::interceptor::key_refusal(data, user, p.key@, PermissionType::Write) is None,
        Some(proto::Request::Delete(d)) => !reserved(d.key@) && if d.range_end@.len() > 0 {
            crate::auth::interceptor::range_refusal(
                data,
                user,
                d.key@,
                d.range_end@,
                PermissionType::Write,
            ) is None
        } else {
            crate::auth::interceptor::key_refusal(data, user, d.key@, PermissionType::Write) is None
        },
        Some(proto::Request::Get(g)) => crate::auth::interceptor::key_refusal(
            data,
            user,
            g.key@,
            PermissionType::Read,
        ) is None,
        Some(proto::Request::Range(r)) => crate::auth::interceptor::range_refusal(
            data,
            user,
            r.key@,
            r.range_end@,
            PermissionType::Read,
        ) is None,
        Some(proto::Request::Txn(t)) => txn_allowed(data, user, t),
        None => true,
    }
}

/// A user may do a transaction: read every key of a condition, and do every
/// operation of either branch.
pub open spec fn txn_allowed(
    data: crate::auth::cache::AuthData,
    user: Seq<char>,
    t: proto::TxnRequest,
) -> bool
    decreases t,
{
    &&& forall|i: int|
        0 <= i < t.compare@.len() ==> crate::auth::interceptor::key_refusal(
            data,
            user,
            (#[trigger] t.compare@[i]).key@,
            PermissionType::Read,
        ) is None
    &&& forall|i: int|
        0 <= i < t.success@.len() ==> op_allowed(data, user, #[trigger] t.success@[i])
    &&& forall|i: int|
        0 <= i < t.failure@.len() ==> op_allowed(data, user, #[trigger] t.failure@[i])
}

/// A transaction is refused if and only if something in it, at any depth, is not
/// allowed.
pub proof fn txn_refused_iff_not_allowed(
    data: crate::auth::cache::AuthData,
    user: Seq<char>,
    t: proto::TxnRequest,
)
    ensures
        txn_refusal(data, user, t) is None <==> txn_allowed(data, user, t),
    decreases t,
{
    first_compare_refused(data, user, t.compare@, t.compare@.len());
    assert forall|i: int| 0 <= i < t.success@.len() implies (op_refusal(
        data,
        user,
        #[trigger] t.success@[i],
    ) is None <==> op_allowed(data, user, t.success@[i])) by {
        assert(decreases_to!(t => t.success@[i]));
        if let Some(proto::Request::Txn(u)) = t.success@[i].request {
            txn_refused_iff_not_allowed(data, user, u);
        }
    }
    assert forall|i: int| 0 <= i < t.failure@.len() implies (op_refusal(
        data,
        user,
        #[trigger] t.failure@[i],
    ) is None <==> op_allowed(data, user, t.failure@[i])) by {
        assert(decreases_to!(t => t.failure@[i]));
        if let Some(proto::Request::Txn(u)) = t.failure@[i].request {
            txn_refused_iff_not_allowed(data, user, u);
        }
    }
    first_op_refused(data, user, t.success@, t.success@.len());
    first_op_refused(data, user, t.failure@, t.failure@.len());
}

proof fn first_compare_refused(
    data: crate::auth::cache::AuthData,
    user: Seq<char>,
    compare: Seq<proto::Compare>,
    n: nat,
)
    requires
        n <= compare.len(),
    ensures
        compares_refusal(data, user, compare, n) is None <==> forall|i: int|
            0 <= i < n ==> crate::auth::interceptor::key_refusal(
                data,
                user,
                (#[trigger] compare[i]).key@,
                PermissionType::Read,
            ) is None,
    decreases n,
{
    if n > 0 {
        first_compare_refused(data, user, compare, (n - 1) as nat);
        assert(compare[n - 1] == compare[n - 1]);
    }
}

proof fn first_op_refused(
    data: crate::auth::cache::AuthData,
    user: Seq<char>,
    ops: Seq<proto::RequestOp>,
    n: nat,
)
    requires
        n <= ops.len(),
    ensures
        ops_refusal(data, user, ops, n) is None <==> forall|i: int|
            0 <= i < n ==> op_refusal(data, user, #[trigger] ops[i]) is None,
    decreases n,
{
    if n > 0 {
        first_op_refused(data, user, ops, (n - 1) as nat);
        assert(ops[n - 1] == ops[n - 1]);
    }
}

fn check_compares(
    auth: &AuthInterceptor,
    username: &str,
    compare: &Vec<proto::Compare>,
) -> (r: Result<(), Status>)
    requires
        auth.wf(),
    ensures
        crate::status::answers(
            r,
            compares_refusal(auth.data(), username@, compare@, compare@.len()),
        ),
{
    let mut i: usize = 0;
    while i < compare.len()
        invariant
            i <= compare.len(),
            auth.wf(),
            compares_refusal(auth.data(), username@, compare@, i as nat) is None,
        decreases compare.len() - i,
    {
        if let Err(status) = auth.check_permission(
            username,
            compare[i].key.as_slice(),
            PermissionType::Read,
        ) {
            proof {
                refusal_stays(auth.data(), username@, compare@, (i + 1) as nat, compare@.len());
            }
            return Err(status);
        }
        i = i + 1;
    }
    Ok(())
}

proof fn refusal_stays(
    data: crate::auth::cache::AuthData,
    user: Seq<char>,
    compare: Seq<proto::Compare>,
    m: nat,
    n: nat,
)
    requires
        m <= n <= compare.len(),
        compares_refusal(data, user, compare, m) is Some,
    ensures
        compares_refusal(data, user, compare, n) == compares_refusal(data, user, compare, m),
    decreases n,
{
    if m < n {
        refusal_stays(data, user, compare, m, (n - 1) as nat);
    }
}

proof fn op_refusal_stays(
    data: crate::auth::cache::AuthData,
    user: Seq<char>,
    ops: Seq<proto::RequestOp>,
    m: nat,
    n: nat,
)
    requires
        m <= n <= ops.len(),
        ops_refusal(data, user, ops, m) is Some,
    ensures
        ops_refusal(data, user, ops, n) == ops_refusal(data, user, ops, m),
    decreases n,
{
    if m < n {
        op_refusal_stays(data, user, ops, m, (n - 1) as nat);
    }
}

fn check_ops(auth: &AuthInterceptor, username: &str, ops: &Vec<proto::RequestOp>) -> (r: Result<
    (),
    Status,
>)
    requires
        auth.wf(),
    ensures
        crate::status::answers(r, ops_refusal(auth.data(), username@, ops@, ops@.len())),
    decreases ops@,
{
    let mut i: usize = 0;
    while i < ops.len()
        invariant
            i <= ops.len(),
            auth.wf(),
            ops_refusal(auth.data(), username@, ops@, i as nat) is None,
        decreases ops.len() - i,
    {
        let ghost op = ops@[i as int];
        let verdict = match &ops[i].request {
            Some(proto::Request::Put(p)) => {
                if is_reserved(p.key.as_slice()) {
                    Err(Status::permission_denied("keys starting with _aether_ are reserved"))
                } else {
                    auth.check_permission(username, p.key.as_slice(), PermissionType::Write)
                }
            },
            Some(proto::Request::Delete(d)) => {
                if is_reserved(d.key.as_slice()) {
                    Err(Status::permission_denied("keys starting with _aether_ are reserved"))
                } else if d.range_end.len() > 0 {
                    auth.check_range_permission(
                        username,
                        d.key.as_slice(),
                        d.range_end.as_slice(),
                        PermissionType::Write,
                    )
                } else {
                    auth.check_permission(username, d.key.as_slice(), PermissionType::Write)
                }
            },
            Some(proto::Request::Get(g)) => {
                auth.check_permission(username, g.key.as_slice(), PermissionType::Read)
            },
            Some(proto::Request::Range(r)) => {
                auth.check_range_permission(
                    username,
                    r.key.as_slice(),
                    r.range_end.as_slice(),
                    PermissionType::Read,
                )
            },
            Some(proto::Request::Txn(t)) => {
                assert(decreases_to!(ops@ => ops@[i as int]));
                assert(decreases_to!(ops@ => t.success@));
                assert(decreases_to!(ops@ => t.failure@));
                match check_compares(auth, username, &t.compare) {
                    Err(status) => Err(status),
                    Ok(()) => match check_ops(auth, username, &t.success) {
                        Err(status) => Err(status),
                        Ok(()) => check_ops(auth, username, &t.failure),
                    },
                }
            },
            None => Ok(()),
        };
        assert(crate::status::answers(verdict, op_refusal(auth.data(), username@, op)));
        if let Err(status) = verdict {
            proof {
                op_refusal_stays(auth.data(), username@, ops@, (i + 1) as nat, ops@.len());
            }
            return Err(status);
        }
        i = i + 1;
    }
    Ok(())
}

/// Checks permissions for all operations in a transaction (including nested).
pub fn check_txn_ops_permissions(
    auth: &AuthInterceptor,
    username: &str,
    txn: &proto::TxnRequest,
) -> (r: Result<(), Status>)
    requires
        auth.wf(),
    ensures
        crate::status::answers(r, txn_refusal(auth.data(), username@, *txn)),
{
    match check_compares(auth, username, &txn.compare) {
        Err(status) => Err(status),
        Ok(()) => match check_ops(auth, username, &txn.success) {
            Err(status) => Err(status),
            Ok(()) => check_ops(auth, username, &txn.failure),
        },
    }
}

/// The text of an optional name.
pub open spec fn name_of(username: Option<&str>) -> Option<Seq<char>> {
    match username {
        Some(name) => Some(name@),
        None => None,
    }
}

/// With what a request of nobody is refused when authentication is on.
pub open spec fn nobody_refusal() -> crate::status::Refusal {
    (crate::status::Code::Unauthenticated, "no user in context"@)
}

/// With what access to a key is refused; nothing is refused when authentication
/// is off.
pub open spec fn perm_refusal(
    enabled: bool,
    data: crate::auth::cache::AuthData,
    username: Option<Seq<char>>,
    key: Seq<u8>,
    required: PermissionType,
) -> Option<crate::status::Refusal> {
    if !enabled {
        None
    } else {
        match username {
            Some(name) => crate::auth::interceptor::key_refusal(data, name, key, required),
            None => Some(nobody_refusal()),
        }
    }
}

/// With what access to a range is refused; nothing is refused when
/// authentication is off.
pub open spec fn range_perm_refusal(
    enabled: bool,
    data: crate::auth::cache::AuthData,
    username: Option<Seq<char>>,
    key: Seq<u8>,
    range_end: Seq<u8>,
    required: PermissionType,
) -> Option<crate::status::Refusal> {
    if !enabled {
        None
    } else {
        match username {
            Some(name) => crate::auth::interceptor::range_refusal(
                data,
                name,
                key,
                range_end,
                required,
            ),
            None => Some(nobody_refusal()),
        }
    }
}

/// With what access to a key, or to a range if there is an end, is refused.
pub open spec fn span_refusal(
    enabled: bool,
    data: crate::auth::cache::AuthData,
    username: Option<Seq<char>>,
    key: Seq<u8>,
    range_end: Seq<u8>,
    required: PermissionType,
) -> Option<crate::status::Refusal> {
    if range_end.len() > 0 {
        range_perm_refusal(enabled, data, username, key, range_end, required)
    } else {
        perm_refusal(enabled, data, username, key, required)
    }
}

/// With what an empty key is refused.
pub open spec fn empty_key_refusal() -> crate::status::Refusal {
    (crate::status::Code::InvalidArgument, "key must not be empty"@)
}

/// With what a write to a key is refused whoever writes.
pub open spec fn write_key_refusal(key: Seq<u8>) -> Option<crate::status::Refusal> {
    if key.len() == 0 {
        Some(empty_key_refusal())
    } else if reserved(key) {
        Some(reserved_refusal())
    } else {
        None
    }
}

/// The first of two refusals.
pub open spec fn first_refusal(
    a: Option<crate::status::Refusal>,
    b: Option<crate::status::Refusal>,
) -> Option<crate::status::Refusal> {
    if a is Some {
        a
    } else {
        b
    }
}

/// How much of storage a read goes over.
pub enum ReadPlan {
    /// The one key that was asked for.
    Key,
    /// The keys from the one that was asked for up to `end`, and up to the last
    /// key if `end` is empty; at most `limit` of them.
    Span { end: Vec<u8>, limit: usize },
}

/// What is read for a key, a range end and a limit.
pub open spec fn plans(range_end: Seq<u8>, limit: i64, plan: ReadPlan) -> bool {
    if range_end.len() == 0 {
        plan is Key
    } else {
        match plan {
            ReadPlan::Key => false,
            ReadPlan::Span { end, limit: max } => {
                &&& end@ == if crate::auth::role::to_the_end(range_end) {
                    Seq::<u8>::empty()
                } else {
                    range_end
                }
                &&& max == if limit > 0 {
                    limit as usize
                } else {
                    usize::MAX
                }
            },
        }
    }
}

fn plan_read(range_end: &Vec<u8>, limit: i64) -> (r: ReadPlan)
    ensures
        plans(range_end@, limit, r),
{
    if range_end.len() == 0 {
        return ReadPlan::Key;
    }
    let limit: usize = if limit > 0 {
        limit as usize
    } else {
        usize::MAX
    };
    let end: Vec<u8> = if crate::auth::role::is_to_the_end(range_end.as_slice()) {
        Vec::new()
    } else {
        crate::bytes::copy_bytes(range_end.as_slice())
    };
    ReadPlan::Span { end, limit }
}

/// A stored key with its value as clients see it; storage keeps no history.
pub open spec fn stored_kv(entry: Entry) -> proto::KeyValue {
    proto::KeyValue {
        key: entry.key,
        value: entry.value,
        create_revision: 0,
        mod_revision: 0,
        version: 0,
        lease: 0,
    }
}

fn stored_kvs(entries: Vec<Entry>) -> (r: Vec<proto::KeyValue>)
    ensures
        r@ == entries@.map_values(|e: Entry| stored_kv(e)),
{
    let mut out: Vec<proto::KeyValue> = Vec::new();
    for entry in iter: entries
        invariant
            out@.len() == iter.index(),
            forall|j: int| 0 <= j < out@.len() ==> #[trigger] out@[j] == stored_kv(iter.seq()[j]),
    {
        out.push(
            proto::KeyValue {
                key: entry.key,
                value: entry.value,
                create_revision: 0,
                mod_revision: 0,
                version: 0,
                lease: 0,
            },
        );
    }
    assert(out@ =~= entries@.map_values(|e: Entry| stored_kv(e)));
    out
}

/// Whether a read may go on.
pub enum ReadStep {
    /// All that was committed is applied.
    Ready,
    /// The read is given up.
    TimedOut(Status),
    /// The state machine is not there yet.
    Wait,
}

/// How many seconds a read waits for the state machine.
pub const READ_TIMEOUT_SECS: u64 = 5;

/// How many milliseconds pass between two looks at the state machine.
pub const READ_POLL_MILLIS: u64 = 5;

/// Decides whether a linearizable read may go on: the state machine must have
/// applied all up to the commit index, before the deadline.
pub fn linearizable_step(applied_index: u64, commit_index: u64, past_deadline: bool) -> (r: ReadStep)
    ensures
        match r {
            ReadStep::Ready => applied_index >= commit_index,
            ReadStep::TimedOut(status) => applied_index < commit_index && past_deadline
                && status.says(
                (
                    crate::status::Code::DeadlineExceeded,
                    "timed out waiting for state machine to apply"@,
                ),
            ),
            ReadStep::Wait => applied_index < commit_index && !past_deadline,
        },
{
    if applied_index >= commit_index {
        return ReadStep::Ready;
    }
    if past_deadline {
        return ReadStep::TimedOut(
            Status::deadline_exceeded("timed out waiting for state machine to apply"),
        );
    }
    ReadStep::Wait
}

/// What a failed proposal is answered.
pub fn propose_failed(error: &str) -> (r: Status)
    ensures
        r.says((crate::status::Code::Internal, "raft write failed: "@ + error@)),
{
    Status::internal(crate::text::join2("raft write failed: ", error).as_str())
}

/// The key-value service of a node.
pub struct KvService {
    node_id: u64,
}

impl KvService {
    /// The node that the service answers for.
    pub closed spec fn node(&self) -> u64 {
        self.node_id
    }

    /// The header of the answers.
    pub open spec fn header_of(&self) -> ResponseHeader {
        ResponseHeader { cluster_id: 0, member_id: self.node(), revision: 0, raft_term: 0 }
    }

    pub fn new(node_id: u64) -> (r: Self)
        ensures
            r.node() == node_id,
    {
        KvService { node_id }
    }

    fn header(&self) -> (r: ResponseHeader)
        ensures
            r == self.header_of(),
    {
        ResponseHeader { cluster_id: 0, member_id: self.node_id, revision: 0, raft_term: 0 }
    }

    /// Check permission if auth is enabled.
    pub fn check_perm(
        &self,
        auth: &AuthInterceptor,
        username: Option<&str>,
        key: &[u8],
        required: PermissionType,
    ) -> (r: Result<(), Status>)
        requires
            auth.wf(),
        ensures
            crate::status::answers(
                r,
                perm_refusal(auth.enabled(), auth.data(), name_of(username), key@, required),
            ),
    {
        if !auth.is_enabled() {
            return Ok(());
        }
        match username {
            Some(name) => auth.check_permission(name, key, required),
            None => Err(Status::unauthenticated("no user in context")),
        }
    }

    /// Check range permission if auth is enabled.
    pub fn check_range_perm(
        &self,
        auth: &AuthInterceptor,
        username: Option<&str>,
        key: &[u8],
        range_end: &[u8],
        required: PermissionType,
    ) -> (r: Result<(), Status>)
        requires
            auth.wf(),
        ensures
            crate::status::answers(
                r,
                range_perm_refusal(
                    auth.enabled(),
                    auth.data(),
                    name_of(username),
                    key@,
                    range_end@,
                    required,
                ),
            ),
    {
        if !auth.is_enabled() {
            return Ok(());
        }
        match username {
            Some(name) => auth.check_range_permission(name, key, range_end, required),
            None => Err(Status::unauthenticated("no user in context")),
        }
    }

    /// Check if a key is a reserved internal key.
    pub fn is_reserved_key(key: &[u8]) -> (r: bool)
        ensures
            r == reserved(key@),
    {
        is_reserved(key)
    }

    /// What is proposed for a put.
    pub fn put_request(
        &self,
        auth: &AuthInterceptor,
        username: Option<&str>,
        req: proto::PutRequest,
    ) -> (r: Result<raft::RaftRequest, Status>)
        requires
            auth.wf(),
        ensures
            crate::status::answers(
                r,
                first_refusal(
                    perm_refusal(
                        auth.enabled(),
                        auth.data(),
                        name_of(username),
                        req.key@,
                        PermissionType::Write,
                    ),
                    write_key_refusal(req.key@),
                ),
            ),
            r matches Ok(request) ==> request == (raft::RaftRequest::Put {
                key: req.key,
                value: req.value,
                lease_id: req.lease,
            }),
    {
        match self.check_perm(auth, username, req.key.as_slice(), PermissionType::Write) {
            Err(status) => {
                return Err(status);
            },
            Ok(()) => {},
        }
        if req.key.len() == 0 {
            return Err(Status::invalid_argument("key must not be empty"));
        }
        if Self::is_reserved_key(req.key.as_slice()) {
            return Err(Status::permission_denied("keys starting with _aether_ are reserved"));
        }
        Ok(raft::RaftRequest::Put { key: req.key, value: req.value, lease_id: req.lease })
    }

    /// What a put is answered: the previous value if it was asked for.
    pub fn put_response(&self, prev_kv: bool, resp: raft::RaftResponse) -> (r: proto::PutResponse)
        ensures
            r == (proto::PutResponse {
                header: Some(self.header_of()),
                prev_kv: match resp {
                    raft::RaftResponse::Put { prev_kv: found } => if prev_kv {
                        proto_opt_kv(found)
                    } else {
                        None
                    },
                    _ => None,
                },
            }),
    {
        let found = match resp {
            raft::RaftResponse::Put { prev_kv: found } => if prev_kv {
                convert_opt_kv(found)
            } else {
                None
            },
            _ => None,
        };
        proto::PutResponse { header: Some(self.header()), prev_kv: found }
    }

    /// What is read for a get.
    pub fn get_plan(
        &self,
        auth: &AuthInterceptor,
        username: Option<&str>,
        req: &proto::GetRequest,
    ) -> (r: Result<ReadPlan, Status>)
        requires
            auth.wf(),
        ensures
            crate::status::answers(
                r,
                first_refusal(
                    span_refusal(
                        auth.enabled(),
                        auth.data(),
                        name_of(username),
                        req.key@,
                        req.range_end@,
                        PermissionType::Read,
                    ),
                    if req.key@.len() == 0 {
                        Some(empty_key_refusal())
                    } else {
                        None
                    },
                ),
            ),
            r matches Ok(plan) ==> plans(req.range_end@, req.limit, plan),
    {
        let verdict = if req.range_end.len() > 0 {
            self.check_range_perm(
                auth,
                username,
                req.key.as_slice(),
                req.range_end.as_slice(),
                PermissionType::Read,
            )
        } else {
            self.check_perm(auth, username, req.key.as_slice(), PermissionType::Read)
        };
        match verdict {
            Err(status) => {
                return Err(status);
            },
            Ok(()) => {},
        }
        if req.key.len() == 0 {
            return Err(Status::invalid_argument("key must not be empty"));
        }
        Ok(plan_read(&req.range_end, req.limit))
    }

    /// What a get of a single key is answered.
    pub fn get_key_response(&self, key: Vec<u8>, value: Option<Vec<u8>>) -> (r: proto::GetResponse)
        ensures
            r.header == Some(self.header_of()),
            r.kvs@ == single_kv(key, value),
            r.count == r.kvs@.len(),
    {
        let (kvs, count) = single_kvs(key, value);
        proto::GetResponse { header: Some(self.header()), kvs, count }
    }

    /// What a get of a range is answered, given what storage holds there.
    pub fn get_span_response(&self, entries: Vec<Entry>) -> (r: proto::GetResponse)
        ensures
            r.header == Some(self.header_of()),
            r.kvs@ == entries@.map_values(|e: Entry| stored_kv(e)),
            r.count == entries@.len() as i64,
    {
        let kvs = stored_kvs(entries);
        let count: i64 = kvs.len() as i64;
        proto::GetResponse { header: Some(self.header()), kvs, count }
    }

    /// What is proposed for a delete.
    pub fn delete_request(
        &self,
        auth: &AuthInterceptor,
        username: Option<&str>,
        req: proto::DeleteRequest,
    ) -> (r: Result<raft::RaftRequest, Status>)
        requires
            auth.wf(),
        ensures
            crate::status::answers(
                r,
                first_refusal(
                    span_refusal(
                        auth.enabled(),
                        auth.data(),
                        name_of(username),
                        req.key@,
                        req.range_end@,
                        PermissionType::Write,
                    ),
                    write_key_refusal(req.key@),
                ),
            ),
            r matches Ok(request) ==> request == (raft::RaftRequest::Delete {
                key: req.key,
                range_end: req.range_end,
            }),
    {
        let verdict = if req.range_end.len() > 0 {
            self.check_range_perm(
                auth,
                username,
                req.key.as_slice(),
                req.range_end.as_slice(),
                PermissionType::Write,
            )
        } else {
            self.check_perm(auth, username, req.key.as_slice(), PermissionType::Write)
        };
        match verdict {
            Err(status) => {
                return Err(status);
            },
            Ok(()) => {},
        }
        if req.key.len() == 0 {
            return Err(Status::invalid_argument("key must not be empty"));
        }
        if Self::is_reserved_key(req.key.as_slice()) {
            return Err(Status::permission_denied("keys starting with _aether_ are reserved"));
        }
        Ok(raft::RaftRequest::Delete { key: req.key, range_end: req.range_end })
    }

    /// What a delete is answered: how many keys went, and their values if they
    /// were asked for.
    pub fn delete_response(&self, prev_kv: bool, resp: raft::RaftResponse) -> (r:
        proto::DeleteResponse)
        ensures
            r.header == Some(self.header_of()),
            match resp {
                raft::RaftResponse::Delete { deleted, prev_kvs } => r.deleted == deleted
                    && r.prev_kvs@ == if prev_kv {
                    proto_kvs(prev_kvs@)
                } else {
                    Seq::<proto::KeyValue>::empty()
                },
                _ => r.deleted == 0 && r.prev_kvs@ == Seq::<proto::KeyValue>::empty(),
            },
    {
        match resp {
            raft::RaftResponse::Delete { deleted, prev_kvs } => {
                let kvs = if prev_kv {
                    convert_kvs(prev_kvs)
                } else {
                    Vec::new()
                };
                proto::DeleteResponse { header: Some(self.header()), deleted, prev_kvs: kvs }
            },
            _ => proto::DeleteResponse {
                header: Some(self.header()),
                deleted: 0,
                prev_kvs: Vec::new(),
            },
        }
    }

    /// Whether a user may ask for a range, even of a single key.
    pub fn range_check(
        &self,
        auth: &AuthInterceptor,
        username: Option<&str>,
        req: &proto::RangeRequest,
    ) -> (r: Result<(), Status>)
        requires
            auth.wf(),
        ensures
            crate::status::answers(
                r,
                range_perm_refusal(
                    auth.enabled(),
                    auth.data(),
                    name_of(username),
                    req.key@,
                    req.range_end@,
                    PermissionType::Read,
                ),
            ),
    {
        self.check_range_perm(
            auth,
            username,
            req.key.as_slice(),
            req.range_end.as_slice(),
            PermissionType::Read,
        )
    }

    /// What is read for a range, once the state machine has caught up.
    pub fn range_plan(&self, req: &proto::RangeRequest) -> (r: Result<ReadPlan, Status>)
        ensures
            crate::status::answers(
                r,
                if req.key@.len() == 0 {
                    Some(empty_key_refusal())
                } else {
                    None
                },
            ),
            r matches Ok(plan) ==> plans(req.range_end@, req.limit, plan),
    {
        if req.key.len() == 0 {
            return Err(Status::invalid_argument("key must not be empty"));
        }
        Ok(plan_read(&req.range_end, req.limit))
    }

    /// What a range of a single key is answered.
    pub fn range_key_response(&self, key: Vec<u8>, value: Option<Vec<u8>>) -> (r:
        proto::RangeResponse)
        ensures
            r.header == Some(self.header_of()),
            r.kvs@ == single_kv(key, value),
            r.count == r.kvs@.len(),
    {
        let (kvs, count) = single_kvs(key, value);
        proto::RangeResponse { header: Some(self.header()), kvs, count }
    }

    /// What a range is answered, given what storage holds there.
    pub fn range_span_response(&self, entries: Vec<Entry>) -> (r: proto::RangeResponse)
        ensures
            r.header == Some(self.header_of()),
            r.kvs@ == entries@.map_values(|e: Entry| stored_kv(e)),
            r.count == entries@.len() as i64,
    {
        let kvs = stored_kvs(entries);
        let count: i64 = kvs.len() as i64;
        proto::RangeResponse { header: Some(self.header()), kvs, count }
    }

    /// What is proposed for a transaction.
    pub fn txn_request(
        &self,
        auth: &AuthInterceptor,
        username: Option<&str>,
        req: proto::TxnRequest,
    ) -> (r: Result<raft::RaftRequest, Status>)
        requires
            auth.wf(),
        ensures
            crate::status::answers(
                r,
                first_refusal(
                    if !auth.enabled() {
                        None
                    } else {
                        match name_of(username) {
                            Some(name) => txn_refusal(auth.data(), name, req),
                            None => Some(nobody_refusal()),
                        }
                    },
                    if depth_fits(req.success@, 0) && depth_fits(req.failure@, 0) {
                        None
                    } else {
                        Some(depth_refusal())
                    },
                ),
            ),
            r matches Ok(request) ==> match request {
                raft::RaftRequest::Txn { compare, success, failure } => {
                    &&& compare@ == req.compare@.map_values(|c: proto::Compare| raft_compare(c))
                    &&& same_ops(req.success@, success@)
                    &&& same_ops(req.failure@, failure@)
                },
                _ => false,
            },
    {
        if auth.is_enabled() {
            match username {
                Some(name) => match check_txn_ops_permissions(auth, name, &req) {
                    Err(status) => {
                        return Err(status);
                    },
                    Ok(()) => {},
                },
                None => {
                    return Err(Status::unauthenticated("no user in context"));
                },
            }
        }
        let compare = convert_compares(req.compare);
        let success = match convert_request_ops(req.success) {
            Ok(list) => list,
            Err(status) => {
                return Err(status);
            },
        };
        let failure = match convert_request_ops(req.failure) {
            Ok(list) => list,
            Err(status) => {
                return Err(status);
            },
        };
        Ok(raft::RaftRequest::Txn { compare, success, failure })
    }

    /// What a transaction is answered.
    pub fn txn_response(&self, resp: raft::RaftResponse) -> (r: proto::TxnResponse)
        ensures
            r.header == Some(self.header_of()),
            match resp {
                raft::RaftResponse::Txn { succeeded, responses } => r.succeeded == succeeded
                    && same_responses(responses@, r.responses@),
                _ => !r.succeeded && r.responses@.len() == 0,
            },
    {
        match resp {
            raft::RaftResponse::Txn { succeeded, responses } => proto::TxnResponse {
                header: Some(self.header()),
                succeeded,
                responses: convert_response_ops(responses),
            },
            _ => proto::TxnResponse {
                header: Some(self.header()),
                succeeded: false,
                responses: Vec::new(),
            },
        }
    }
}

/// The key with its value if it has one.
pub open spec fn single_kv(key: Vec<u8>, value: Option<Vec<u8>>) -> Seq<proto::KeyValue> {
    match value {
        Some(value) => seq![stored_kv(Entry { key, value })],
        None => Seq::empty(),
    }
}

fn single_kvs(key: Vec<u8>, value: Option<Vec<u8>>) -> (r: (Vec<proto::KeyValue>, i64))
    ensures
        r.0@ == single_kv(key, value),
        r.1 == r.0@.len(),
{
    let mut kvs: Vec<proto::KeyValue> = Vec::new();
    match value {
        Some(value) => {
            kvs.push(
                proto::KeyValue {
                    key,
                    value,
                    create_revision: 0,
                    mod_revision: 0,
                    version: 0,
                    lease: 0,
                },
            );
            assert(kvs@ =~= single_kv(key, Some(value)));
            (kvs, 1)
        },
        None => (kvs, 0),
    }
}

/// No write to a reserved key or to an empty key is proposed, whoever asks.
pub proof fn writes_keep_off_reserved(
    a: Option<crate::status::Refusal>,
    key: Seq<u8>,
)
    ensures
        reserved(key) || key.len() == 0 ==> first_refusal(a, write_key_refusal(key)) is Some,
{
}

/// A scan of storage from a key up to an end finds a key; an empty end is after the
/// last key.
pub open spec fn scan_finds(from: Seq<u8>, end: Seq<u8>) -> spec_fn(Seq<u8>) -> bool {
    |k: Seq<u8>|
        !crate::bytes::lex_lt(k, from) && (end.len() == 0 || crate::bytes::lex_lt(k, end))
}

/// The keys that a read goes over, given all keys that are stored, in order: the one
/// that was asked for, or the first ones that a scan finds.
pub open spec fn goes_over(plan: ReadPlan, key: Seq<u8>, stored: Seq<Seq<u8>>) -> Seq<Seq<u8>> {
    match plan {
        ReadPlan::Key => if stored.contains(key) {
            seq![key]
        } else {
            Seq::empty()
        },
        ReadPlan::Span { end, limit } => {
            let found = stored.filter(scan_finds(key, end@));
            if limit < found.len() {
                found.take(limit as int)
            } else {
                found
            }
        },
    }
}

/// A client who asks for a range means a key: one from the first key on, and before
/// the range end unless that is a single zero byte.
pub open spec fn range_means(first: Seq<u8>, range_end: Seq<u8>) -> spec_fn(Seq<u8>) -> bool {
    |k: Seq<u8>|
        !crate::bytes::lex_lt(k, first) && (range_end == seq![0u8] || crate::bytes::lex_lt(
            k,
            range_end,
        ))
}

/// A read of a range without a positive limit leaves out no stored key of the range
/// and goes over no other; with a positive limit it goes over the first ones, as many
/// as the limit says or as there are. A read of one key goes over that key.
pub proof fn reads_leave_nothing_out(
    key: Seq<u8>,
    range_end: Seq<u8>,
    limit: i64,
    plan: ReadPlan,
    stored: Seq<Seq<u8>>,
)
    requires
        plans(range_end, limit, plan),
        stored.len() <= usize::MAX,
        limit <= usize::MAX,
    ensures
        range_end.len() == 0 && stored.contains(key) ==> goes_over(plan, key, stored) == seq![key],
        range_end.len() == 0 && !stored.contains(key) ==> goes_over(plan, key, stored).len() == 0,
        range_end.len() > 0 ==> ({
            let meant = stored.filter(range_means(key, range_end));
            let got = goes_over(plan, key, stored);
            &&& limit <= 0 || limit >= meant.len() ==> got == meant
            &&& 0 < limit <= meant.len() ==> got == meant.take(limit as int)
        }),
        plan matches ReadPlan::Span { limit: max, .. } ==> max > 0,
{
    if let ReadPlan::Span { end, limit: max } = plan {
        assert(scan_finds(key, end@) =~= range_means(key, range_end));
        let meant = stored.filter(range_means(key, range_end));
        stored.lemma_filter_len(range_means(key, range_end));
        assert(meant.take(meant.len() as int) =~= meant);
    }
}

/// The client is shown the key and the value, both revisions, the version and the
/// lease of what is stored.
pub open spec fn is_shown(kv: raft::KeyValue, shown: proto::KeyValue) -> bool {
    &&& shown.key@ == kv.key@
    &&& shown.value@ == kv.value@
    &&& shown.create_revision == kv.create_revision
    &&& shown.mod_revision == kv.mod_revision
    &&& shown.version == kv.version
    &&& shown.lease == kv.lease
}

/// A key is shown with its own value and history, so two that are shown alike are
/// alike; there is nothing to show if and only if there is nothing.
pub proof fn keys_are_shown_as_they_are(a: raft::KeyValue, b: raft::KeyValue)
    ensures
        is_shown(a, proto_kv(a)),
        proto_kv(a) == proto_kv(b) ==> a == b,
        proto_opt_kv(Some(a)) is Some,
        is_shown(a, proto_opt_kv(Some(a))->Some_0),
        proto_opt_kv(None) is None,
{
}

/// Lists of keys are shown one for one, each as it is.
pub proof fn lists_are_shown_as_they_are(kvs: Seq<raft::KeyValue>, i: int)
    ensures
        proto_kvs(kvs).len() == kvs.len(),
        0 <= i < kvs.len() ==> is_shown(kvs[i], proto_kvs(kvs)[i]),
{
}

/// What an operation gave is shown as what it was: the previous value of a put if
/// there is one, all keys of a read with their count, all deleted keys with their
/// number, and the branch of a nested transaction with what its operations gave, in
/// order.
pub proof fn responses_tell_what_happened(a: raft::ResponseOp, b: proto::ResponseOp, i: int)
    requires
        same_response(a, b),
    ensures
        a.response is None <==> b.response is None,
        a.response matches Some(raft::Response::Put(p)) ==> b.response matches Some(
            proto::Response::Put(q),
        ) && (q.prev_kv is Some <==> p.prev_kv is Some) && (p.prev_kv is Some ==> is_shown(
            p.prev_kv->Some_0,
            q.prev_kv->Some_0,
        )),
        a.response matches Some(raft::Response::Get(p)) ==> b.response matches Some(
            proto::Response::Get(q),
        ) && q.count == p.count && q.kvs@.len() == p.kvs@.len() && (0 <= i < p.kvs@.len()
            ==> is_shown(p.kvs@[i], q.kvs@[i])),
        a.response matches Some(raft::Response::Range(p)) ==> b.response matches Some(
            proto::Response::Range(q),
        ) && q.count == p.count && q.kvs@.len() == p.kvs@.len() && (0 <= i < p.kvs@.len()
            ==> is_shown(p.kvs@[i], q.kvs@[i])),
        a.response matches Some(raft::Response::Delete(p)) ==> b.response matches Some(
            proto::Response::Delete(q),
        ) && q.deleted == p.deleted && q.prev_kvs@.len() == p.prev_kvs@.len() && (0 <= i
            < p.prev_kvs@.len() ==> is_shown(p.prev_kvs@[i], q.prev_kvs@[i])),
        a.response matches Some(raft::Response::Txn(p)) ==> b.response matches Some(
            proto::Response::Txn(q),
        ) && q.succeeded == p.succeeded && same_responses(p.responses@, q.responses@),
{
}

/// What storage holds is shown under its own key with its own value, one for one and
/// in order; a single key is shown if and only if it has a value.
pub proof fn stored_keys_are_shown(entries: Seq<Entry>, i: int, key: Vec<u8>, value: Option<Vec<u8>>)
    ensures
        entries.map_values(|e: Entry| stored_kv(e)).len() == entries.len(),
        0 <= i < entries.len() ==> ({
            let shown = entries.map_values(|e: Entry| stored_kv(e))[i];
            shown.key@ == entries[i].key@ && shown.value@ == entries[i].value@
        }),
        value is Some ==> single_kv(key, value).len() == 1 && single_kv(key, value)[0].key@ == key@
            && single_kv(key, value)[0].value@ == value->Some_0@,
        value is None ==> single_kv(key, value).len() == 0,
{
}

/// Without authentication nobody is refused; with it, somebody unknown is, and a user
/// is refused a key exactly when no role grants it, and a span exactly when no role
/// grants the span.
pub proof fn authentication_decides(
    data: crate::auth::cache::AuthData,
    user: Seq<char>,
    key: Seq<u8>,
    range_end: Seq<u8>,
    required: PermissionType,
)
    ensures
        perm_refusal(false, data, Some(user), key, required) is None,
        perm_refusal(false, data, None, key, required) is None,
        span_refusal(false, data, Some(user), key, range_end, required) is None,
        span_refusal(false, data, None, key, range_end, required) is None,
        range_perm_refusal(false, data, None, key, range_end, required) is None,
        perm_refusal(true, data, None, key, required) matches Some(said) && said.0
            == crate::status::Code::Unauthenticated,
        span_refusal(true, data, None, key, range_end, required) matches Some(said) && said.0
            == crate::status::Code::Unauthenticated,
        range_perm_refusal(true, data, None, key, range_end, required) is Some,
        perm_refusal(true, data, Some(user), key, required) is None
            <==> crate::auth::interceptor::may(data, user, key, required),
        range_perm_refusal(true, data, Some(user), key, range_end, required) is None
            <==> crate::auth::interceptor::may_all(data, user, key, range_end, required),
        range_end.len() == 0 ==> (span_refusal(true, data, Some(user), key, range_end, required)
            is None <==> crate::auth::interceptor::may(data, user, key, required)),
        range_end.len() > 0 ==> (span_refusal(true, data, Some(user), key, range_end, required)
            is None <==> crate::auth::interceptor::may_all(data, user, key, range_end, required)),
{
    crate::auth::interceptor::access_needs_a_grant(data, user, key, range_end, required);
}

/// An operation touches a key: a put writes its key, a delete writes the keys of its
/// range, a get reads its key, a range reads the keys of its range, and a nested
/// transaction reads the keys of its conditions and touches what its operations touch.
pub open spec fn touches(op: proto::RequestOp, k: Seq<u8>, writes: bool) -> bool
    decreases op, 0nat,
{
    match op.request {
        None => false,
        Some(proto::Request::Put(p)) => writes && k == p.key@,
        Some(proto::Request::Delete(d)) => writes && crate::auth::role::in_range(
            d.key@,
            d.range_end@,
            k,
        ),
        Some(proto::Request::Get(g)) => !writes && k == g.key@,
        Some(proto::Request::Range(r)) => !writes && crate::auth::role::in_range(
            r.key@,
            r.range_end@,
            k,
        ),
        Some(proto::Request::Txn(t)) => txn_touches(t, k, writes),
    }
}

/// A transaction touches a key.
pub open spec fn txn_touches(t: proto::TxnRequest, k: Seq<u8>, writes: bool) -> bool
    decreases t, 0nat,
{
    ||| !writes && exists|i: int| 0 <= i < t.compare@.len() && (#[trigger] t.compare@[i]).key@ == k
    ||| exists|i: int| 0 <= i < t.success@.len() && touches(#[trigger] t.success@[i], k, writes)
    ||| exists|i: int| 0 <= i < t.failure@.len() && touches(#[trigger] t.failure@[i], k, writes)
}

/// A user whose transaction is not refused may write every key that the transaction
/// writes, and read every key that it reads, at any depth and in either branch.
pub proof fn allowed_transactions_touch_what_is_granted(
    data: crate::auth::cache::AuthData,
    user: Seq<char>,
    t: proto::TxnRequest,
    k: Seq<u8>,
    writes: bool,
)
    requires
        txn_refusal(data, user, t) is None,
        txn_touches(t, k, writes),
    ensures
        writes ==> crate::auth::interceptor::may(data, user, k, PermissionType::Write),
        !writes ==> crate::auth::interceptor::may(data, user, k, PermissionType::Read),
    decreases t, 0nat,
{
    first_compare_refused(data, user, t.compare@, t.compare@.len());
    first_op_refused(data, user, t.success@, t.success@.len());
    first_op_refused(data, user, t.failure@, t.failure@.len());
    crate::auth::interceptor::access_needs_a_grant(data, user, k, k, PermissionType::Read);
    if exists|i: int| 0 <= i < t.success@.len() && touches(#[trigger] t.success@[i], k, writes) {
        let i = choose|i: int|
            0 <= i < t.success@.len() && touches(#[trigger] t.success@[i], k, writes);
        assert(decreases_to!(t => t.success@[i]));
        allowed_operation_touches_what_is_granted(data, user, t.success@[i], k, writes);
    } else if exists|i: int|
        0 <= i < t.failure@.len() && touches(#[trigger] t.failure@[i], k, writes) {
        let i = choose|i: int|
            0 <= i < t.failure@.len() && touches(#[trigger] t.failure@[i], k, writes);
        assert(decreases_to!(t => t.failure@[i]));
        allowed_operation_touches_what_is_granted(data, user, t.failure@[i], k, writes);
    }
}

proof fn allowed_operation_touches_what_is_granted(
    data: crate::auth::cache::AuthData,
    user: Seq<char>,
    op: proto::RequestOp,
    k: Seq<u8>,
    writes: bool,
)
    requires
        op_refusal(data, user, op) is None,
        touches(op, k, writes),
    ensures
        writes ==> crate::auth::interceptor::may(data, user, k, PermissionType::Write),
        !writes ==> crate::auth::interceptor::may(data, user, k, PermissionType::Read),
    decreases op, 0nat,
{
    crate::auth::interceptor::access_needs_a_grant(data, user, k, k, PermissionType::Read);
    crate::auth::interceptor::access_needs_a_grant(data, user, k, k, PermissionType::Write);
    match op.request {
        Some(proto::Request::Delete(d)) => {
            if d.range_end@.len() > 0 {
                crate::auth::interceptor::range_access_covers_keys(
                    data,
                    user,
                    d.key@,
                    d.range_end@,
                    PermissionType::Write,
                    k,
                );
            }
        },
        Some(proto::Request::Range(r)) => {
            crate::auth::interceptor::range_access_covers_keys(
                data,
                user,
                r.key@,
                r.range_end@,
                PermissionType::Read,
                k,
            );
        },
        Some(proto::Request::Txn(t)) => {
            allowed_transactions_touch_what_is_granted(data, user, t, k, writes);
        },
        _ => {},
    }
}

/// A put or a delete of a transaction, at any depth, begins at a reserved key.
pub open spec fn op_writes_reserved(op: proto::RequestOp) -> bool
    decreases op, 0nat,
{
    match op.request {
        Some(proto::Request::Put(p)) => crate::names::reserved_prefix().is_prefix_of(p.key@),
        Some(proto::Request::Delete(d)) => crate::names::reserved_prefix().is_prefix_of(d.key@),
        Some(proto::Request::Txn(t)) => txn_writes_reserved(t),
        _ => false,
    }
}

/// A put or a delete of a transaction, at any depth, begins at a reserved key.
pub open spec fn txn_writes_reserved(t: proto::TxnRequest) -> bool
    decreases t, 0nat,
{
    ||| exists|i: int| 0 <= i < t.success@.len() && op_writes_reserved(#[trigger] t.success@[i])
    ||| exists|i: int| 0 <= i < t.failure@.len() && op_writes_reserved(#[trigger] t.failure@[i])
}

/// A user may read and write every key.
pub open spec fn may_do_all(data: crate::auth::cache::AuthData, user: Seq<char>) -> bool {
    &&& forall|k: Seq<u8>, required: PermissionType| #[trigger]
        crate::auth::interceptor::may(data, user, k, required)
    &&& forall|k: Seq<u8>, end: Seq<u8>, required: PermissionType| #[trigger]
        crate::auth::interceptor::may_all(data, user, k, end, required)
}

/// A user who may read and write every key, as root may, is refused a transaction
/// exactly when it writes a reserved key.
pub proof fn only_reserved_keys_stop_the_mighty(
    data: crate::auth::cache::AuthData,
    user: Seq<char>,
    t: proto::TxnRequest,
)
    requires
        may_do_all(data, user),
    ensures
        txn_refusal(data, user, t) is Some <==> txn_writes_reserved(t),
    decreases t, 0nat,
{
    first_compare_refused(data, user, t.compare@, t.compare@.len());
    first_op_refused(data, user, t.success@, t.success@.len());
    first_op_refused(data, user, t.failure@, t.failure@.len());
    assert forall|i: int| 0 <= i < t.compare@.len() implies crate::auth::interceptor::key_refusal(
        data,
        user,
        (#[trigger] t.compare@[i]).key@,
        PermissionType::Read,
    ) is None by {
        let k = t.compare@[i].key@;
        crate::auth::interceptor::access_needs_a_grant(data, user, k, k, PermissionType::Read);
        assert(crate::auth::interceptor::may(data, user, k, PermissionType::Read));
    }
    assert forall|i: int| 0 <= i < t.success@.len() implies (op_refusal(
        data,
        user,
        #[trigger] t.success@[i],
    ) is Some <==> op_writes_reserved(t.success@[i])) by {
        assert(decreases_to!(t => t.success@[i]));
        only_reserved_keys_stop_an_operation(data, user, t.success@[i]);
    }
    assert forall|i: int| 0 <= i < t.failure@.len() implies (op_refusal(
        data,
        user,
        #[trigger] t.failure@[i],
    ) is Some <==> op_writes_reserved(t.failure@[i])) by {
        assert(decreases_to!(t => t.failure@[i]));
        only_reserved_keys_stop_an_operation(data, user, t.failure@[i]);
    }
}

proof fn only_reserved_keys_stop_an_operation(
    data: crate::auth::cache::AuthData,
    user: Seq<char>,
    op: proto::RequestOp,
)
    requires
        may_do_all(data, user),
    ensures
        op_refusal(data, user, op) is Some <==> op_writes_reserved(op),
    decreases op, 0nat,
{
    let (key, end, required) = match op.request {
        Some(proto::Request::Put(p)) => (p.key@, p.key@, PermissionType::Write),
        Some(proto::Request::Delete(d)) => (d.key@, d.range_end@, PermissionType::Write),
        Some(proto::Request::Get(g)) => (g.key@, g.key@, PermissionType::Read),
        Some(proto::Request::Range(r)) => (r.key@, r.range_end@, PermissionType::Read),
        _ => (Seq::empty(), Seq::empty(), PermissionType::Read),
    };
    crate::auth::interceptor::access_needs_a_grant(data, user, key, end, required);
    assert(crate::auth::interceptor::may(data, user, key, required));
    assert(crate::auth::interceptor::may_all(data, user, key, end, required));
    if let Some(proto::Request::Txn(t)) = op.request {
        only_reserved_keys_stop_the_mighty(data, user, t);
    }
}

/// Every answer is headed with the node that gives it, and with no cluster, no
/// revision and no term.
pub proof fn answers_name_the_node(service: KvService)
    ensures
        service.header_of().member_id == service.node(),
        service.header_of().cluster_id == 0,
        service.header_of().revision == 0,
        service.header_of().raft_term == 0,
{
}

/// Of two refusals the first one counts, and without either there is none.
pub proof fn first_refusal_counts(
    a: Option<crate::status::Refusal>,
    b: Option<crate::status::Refusal>,
)
    ensures
        first_refusal(a, b) is None <==> a is None && b is None,
        a is Some ==> first_refusal(a, b) == a,
        a is None ==> first_refusal(a, b) == b,
{
}

/// An operation is let through if and only if it keeps off reserved keys and the
/// user may do it: write what it puts and deletes, read what it gets. A nested
/// transaction is, if and only if all its parts are.
pub proof fn operations_need_their_grant(
    data: crate::auth::cache::AuthData,
    user: Seq<char>,
    op: proto::RequestOp,
)
    ensures
        op.request is None ==> op_refusal(data, user, op) is None,
        op.request matches Some(proto::Request::Put(p)) ==> (op_refusal(data, user, op) is None
            <==> !crate::names::begins_reserved(p.key@) && crate::auth::interceptor::may(
            data,
            user,
            p.key@,
            PermissionType::Write,
        )),
        op.request matches Some(proto::Request::Delete(d)) ==> {
            &&& d.range_end@.len() == 0 ==> (op_refusal(data, user, op) is None
                <==> !crate::names::begins_reserved(d.key@) && crate::auth::interceptor::may(
                data,
                user,
                d.key@,
                PermissionType::Write,
            ))
            &&& d.range_end@.len() > 0 ==> (op_refusal(data, user, op) is None
                <==> !crate::names::begins_reserved(d.key@) && crate::auth::interceptor::may_all(
                data,
                user,
                d.key@,
                d.range_end@,
                PermissionType::Write,
            ))
        },
        op.request matches Some(proto::Request::Get(g)) ==> (op_refusal(data, user, op) is None
            <==> crate::auth::interceptor::may(data, user, g.key@, PermissionType::Read)),
        op.request matches Some(proto::Request::Range(r)) ==> (op_refusal(data, user, op) is None
            <==> crate::auth::interceptor::may_all(
            data,
            user,
            r.key@,
            r.range_end@,
            PermissionType::Read,
        )),
        op.request matches Some(proto::Request::Txn(t)) ==> op_refusal(data, user, op)
            == txn_refusal(data, user, t),
{
    match op.request {
        Some(proto::Request::Put(p)) => {
            reserved_keys_begin_so(p.key@);
            crate::auth::interceptor::access_needs_a_grant(
                data,
                user,
                p.key@,
                p.key@,
                PermissionType::Write,
            );
        },
        Some(proto::Request::Delete(d)) => {
            reserved_keys_begin_so(d.key@);
            crate::auth::interceptor::access_needs_a_grant(
                data,
                user,
                d.key@,
                d.range_end@,
                PermissionType::Write,
            );
        },
        Some(proto::Request::Get(g)) => {
            crate::auth::interceptor::access_needs_a_grant(
                data,
                user,
                g.key@,
                g.key@,
                PermissionType::Read,
            );
        },
        Some(proto::Request::Range(r)) => {
            crate::auth::interceptor::access_needs_a_grant(
                data,
                user,
                r.key@,
                r.range_end@,
                PermissionType::Read,
            );
        },
        _ => {},
    }
}

/// A transaction is let through if and only if the user may read the keys of all
/// its conditions and all operations of both its branches are let through.
pub proof fn transactions_need_all_their_grants(
    data: crate::auth::cache::AuthData,
    user: Seq<char>,
    t: proto::TxnRequest,
)
    ensures
        txn_refusal(data, user, t) is None <==> {
            &&& forall|i: int|
                0 <= i < t.compare@.len() ==> crate::auth::interceptor::may(
                    data,
                    user,
                    (#[trigger] t.compare@[i]).key@,
                    PermissionType::Read,
                )
            &&& forall|i: int|
                0 <= i < t.success@.len() ==> op_refusal(data, user, #[trigger] t.success@[i])
                    is None
            &&& forall|i: int|
                0 <= i < t.failure@.len() ==> op_refusal(data, user, #[trigger] t.failure@[i])
                    is None
        },
{
    all_compares_pass(data, user, t.compare@, t.compare@.len());
    all_ops_pass(data, user, t.success@, t.success@.len());
    all_ops_pass(data, user, t.failure@, t.failure@.len());
    assert forall|i: int| 0 <= i < t.compare@.len() implies (crate::auth::interceptor::key_refusal(
        data,
        user,
        (#[trigger] t.compare@[i]).key@,
        PermissionType::Read,
    ) is None <==> crate::auth::interceptor::may(
        data,
        user,
        t.compare@[i].key@,
        PermissionType::Read,
    )) by {
        crate::auth::interceptor::access_needs_a_grant(
            data,
            user,
            t.compare@[i].key@,
            t.compare@[i].key@,
            PermissionType::Read,
        );
    }
}

proof fn all_compares_pass(
    data: crate::auth::cache::AuthData,
    user: Seq<char>,
    compare: Seq<proto::Compare>,
    n: nat,
)
    requires
        n <= compare.len(),
    ensures
        compares_refusal(data, user, compare, n) is None <==> forall|i: int|
            0 <= i < n ==> crate::auth::interceptor::key_refusal(
                data,
                user,
                (#[trigger] compare[i]).key@,
                PermissionType::Read,
            ) is None,
    decreases n,
{
    if n > 0 {
        all_compares_pass(data, user, compare, (n - 1) as nat);
    }
}

proof fn all_ops_pass(
    data: crate::auth::cache::AuthData,
    user: Seq<char>,
    ops: Seq<proto::RequestOp>,
    n: nat,
)
    requires
        n <= ops.len(),
    ensures
        ops_refusal(data, user, ops, n) is None <==> forall|i: int|
            0 <= i < n ==> op_refusal(data, user, #[trigger] ops[i]) is None,
    decreases n,
{
    if n > 0 {
        all_ops_pass(data, user, ops, (n - 1) as nat);
    }
}

/// A key is reserved if and only if it begins with the eight reserved characters.
pub proof fn reserved_keys_begin_so(key: Seq<u8>)
    ensures
        reserved(key) <==> crate::names::begins_reserved(key),
{
    reveal_strlit("_aether_");
    let p = crate::names::reserved_prefix();
    if crate::names::begins_reserved(key) {
        assert(key.subrange(0, 8) =~= p);
    }
    if p.is_prefix_of(key) {
        assert(key.subrange(0, 8) == p);
        assert(forall|i: int| 0 <= i < 8 ==> key[i] == key.subrange(0, 8)[i]);
    }
}

/// A key may be written if and only if it is not empty and not reserved; what is
/// reserved is denied, and an empty key is an invalid argument.
pub proof fn writable_keys(key: Seq<u8>)
    ensures
        write_key_refusal(key) is None <==> key.len() > 0 && !crate::names::begins_reserved(key),
        (write_key_refusal(key) matches Some(said) && said.0 is PermissionDenied)
            <==> crate::names::begins_reserved(key),
        (write_key_refusal(key) matches Some(said) && said.0 is InvalidArgument) <==> key.len()
            == 0,
        empty_key_refusal().0 is InvalidArgument,
        reserved_refusal().0 is PermissionDenied,
        nobody_refusal().0 is Unauthenticated,
        depth_refusal().0 is InvalidArgument,
{
    reserved_keys_begin_so(key);
}

/// Transactions may be nested in a transaction, but no others in them.
pub proof fn transactions_nest_once(ops: Seq<proto::RequestOp>)
    ensures
        depth_fits(ops, 0) <==> forall|i: int, t: proto::TxnRequest, j: int|
            #![trigger ops[i].request, t.success@[j]]
            #![trigger ops[i].request, t.failure@[j]]
            0 <= i < ops.len() && ops[i].request == Some(proto::Request::Txn(t)) ==> {
                &&& 0 <= j < t.success@.len() ==> !nests(t.success@[j])
                &&& 0 <= j < t.failure@.len() ==> !nests(t.failure@[j])
            },
{
    reveal_with_fuel(depth_fits, 3);
    if depth_fits(ops, 0) {
        assert forall|i: int, t: proto::TxnRequest, j: int|
            #![trigger ops[i].request, t.success@[j]]
            #![trigger ops[i].request, t.failure@[j]]
            0 <= i < ops.len() && ops[i].request == Some(proto::Request::Txn(t)) implies {
            &&& 0 <= j < t.success@.len() ==> !nests(t.success@[j])
            &&& 0 <= j < t.failure@.len() ==> !nests(t.failure@[j])
        } by {
            let op = ops[i];
            assert(depth_fits(t.success@, 1));
            assert(depth_fits(t.failure@, 1));
        }
    } else {
        let i = choose|i: int|
            0 <= i < ops.len() && !match (#[trigger] ops[i]).request {
                Some(proto::Request::Txn(t)) => depth_fits(t.success@, 1) && depth_fits(
                    t.failure@,
                    1,
                ),
                _ => true,
            };
        let t = ops[i].request->Some_0->Txn_0;
        if !depth_fits(t.success@, 1) {
            let j = choose|j: int| 0 <= j < t.success@.len() && nests(#[trigger] t.success@[j]);
            assert(nests(t.success@[j]));
        } else {
            let j = choose|j: int| 0 <= j < t.failure@.len() && nests(#[trigger] t.failure@[j]);
            assert(nests(t.failure@[j]));
        }
    }
}

/// An operation is a transaction.
pub open spec fn nests(op: proto::RequestOp) -> bool {
    op.request matches Some(proto::Request::Txn(_))
}

/// Storage holds no revisions, versions or leases: keys that are read from it are
/// shown without any.
pub proof fn stored_keys_have_no_revisions(entry: Entry)
    ensures
        stored_kv(entry).create_revision == 0,
        stored_kv(entry).mod_revision == 0,
        stored_kv(entry).version == 0,
        stored_kv(entry).lease == 0,
{
}

} // verus!
