//! What transactions mean: conditions, branches and operations, for whatever state
//! they are carried out on.

use vstd::prelude::*;

use crate::proto;
use crate::raft;

verus! {

/// How one byte string stands to another: -1 if it is before the other, 0 if it is
/// the same, 1 if it is after it.
pub open spec fn standing(a: Seq<u8>, b: Seq<u8>) -> int {
    if a == b {
        0
    } else if crate::bytes::lex_lt(a, b) {
        -1
    } else {
        1
    }
}

/// A condition that a client asks for holds of a stored key. A condition that names
/// nothing to compare with means version 0, and one that names something of another
/// sort than it looks at holds of no key.
pub open spec fn asked_holds(c: proto::Compare, kv: raft::KeyValue) -> bool {
    let stands = match (c.target, c.target_union) {
        (proto::CompareTarget::Version, None) => Some(kv.version as int),
        (proto::CompareTarget::Version, Some(proto::TargetUnion::Version(v))) => Some(
            kv.version - v,
        ),
        (proto::CompareTarget::Create, Some(proto::TargetUnion::CreateRevision(v))) => Some(
            kv.create_revision - v,
        ),
        (proto::CompareTarget::Mod, Some(proto::TargetUnion::ModRevision(v))) => Some(
            kv.mod_revision - v,
        ),
        (proto::CompareTarget::Value, Some(proto::TargetUnion::Value(v))) => Some(
            standing(kv.value@, v@),
        ),
        (proto::CompareTarget::Lease, Some(proto::TargetUnion::Lease(v))) => Some(kv.lease - v),
        _ => None,
    };
    match (c.result, stands) {
        (proto::CompareResult::Equal, Some(s)) => s == 0,
        (proto::CompareResult::NotEqual, Some(s)) => s != 0,
        (proto::CompareResult::Less, Some(s)) => s < 0,
        (proto::CompareResult::Greater, Some(s)) => s > 0,
        (_, None) => false,
    }
}

/// A condition that is proposed holds of a stored key. One that names something of
/// another sort than it looks at holds of no key.
pub open spec fn proposed_holds(c: raft::Compare, kv: raft::KeyValue) -> bool {
    let stands = match (c.target, c.target_union) {
        (raft::CompareTarget::Version, raft::TargetUnion::Version(v)) => Some(kv.version - v),
        (raft::CompareTarget::Create, raft::TargetUnion::CreateRevision(v)) => Some(
            kv.create_revision - v,
        ),
        (raft::CompareTarget::Mod, raft::TargetUnion::ModRevision(v)) => Some(kv.mod_revision - v),
        (raft::CompareTarget::Value, raft::TargetUnion::Value(v)) => Some(
            standing(kv.value@, v@),
        ),
        (raft::CompareTarget::Lease, raft::TargetUnion::Lease(v)) => Some(kv.lease - v),
        _ => None,
    };
    match (c.result, stands) {
        (raft::CompareResult::Equal, Some(s)) => s == 0,
        (raft::CompareResult::NotEqual, Some(s)) => s != 0,
        (raft::CompareResult::Less, Some(s)) => s < 0,
        (raft::CompareResult::Greater, Some(s)) => s > 0,
        (_, None) => false,
    }
}

/// A condition that is proposed for a transaction is about the key that the client
/// named, and holds of a stored key if and only if the one that the client asked for
/// does.
pub proof fn conditions_keep_their_meaning(c: proto::Compare, kv: raft::KeyValue)
    ensures
        super::kv::raft_compare(c).key@ == c.key@,
        proposed_holds(super::kv::raft_compare(c), kv) <==> asked_holds(c, kv),
{
}

/// Every way to compare keeps its name, every part of a key that is looked at keeps
/// its own, and so does what it is compared with. So two conditions of clients that
/// are proposed as the same are the same, unless one of them names nothing to compare
/// with.
pub proof fn conditions_stay_distinct(a: proto::Compare, b: proto::Compare)
    ensures
        super::kv::raft_compare(a).result is Equal <==> a.result is Equal,
        super::kv::raft_compare(a).result is NotEqual <==> a.result is NotEqual,
        super::kv::raft_compare(a).result is Less <==> a.result is Less,
        super::kv::raft_compare(a).result is Greater <==> a.result is Greater,
        super::kv::raft_compare(a).target is Version <==> a.target is Version,
        super::kv::raft_compare(a).target is Create <==> a.target is Create,
        super::kv::raft_compare(a).target is Mod <==> a.target is Mod,
        super::kv::raft_compare(a).target is Value <==> a.target is Value,
        super::kv::raft_compare(a).target is Lease <==> a.target is Lease,
        super::kv::raft_compare(a) == super::kv::raft_compare(b) && a.target_union is Some
            && b.target_union is Some ==> a == b,
{
}

/// What carries operations out on a state. A state may also keep what operations
/// gave, so nothing that an operation says is without effect on every state.
#[verifier::reject_recursive_types(S)]
pub struct Machine<S> {
    /// What is stored under a key.
    pub look: spec_fn(S, Seq<u8>) -> raft::KeyValue,
    /// Puts a value under a key, on a lease; the previous value is asked for or not.
    pub put: spec_fn(S, Seq<u8>, Seq<u8>, i64, bool) -> S,
    /// Deletes the keys of a range; the previous values are asked for or not.
    pub delete: spec_fn(S, Seq<u8>, Seq<u8>, bool) -> S,
    /// Gets the keys of a range, at most so many, at a revision.
    pub get: spec_fn(S, Seq<u8>, Seq<u8>, i64, i64) -> S,
    /// Reads the keys of a range, at most so many, at a revision.
    pub range: spec_fn(S, Seq<u8>, Seq<u8>, i64, i64) -> S,
    /// Takes note that a nested transaction took its success branch or not.
    pub branch: spec_fn(S, bool) -> S,
}

/// The state after an operation that a client asks for.
pub open spec fn asked_op<S>(m: Machine<S>, op: proto::RequestOp, s: S) -> S
    decreases op, 0nat,
{
    match op.request {
        None => s,
        Some(proto::Request::Put(p)) => (m.put)(s, p.key@, p.value@, p.lease, p.prev_kv),
        Some(proto::Request::Get(g)) => (m.get)(s, g.key@, g.range_end@, g.limit, g.revision),
        Some(proto::Request::Delete(d)) => (m.delete)(s, d.key@, d.range_end@, d.prev_kv),
        Some(proto::Request::Range(r)) => (m.range)(s, r.key@, r.range_end@, r.limit, r.revision),
        Some(proto::Request::Txn(t)) => asked_txn(m, t, s),
    }
}

/// The state after the first `n` operations that a client asks for, in order.
pub open spec fn asked_ops<S>(m: Machine<S>, ops: Seq<proto::RequestOp>, n: nat, s: S) -> S
    decreases ops, n,
{
    if n == 0 || n > ops.len() {
        s
    } else {
        asked_op(m, ops[n - 1], asked_ops(m, ops, (n - 1) as nat, s))
    }
}

/// All conditions that a client asks for hold in a state.
pub open spec fn all_asked_hold<S>(m: Machine<S>, compare: Seq<proto::Compare>, s: S) -> bool {
    forall|i: int|
        0 <= i < compare.len() ==> asked_holds(
            #[trigger] compare[i],
            (m.look)(s, compare[i].key@),
        )
}

/// The state after a transaction that a client asks for: one of its branches is
/// carried out, the success branch if and only if all conditions hold.
pub open spec fn asked_txn<S>(m: Machine<S>, t: proto::TxnRequest, s: S) -> S
    decreases t, 0nat,
{
    let succeeds = all_asked_hold(m, t.compare@, s);
    let noted = (m.branch)(s, succeeds);
    if succeeds {
        asked_ops(m, t.success@, t.success@.len(), noted)
    } else {
        asked_ops(m, t.failure@, t.failure@.len(), noted)
    }
}

/// The state after an operation that is proposed.
pub open spec fn proposed_op<S>(m: Machine<S>, op: raft::RequestOp, s: S) -> S
    decreases op, 0nat,
{
    match op.request {
        None => s,
        Some(raft::Request::Put(p)) => (m.put)(s, p.key@, p.value@, p.lease, p.prev_kv),
        Some(raft::Request::Get(g)) => (m.get)(s, g.key@, g.range_end@, g.limit, g.revision),
        Some(raft::Request::Delete(d)) => (m.delete)(s, d.key@, d.range_end@, d.prev_kv),
        Some(raft::Request::Range(r)) => (m.range)(s, r.key@, r.range_end@, r.limit, r.revision),
        Some(raft::Request::Txn(t)) => proposed_txn(m, *t, s),
    }
}

/// The state after the first `n` operations that are proposed, in order.
pub open spec fn proposed_ops<S>(m: Machine<S>, ops: Seq<raft::RequestOp>, n: nat, s: S) -> S
    decreases ops, n,
{
    if n == 0 || n > ops.len() {
        s
    } else {
        proposed_op(m, ops[n - 1], proposed_ops(m, ops, (n - 1) as nat, s))
    }
}

/// All conditions that are proposed hold in a state.
pub open spec fn all_proposed_hold<S>(m: Machine<S>, compare: Seq<raft::Compare>, s: S) -> bool {
    forall|i: int|
        0 <= i < compare.len() ==> proposed_holds(
            #[trigger] compare[i],
            (m.look)(s, compare[i].key@),
        )
}

/// The state after a transaction that is proposed.
pub open spec fn proposed_txn<S>(m: Machine<S>, t: raft::TxnRequest, s: S) -> S
    decreases t, 0nat,
{
    let succeeds = all_proposed_hold(m, t.compare@, s);
    let noted = (m.branch)(s, succeeds);
    if succeeds {
        proposed_ops(m, t.success@, t.success@.len(), noted)
    } else {
        proposed_ops(m, t.failure@, t.failure@.len(), noted)
    }
}

/// The conditions that are proposed hold in a state if and only if those that the
/// client asked for do.
pub proof fn proposed_conditions_hold_as_asked<S>(
    m: Machine<S>,
    asked: Seq<proto::Compare>,
    proposed: Seq<raft::Compare>,
    s: S,
)
    requires
        proposed == asked.map_values(|c: proto::Compare| super::kv::raft_compare(c)),
    ensures
        all_proposed_hold(m, proposed, s) <==> all_asked_hold(m, asked, s),
{
    assert forall|i: int| 0 <= i < asked.len() implies (proposed_holds(
        #[trigger] proposed[i],
        (m.look)(s, proposed[i].key@),
    ) <==> asked_holds(asked[i], (m.look)(s, asked[i].key@))) by {
        conditions_keep_their_meaning(asked[i], (m.look)(s, asked[i].key@));
    }
    if all_proposed_hold(m, proposed, s) {
        assert forall|i: int| 0 <= i < asked.len() implies asked_holds(
            #[trigger] asked[i],
            (m.look)(s, asked[i].key@),
        ) by {
            assert(proposed_holds(proposed[i], (m.look)(s, proposed[i].key@)));
        }
    }
    if all_asked_hold(m, asked, s) {
        assert forall|i: int| 0 <= i < proposed.len() implies proposed_holds(
            #[trigger] proposed[i],
            (m.look)(s, proposed[i].key@),
        ) by {
            assert(asked_holds(asked[i], (m.look)(s, asked[i].key@)));
        }
    }
}

/// An operation that is proposed does to every state what the one that the client
/// asked for does, nested transactions included.
pub proof fn operations_do_what_was_asked<S>(
    m: Machine<S>,
    asked: proto::RequestOp,
    proposed: raft::RequestOp,
    s: S,
)
    requires
        super::kv::same_op(asked, proposed),
    ensures
        proposed_op(m, proposed, s) == asked_op(m, asked, s),
    decreases asked, 0nat,
{
    if let Some(proto::Request::Txn(t)) = asked.request {
        let u = proposed.request->Some_0->Txn_0;
        transaction_does_what_was_asked(m, t, *u, s);
    }
}

/// Operations that are proposed, carried out in order, do to every state what those
/// that the client asked for do.
pub proof fn branches_do_what_was_asked<S>(
    m: Machine<S>,
    asked: Seq<proto::RequestOp>,
    proposed: Seq<raft::RequestOp>,
    n: nat,
    s: S,
)
    requires
        super::kv::same_ops(asked, proposed),
        n <= asked.len(),
    ensures
        proposed_ops(m, proposed, n, s) == asked_ops(m, asked, n, s),
    decreases asked, n,
{
    if n > 0 {
        branches_do_what_was_asked(m, asked, proposed, (n - 1) as nat, s);
        let before = asked_ops(m, asked, (n - 1) as nat, s);
        assert(super::kv::same_op(asked[n - 1], proposed[n - 1]));
        assert(decreases_to!(asked => asked[n - 1]));
        operations_do_what_was_asked(m, asked[n - 1], proposed[n - 1], before);
    }
}

/// A transaction that is proposed does to every state what the one that the client
/// asked for does: the success branch is carried out exactly when the conditions of
/// the client hold, and each branch is the client's.
pub proof fn transaction_does_what_was_asked<S>(
    m: Machine<S>,
    asked: proto::TxnRequest,
    proposed: raft::TxnRequest,
    s: S,
)
    requires
        super::kv::same_txn(asked, proposed),
    ensures
        proposed_txn(m, proposed, s) == asked_txn(m, asked, s),
    decreases asked, 0nat,
{
    proposed_conditions_hold_as_asked(m, asked.compare@, proposed.compare@, s);
    let noted = (m.branch)(s, all_asked_hold(m, asked.compare@, s));
    branches_do_what_was_asked(
        m,
        asked.success@,
        proposed.success@,
        asked.success@.len(),
        noted,
    );
    branches_do_what_was_asked(
        m,
        asked.failure@,
        proposed.failure@,
        asked.failure@.len(),
        noted,
    );
}

} // verus!
