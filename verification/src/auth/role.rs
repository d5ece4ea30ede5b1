//! Roles: permissions on keys and key ranges.

use vstd::prelude::*;

use crate::bytes::{bytes_eq, bytes_le, bytes_lt, copy_bytes};
use crate::raft::{Compare, Request, RequestOp, TxnRequest};
use crate::sorted::SortedSet;

verus! {

/// Permission type
#[derive(Debug, Clone, Copy, PartialEq, Eq, Structural)]
pub enum PermissionType {
    Read,
    Write,
    Readwrite,
}

impl PermissionType {
    /// What a permission of this type allows.
    pub open spec fn allows(self, required: PermissionType) -> bool {
        self == PermissionType::Readwrite || self == required
    }

    /// Check if this permission type includes the required type
    pub fn includes(self, required: PermissionType) -> (r: bool)
        ensures
            r == self.allows(required),
    {
        match self {
            PermissionType::Readwrite => true,
            PermissionType::Read => required == PermissionType::Read,
            PermissionType::Write => required == PermissionType::Write,
        }
    }
}

/// A permission granting access to a key range
#[derive(Debug, Clone)]
pub struct Permission {
    pub perm_type: PermissionType,
    pub key: Vec<u8>,
    pub range_end: Vec<u8>,
}

/// What a permission grants.
pub struct Grant {
    pub perm_type: PermissionType,
    pub key: Seq<u8>,
    pub range_end: Seq<u8>,
}

impl View for Permission {
    type V = Grant;

    open spec fn view(&self) -> Grant {
        Grant { perm_type: self.perm_type, key: self.key@, range_end: self.range_end@ }
    }
}

/// The range end that stands for the end of the keyspace: one zero byte.
pub open spec fn to_the_end(range_end: Seq<u8>) -> bool {
    range_end == seq![0u8]
}

/// A key lies in a range: without an end the range is its first key alone, and a
/// single zero byte means that it has no last key.
pub open spec fn in_range(first: Seq<u8>, range_end: Seq<u8>, key: Seq<u8>) -> bool {
    if range_end.len() == 0 {
        key == first
    } else if to_the_end(range_end) {
        crate::bytes::lex_le(first, key)
    } else {
        crate::bytes::lex_le(first, key) && crate::bytes::lex_lt(key, range_end)
    }
}

impl Grant {
    /// The grant covers a single key.
    pub open spec fn covers_key(self, key: Seq<u8>, required: PermissionType) -> bool {
        self.perm_type.allows(required) && in_range(self.key, self.range_end, key)
    }

    /// The grant covers a range. A grant for a single key covers no range.
    pub open spec fn covers_range(
        self,
        key: Seq<u8>,
        range_end: Seq<u8>,
        required: PermissionType,
    ) -> bool {
        &&& self.perm_type.allows(required)
        &&& crate::bytes::lex_le(self.key, key)
        &&& self.range_end.len() > 0
        &&& (to_the_end(self.range_end) || if range_end.len() == 0 {
            crate::bytes::lex_lt(key, self.range_end)
        } else {
            !to_the_end(range_end) && crate::bytes::lex_le(range_end, self.range_end)
        })
    }

    /// A grant that covers a range covers every key in it.
    pub proof fn range_covers_keys(
        self,
        key: Seq<u8>,
        range_end: Seq<u8>,
        required: PermissionType,
        k: Seq<u8>,
    )
        requires
            self.covers_range(key, range_end, required),
            in_range(key, range_end, k),
        ensures
            self.covers_key(k, required),
    {
        if key != k && self.key != key {
            crate::bytes::lex_transitive(self.key, key, k);
        }
        if !to_the_end(self.range_end) && range_end.len() > 0 && range_end != self.range_end {
            crate::bytes::lex_transitive(k, range_end, self.range_end);
        }
    }
}

impl Grant {
    /// A grant for a range that covers every key of a range covers the range, if
    /// there is a key in it.
    pub proof fn keys_cover_range(self, key: Seq<u8>, range_end: Seq<u8>, required: PermissionType)
        requires
            self.range_end.len() > 0,
            in_range(key, range_end, key),
            forall|k: Seq<u8>| #[trigger]
                in_range(key, range_end, k) ==> self.covers_key(k, required),
        ensures
            self.covers_range(key, range_end, required),
    {
        let end = self.range_end;
        assert(self.covers_key(key, required));
        if !self.covers_range(key, range_end, required) {
            crate::bytes::lex_irreflexive(end);
            crate::bytes::lex_total(end, range_end);
            crate::bytes::lex_total(key, end);
            // The end of the grant is a key of the range that the grant leaves out.
            assert(in_range(key, range_end, end));
            assert(self.covers_key(end, required));
        }
    }
}

/// The range end is a single zero byte.
pub fn is_to_the_end(range_end: &[u8]) -> (r: bool)
    ensures
        r == to_the_end(range_end@),
{
    let r = range_end.len() == 1 && range_end[0] == 0;
    assert(r ==> range_end@ =~= seq![0u8]);
    r
}

impl Permission {
    /// Check if this permission covers the given single key with the required type
    pub fn covers_key(&self, key: &[u8], required: PermissionType) -> (r: bool)
        ensures
            r == self@.covers_key(key@, required),
    {
        proof {
            crate::bytes::lex_irreflexive(key@);
        }
        if !self.perm_type.includes(required) {
            return false;
        }
        if self.range_end.len() == 0 {
            // Single key match
            return bytes_eq(key, self.key.as_slice());
        }
        if !bytes_le(self.key.as_slice(), key) {
            return false;
        }
        if is_to_the_end(self.range_end.as_slice()) {
            // All keys from self.key to end of keyspace
            true
        } else {
            bytes_lt(key, self.range_end.as_slice())
        }
    }

    /// Check if this permission covers the entire requested range
    pub fn covers_range(
        &self,
        req_key: &[u8],
        req_range_end: &[u8],
        required: PermissionType,
    ) -> (r: bool)
        ensures
            r == self@.covers_range(req_key@, req_range_end@, required),
    {
        if !self.perm_type.includes(required) {
            return false;
        }
        if !bytes_le(self.key.as_slice(), req_key) {
            return false;
        }
        if self.range_end.len() == 0 {
            // Single key permission can't cover a range
            return false;
        }
        if is_to_the_end(self.range_end.as_slice()) {
            // Covers everything from self.key to end of keyspace
            return true;
        }
        if req_range_end.len() == 0 {
            // Single key request
            bytes_lt(req_key, self.range_end.as_slice())
        } else if is_to_the_end(req_range_end) {
            // Request goes to end of keyspace, permission doesn't
            false
        } else {
            bytes_le(req_range_end, self.range_end.as_slice())
        }
    }
}

/// Role stored in the auth system
#[derive(Debug, Clone)]
pub struct Role {
    pub name: String,
    pub permissions: Vec<Permission>,
}

/// What a role holds.
pub struct RoleData {
    pub name: Seq<char>,
    pub permissions: Seq<Grant>,
}

impl View for Role {
    type V = RoleData;

    open spec fn view(&self) -> RoleData {
        RoleData {
            name: self.name@,
            permissions: self.permissions@.map_values(|p: Permission| p@),
        }
    }
}

impl Role {
    /// A role without permissions.
    pub fn new(name: String) -> (r: Self)
        ensures
            r.name == name,
            r.permissions@ == Seq::<Permission>::empty(),
    {
        Role { name, permissions: Vec::new() }
    }
}

/// The key that an operation names, and for a transaction all that it names.
pub open spec fn op_keys(op: RequestOp) -> Set<Seq<u8>>
    decreases op,
{
    match op.request {
        Some(Request::Put(p)) => set![p.key@],
        Some(Request::Get(g)) => set![g.key@],
        Some(Request::Delete(d)) => set![d.key@],
        Some(Request::Range(r)) => set![r.key@],
        Some(Request::Txn(t)) => txn_keys(*t),
        None => Set::empty(),
    }
}

/// The keys that a transaction names in its conditions and operations, nested
/// transactions included.
pub open spec fn txn_keys(t: TxnRequest) -> Set<Seq<u8>>
    decreases t,
{
    Set::new(
        |k: Seq<u8>|
            {
                ||| exists|i: int|
                    0 <= i < t.compare@.len() && (#[trigger] t.compare@[i]).key@ == k
                ||| exists|i: int|
                    0 <= i < t.success@.len() && op_keys(#[trigger] t.success@[i]).contains(k)
                ||| exists|i: int|
                    0 <= i < t.failure@.len() && op_keys(#[trigger] t.failure@[i]).contains(k)
            },
    )
}

/// The keys that conditions name.
pub open spec fn compare_keys(compare: Seq<Compare>) -> Set<Seq<u8>> {
    Set::new(
        |k: Seq<u8>| exists|i: int| 0 <= i < compare.len() && (#[trigger] compare[i]).key@ == k,
    )
}

/// The keys that operations name, nested transactions included.
pub open spec fn ops_keys(ops: Seq<RequestOp>) -> Set<Seq<u8>> {
    Set::new(
        |k: Seq<u8>|
            exists|i: int| 0 <= i < ops.len() && op_keys(#[trigger] ops[i]).contains(k),
    )
}

fn collect_compares(compare: &[Compare], keys: &mut SortedSet<Vec<u8>>)
    requires
        old(keys).wf(),
    ensures
        final(keys).wf(),
        final(keys)@ == old(keys)@.union(compare_keys(compare@)),
{
    let mut i: usize = 0;
    assert(keys@ =~= old(keys)@.union(compare_keys(compare@.take(0))));
    while i < compare.len()
        invariant
            i <= compare.len(),
            keys.wf(),
            keys@ == old(keys)@.union(compare_keys(compare@.take(i as int))),
        decreases compare.len() - i,
    {
        let ghost before = compare@.take(i as int);
        let ghost after = compare@.take(i + 1);
        keys.insert(copy_bytes(compare[i].key.as_slice()));
        proof {
            let key = compare@[i as int].key@;
            assert(after =~= before.push(compare@[i as int]));
            assert forall|k: Seq<u8>| compare_keys(after).contains(k) == (compare_keys(
                before,
            ).contains(k) || k == key) by {
                if compare_keys(before).contains(k) {
                    let j = choose|j: int| 0 <= j < before.len() && (#[trigger] before[j]).key@ == k;
                    assert(after[j].key@ == k);
                }
                assert(after[i as int].key@ == key);
                if compare_keys(after).contains(k) && k != key {
                    let j = choose|j: int| 0 <= j < after.len() && (#[trigger] after[j]).key@ == k;
                    assert(before[j].key@ == k);
                }
            }
            assert(keys@ =~= old(keys)@.union(compare_keys(after)));
        }
        i = i + 1;
    }
    assert(compare@.take(i as int) =~= compare@);
}

fn collect_ops(ops: &[RequestOp], keys: &mut SortedSet<Vec<u8>>)
    requires
        old(keys).wf(),
    ensures
        final(keys).wf(),
        final(keys)@ == old(keys)@.union(ops_keys(ops@)),
    decreases ops@,
{
    let mut i: usize = 0;
    assert(keys@ =~= old(keys)@.union(ops_keys(ops@.take(0))));
    while i < ops.len()
        invariant
            i <= ops.len(),
            keys.wf(),
            keys@ == old(keys)@.union(ops_keys(ops@.take(i as int))),
        decreases ops.len() - i,
    {
        let ghost before = ops@.take(i as int);
        let ghost after = ops@.take(i + 1);
        let ghost start = keys@;
        let op = &ops[i];
        match &op.request {
            Some(Request::Put(p)) => {
                keys.insert(copy_bytes(p.key.as_slice()));
            },
            Some(Request::Get(g)) => {
                keys.insert(copy_bytes(g.key.as_slice()));
            },
            Some(Request::Delete(d)) => {
                keys.insert(copy_bytes(d.key.as_slice()));
            },
            Some(Request::Range(r)) => {
                keys.insert(copy_bytes(r.key.as_slice()));
            },
            Some(Request::Txn(t)) => {
                assert(decreases_to!(ops@ => ops@[i as int]));
                assert(decreases_to!(ops@ => t.success@));
                assert(decreases_to!(ops@ => t.failure@));
                collect_compares(t.compare.as_slice(), keys);
                collect_ops(t.success.as_slice(), keys);
                collect_ops(t.failure.as_slice(), keys);
                assert(keys@ =~= start.union(txn_keys(**t)));
            },
            None => {},
        }
        proof {
            assert(keys@ =~= start.union(op_keys(*op)));
            assert(after =~= before.push(*op));
            assert forall|k: Seq<u8>| ops_keys(after).contains(k) == (ops_keys(before).contains(k)
                || op_keys(*op).contains(k)) by {
                if ops_keys(before).contains(k) {
                    let j = choose|j: int|
                        0 <= j < before.len() && op_keys(#[trigger] before[j]).contains(k);
                    assert(after[j] == before[j]);
                }
                assert(after[i as int] == *op);
                if ops_keys(after).contains(k) && !op_keys(*op).contains(k) {
                    let j = choose|j: int|
                        0 <= j < after.len() && op_keys(#[trigger] after[j]).contains(k);
                    assert(before[j] == after[j]);
                }
            }
            assert(keys@ =~= old(keys)@.union(ops_keys(after)));
        }
        i = i + 1;
    }
    assert(ops@.take(i as int) =~= ops@);
}

/// Extract all unique keys from a transaction for permission checking, in order.
pub fn extract_txn_keys(
    compare: &[Compare],
    success: &[RequestOp],
    failure: &[RequestOp],
) -> (r: Vec<Vec<u8>>)
    ensures
        crate::registry::in_order(crate::registry::views(r@)),
        crate::registry::views(r@).to_set() == compare_keys(compare@).union(
            ops_keys(success@),
        ).union(ops_keys(failure@)),
{
    let mut keys: SortedSet<Vec<u8>> = SortedSet::new();
    collect_compares(compare, &mut keys);
    collect_ops(success, &mut keys);
    collect_ops(failure, &mut keys);
    let mut list: Vec<Vec<u8>> = Vec::new();
    let n: usize = keys.len();
    let mut i: usize = 0;
    assert(crate::registry::views(list@) =~= keys.keys().take(0));
    while i < n
        invariant
            i <= n == keys.keys().len(),
            crate::registry::views(list@) == keys.keys().take(i as int),
        decreases n - i,
    {
        let copy = copy_bytes(keys.key_at(i).as_slice());
        proof {
            crate::registry::views_push(list@, copy);
            assert(keys.keys().take(i + 1) =~= keys.keys().take(i as int).push(copy@));
        }
        list.push(copy);
        i = i + 1;
    }
    proof {
        keys.members_in_view();
        assert(keys.keys().take(n as int) =~= keys.keys());
        assert(keys@ =~= compare_keys(compare@).union(ops_keys(success@)).union(
            ops_keys(failure@),
        ));
    }
    list
}

impl PermissionType {
    /// Every type allows what it is named after, and reading and writing both if it is
    /// named after both; a type that is named after one kind of access does not allow
    /// the other. So one type allows another exactly when it includes every kind of
    /// access that the other is named after.
    pub proof fn types_allow_what_they_name(self, required: PermissionType)
        ensures
            self.allows(self),
            PermissionType::Read.allows(PermissionType::Read),
            PermissionType::Write.allows(PermissionType::Write),
            PermissionType::Readwrite.allows(PermissionType::Read),
            PermissionType::Readwrite.allows(PermissionType::Write),
            !PermissionType::Read.allows(PermissionType::Write),
            !PermissionType::Write.allows(PermissionType::Read),
            self.allows(required) <==> {
                &&& required is Read || required is Readwrite ==> self is Read || self is Readwrite
                &&& required is Write || required is Readwrite ==> self is Write
                    || self is Readwrite
            },
    {
    }
}

impl Grant {
    /// A grant covers its first key unless its range is empty, and no key before it. A
    /// grant without an end covers no other key, one up to the end of the keyspace all
    /// keys from the first on, and another no key from its end on.
    pub proof fn grants_begin_and_end(self, k: Seq<u8>, required: PermissionType)
        requires
            self.perm_type.allows(required),
        ensures
            self.range_end.len() == 0 ==> (self.covers_key(k, required) <==> k == self.key),
            self.range_end == seq![0u8] ==> (self.covers_key(k, required) <==> k == self.key
                || crate::bytes::lex_lt(self.key, k)),
            crate::bytes::lex_lt(k, self.key) ==> !self.covers_key(k, required),
            self.range_end.len() > 0 && self.range_end != seq![0u8] ==> {
                &&& !self.covers_key(self.range_end, required)
                &&& crate::bytes::lex_lt(self.range_end, k) ==> !self.covers_key(k, required)
                &&& crate::bytes::lex_lt(self.key, self.range_end) ==> self.covers_key(
                    self.key,
                    required,
                )
                &&& k != self.key && crate::bytes::lex_lt(self.key, k) && crate::bytes::lex_lt(
                    k,
                    self.range_end,
                ) ==> self.covers_key(k, required)
            },
    {
        crate::bytes::lex_irreflexive(k);
        crate::bytes::lex_irreflexive(self.key);
        crate::bytes::lex_irreflexive(self.range_end);
        if crate::bytes::lex_lt(k, self.key) && crate::bytes::lex_lt(self.key, k) {
            crate::bytes::lex_transitive(k, self.key, k);
        }
        if crate::bytes::lex_lt(self.range_end, k) && crate::bytes::lex_lt(k, self.range_end) {
            crate::bytes::lex_transitive(k, self.range_end, k);
        }
    }

    /// A grant whose type does not allow what is required covers nothing.
    pub proof fn wrong_types_cover_nothing(
        self,
        k: Seq<u8>,
        range_end: Seq<u8>,
        required: PermissionType,
    )
        requires
            !self.perm_type.allows(required),
        ensures
            !self.covers_key(k, required),
            !self.covers_range(k, range_end, required),
    {
    }

    /// A grant for one key covers no range, not even that of its key. A grant for a
    /// range covers the key alone as a range exactly when it covers the key, and covers
    /// the rest of the keyspace only if it goes up to the end itself.
    pub proof fn ranges_need_a_range(self, k: Seq<u8>, range_end: Seq<u8>, required: PermissionType)
        ensures
            self.range_end.len() == 0 ==> !self.covers_range(k, range_end, required),
            self.range_end.len() > 0 ==> (self.covers_range(k, Seq::empty(), required)
                <==> self.covers_key(k, required)),
            self.covers_range(k, seq![0u8], required) ==> self.range_end == seq![0u8],
    {
        assert(seq![0u8].len() == 1);
    }

    /// Where one range ends another begins: of a range that is cut in two, each key is
    /// covered by exactly one part.
    pub proof fn cut_ranges_share_nothing(self, cut: Seq<u8>, k: Seq<u8>, required: PermissionType)
        requires
            self.range_end.len() > 0,
            cut.len() > 0,
            cut != seq![0u8],
            self.covers_key(cut, required),
        ensures
            self.covers_key(k, required) <==> {
                ||| (Grant { range_end: cut, ..self }).covers_key(k, required)
                ||| (Grant { key: cut, ..self }).covers_key(k, required)
            },
            !((Grant { range_end: cut, ..self }).covers_key(k, required) && (Grant {
                key: cut,
                ..self
            }).covers_key(k, required)),
    {
        crate::bytes::lex_irreflexive(k);
        crate::bytes::lex_total(cut, k);
        if crate::bytes::lex_lt(self.key, cut) && crate::bytes::lex_lt(cut, k) {
            crate::bytes::lex_transitive(self.key, cut, k);
        }
        if crate::bytes::lex_lt(k, cut) && crate::bytes::lex_lt(cut, self.range_end) {
            crate::bytes::lex_transitive(k, cut, self.range_end);
        }
        if crate::bytes::lex_lt(k, cut) && crate::bytes::lex_lt(cut, k) {
            crate::bytes::lex_transitive(k, cut, k);
        }
    }
}

/// The keys of a range are those that a grant of the range covers.
pub proof fn ranges_are_what_grants_cover(
    first: Seq<u8>,
    range_end: Seq<u8>,
    k: Seq<u8>,
    required: PermissionType,
)
    ensures
        in_range(first, range_end, k) <==> (Grant {
            perm_type: required,
            key: first,
            range_end,
        }).covers_key(k, required),
        to_the_end(range_end) <==> range_end == seq![0u8],
{
}

/// The keys of an operation are the one that it names, or, if it is a transaction,
/// those of its conditions and of the operations of both its branches.
pub proof fn keys_of_all_operations(op: RequestOp, k: Seq<u8>)
    ensures
        op.request is None ==> !op_keys(op).contains(k),
        op.request matches Some(Request::Put(p)) ==> (op_keys(op).contains(k) <==> k == p.key@),
        op.request matches Some(Request::Get(g)) ==> (op_keys(op).contains(k) <==> k == g.key@),
        op.request matches Some(Request::Delete(d)) ==> (op_keys(op).contains(k) <==> k == d.key@),
        op.request matches Some(Request::Range(r)) ==> (op_keys(op).contains(k) <==> k == r.key@),
        op.request matches Some(Request::Txn(t)) ==> {
            &&& forall|i: int|
                0 <= i < t.compare@.len() ==> op_keys(op).contains((#[trigger] t.compare@[i]).key@)
            &&& forall|i: int|
                0 <= i < t.success@.len() && op_keys(#[trigger] t.success@[i]).contains(k)
                    ==> op_keys(op).contains(k)
            &&& forall|i: int|
                0 <= i < t.failure@.len() && op_keys(#[trigger] t.failure@[i]).contains(k)
                    ==> op_keys(op).contains(k)
            &&& op_keys(op).contains(k) ==> {
                ||| exists|i: int|
                    0 <= i < t.compare@.len() && (#[trigger] t.compare@[i]).key@ == k
                ||| exists|i: int|
                    0 <= i < t.success@.len() && op_keys(#[trigger] t.success@[i]).contains(k)
                ||| exists|i: int|
                    0 <= i < t.failure@.len() && op_keys(#[trigger] t.failure@[i]).contains(k)
            }
        },
{
}

/// The keys of conditions and of operations are those that each of them names.
pub proof fn keys_of_conditions_and_operations(
    compare: Seq<Compare>,
    ops: Seq<RequestOp>,
    i: int,
    k: Seq<u8>,
)
    ensures
        0 <= i < compare.len() ==> compare_keys(compare).contains(compare[i].key@),
        0 <= i < ops.len() && op_keys(ops[i]).contains(k) ==> ops_keys(ops).contains(k),
        compare.len() == 0 ==> !compare_keys(compare).contains(k),
        ops.len() == 0 ==> !ops_keys(ops).contains(k),
        compare_keys(compare).contains(k) ==> exists|j: int|
            0 <= j < compare.len() && (#[trigger] compare[j]).key@ == k,
        ops_keys(ops).contains(k) ==> exists|j: int|
            0 <= j < ops.len() && op_keys(#[trigger] ops[j]).contains(k),
{
}

} // verus!
