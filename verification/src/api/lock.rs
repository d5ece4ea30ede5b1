//! Lock service.

use vstd::prelude::*;

use super::guard::unexpected;
use crate::bytes::copy_bytes;
use crate::lock::{lock_name, validate_lock_name, LockManager, MAX_LOCK_NAME_LEN};
use crate::proto::{
    LockQueryRequest, LockQueryResponse, LockRequest, LockResponse, ResponseHeader, UnlockRequest,
    UnlockResponse,
};
use crate::raft::{RaftRequest, RaftResponse};
use crate::status::Status;

verus! {

/// With what a lock name is refused.
pub open spec fn name_refusal(name: Seq<u8>) -> Option<crate::status::Refusal> {
    match crate::names::fault(name, MAX_LOCK_NAME_LEN as nat) {
        Some(fault) => Some(
            (crate::status::Code::InvalidArgument, crate::lock::lock_name_message(fault)),
        ),
        None => None,
    }
}

/// With what a lease that must not be negative is refused.
pub open spec fn lease_refusal(lease_id: i64) -> Option<crate::status::Refusal> {
    if lease_id < 0 {
        Some((crate::status::Code::InvalidArgument, "lease_id must be non-negative"@))
    } else {
        None
    }
}

/// The lock service of a node.
pub struct LockService {
    node_id: u64,
}

impl LockService {
    /// The node that the service answers for.
    pub closed spec fn node(&self) -> u64 {
        self.node_id
    }

    /// The header of the answers in a term.
    pub open spec fn header_in(&self, term: u64) -> ResponseHeader {
        ResponseHeader { cluster_id: 0, member_id: self.node(), revision: 0, raft_term: term }
    }

    pub fn new(node_id: u64) -> (r: Self)
        ensures
            r.node() == node_id,
    {
        LockService { node_id }
    }

    fn header(&self, term: u64) -> (r: ResponseHeader)
        ensures
            r == self.header_in(term),
    {
        ResponseHeader { cluster_id: 0, member_id: self.node_id, revision: 0, raft_term: term }
    }

    /// What is proposed for a lock.
    pub fn lock_request(&self, req: LockRequest) -> (r: Result<RaftRequest, Status>)
        ensures
            crate::status::answers(
                r,
                super::kv::first_refusal(name_refusal(req.name@), lease_refusal(req.lease_id)),
            ),
            r matches Ok(request) ==> request == (RaftRequest::LockAcquire {
                name: req.name,
                lease_id: req.lease_id,
            }),
    {
        if let Err(message) = validate_lock_name(req.name.as_slice()) {
            return Err(Status::invalid_argument(message));
        }
        if req.lease_id < 0 {
            return Err(Status::invalid_argument("lease_id must be non-negative"));
        }
        Ok(RaftRequest::LockAcquire { name: req.name, lease_id: req.lease_id })
    }

    /// What a lock is answered.
    pub fn lock_response(&self, term: u64, resp: RaftResponse) -> (r: Result<LockResponse, Status>)
        ensures
            match resp {
                RaftResponse::LockAcquire { key } => r == Ok::<LockResponse, Status>(
                    LockResponse { header: Some(self.header_in(term)), key },
                ),
                _ => r is Err && r->Err_0.says(super::guard::unexpected_refusal(resp)),
            },
    {
        match resp {
            RaftResponse::LockAcquire { key } => Ok(
                LockResponse { header: Some(self.header(term)), key },
            ),
            other => Err(unexpected(other)),
        }
    }

    /// What is proposed for an unlock.
    pub fn unlock_request(&self, req: UnlockRequest) -> (r: Result<RaftRequest, Status>)
        ensures
            crate::status::answers(
                r,
                if req.key@.len() == 0 {
                    Some((crate::status::Code::InvalidArgument, "lock key must not be empty"@))
                } else if !crate::lock::lock_prefix().is_prefix_of(req.key@) {
                    Some((crate::status::Code::InvalidArgument, "key is not a lock key"@))
                } else {
                    None
                },
            ),
            r matches Ok(request) ==> request == (RaftRequest::LockRelease { key: req.key }),
    {
        if req.key.len() == 0 {
            return Err(Status::invalid_argument("lock key must not be empty"));
        }
        match lock_name(req.key.as_slice()) {
            None => {
                return Err(Status::invalid_argument("key is not a lock key"));
            },
            Some(name) => {
                assert(req.key@.subrange(0, crate::lock::lock_prefix().len() as int)
                    =~= crate::lock::lock_prefix());
            },
        }
        Ok(RaftRequest::LockRelease { key: req.key })
    }

    /// What an unlock is answered.
    pub fn unlock_response(&self, term: u64, resp: RaftResponse) -> (r: Result<
        UnlockResponse,
        Status,
    >)
        ensures
            match resp {
                RaftResponse::LockRelease {  } => r == Ok::<UnlockResponse, Status>(
                    UnlockResponse { header: Some(self.header_in(term)) },
                ),
                _ => r is Err && r->Err_0.says(super::guard::unexpected_refusal(resp)),
            },
    {
        match resp {
            RaftResponse::LockRelease {  } => Ok(
                UnlockResponse { header: Some(self.header(term)) },
            ),
            other => Err(unexpected(other)),
        }
    }

    /// Who holds a lock: the key that owns it, empty if nobody does, and its
    /// lease. `leadership` says whether this node leads.
    pub fn lock_query(
        &self,
        term: u64,
        leadership: Result<(), Status>,
        manager: &LockManager,
        req: &LockQueryRequest,
    ) -> (r: Result<LockQueryResponse, Status>)
        requires
            manager.wf(),
        ensures
            name_refusal(req.name@) is Some ==> crate::status::answers(r, name_refusal(req.name@)),
            name_refusal(req.name@) is None ==> match leadership {
                Err(status) => r == Err::<LockQueryResponse, Status>(status),
                Ok(_) => {
                    &&& r is Ok
                    &&& r->Ok_0.header == Some(self.header_in(term))
                    &&& r->Ok_0.owner@ == holder(manager@, req.name@)
                    &&& r->Ok_0.lease_id == holder_lease(manager@, req.name@)
                },
            },
    {
        if let Err(message) = validate_lock_name(req.name.as_slice()) {
            return Err(Status::invalid_argument(message));
        }
        match leadership {
            Err(status) => {
                return Err(status);
            },
            Ok(()) => {},
        }
        let owner: Vec<u8> = match manager.get_key(req.name.as_slice()) {
            Some(key) => copy_bytes(key),
            None => Vec::new(),
        };
        let lease_id: i64 = if owner.len() == 0 {
            0
        } else {
            match manager.get_lease_id(owner.as_slice()) {
                Some(lease_id) => lease_id,
                None => 0,
            }
        };
        Ok(LockQueryResponse { header: Some(self.header(term)), owner, lease_id })
    }
}

/// The key that holds a name, empty if none does.
pub open spec fn holder(h: crate::registry::Holdings, name: Seq<u8>) -> Seq<u8> {
    if h.by_name.contains_key(name) {
        h.by_name[name]
    } else {
        Seq::empty()
    }
}

/// The lease of the key that holds a name, 0 if there is none.
pub open spec fn holder_lease(h: crate::registry::Holdings, name: Seq<u8>) -> i64 {
    let key = holder(h, name);
    if key.len() > 0 && h.leases.contains_key(key) {
        h.leases[key]
    } else {
        0
    }
}

/// A lock that was acquired is answered with its own key and lease, and one that
/// was released with no key and no lease.
pub proof fn query_follows_acquire(h: crate::registry::Holdings, name: Seq<u8>, lease_id: i64)
    requires
        h.consistent(),
        crate::lock::canonical(h),
        lease_id >= 0,
    ensures
        ({
            let key = crate::lock::lock_prefix() + name;
            let next = h.taken(name, key, lease_id);
            &&& holder(next, name) == key
            &&& holder_lease(next, name) == lease_id
            &&& holder(next.released(key), name) == Seq::<u8>::empty()
            &&& holder_lease(next.released(key), name) == 0
        }),
{
    crate::lock::acquire_holds(h, name, lease_id);
    reveal_strlit("_aether_lock/");
}

/// A lock name is accepted if and only if it has from 1 to 1024 bytes, none of
/// them zero, and does not begin with the reserved prefix; a lease, if and only if
/// it is not negative. What is refused is an invalid argument.
pub proof fn accepted_locks(name: Seq<u8>, lease_id: i64)
    ensures
        name_refusal(name) is None <==> {
            &&& 0 < name.len() <= 1024
            &&& forall|i: int| 0 <= i < name.len() ==> name[i] != 0
            &&& !crate::names::begins_reserved(name)
        },
        name_refusal(name) matches Some(said) ==> said.0 == crate::status::Code::InvalidArgument,
        lease_refusal(lease_id) is None <==> lease_id >= 0,
        lease_refusal(lease_id) matches Some(said) ==> said.0
            == crate::status::Code::InvalidArgument,
{
    crate::names::faults_are_there(name, 1024);
}

/// A name that no key holds has no holder and no lease; one that a key holds has
/// that key as its holder, and the lease of that key.
pub proof fn holders_hold(h: crate::registry::Holdings, name: Seq<u8>)
    ensures
        !h.by_name.contains_key(name) ==> holder(h, name).len() == 0 && holder_lease(h, name) == 0,
        h.by_name.contains_key(name) ==> holder(h, name) == h.by_name[name],
        h.by_name.contains_key(name) && h.by_name[name].len() > 0 ==> holder_lease(h, name)
            == h.lease_or_zero(h.by_name[name]),
{
}

/// Every answer is headed with the node that gives it and the term it is given in,
/// and with no cluster and no revision.
pub proof fn answers_name_node_and_term(service: LockService, term: u64)
    ensures
        service.header_in(term).member_id == service.node(),
        service.header_in(term).raft_term == term,
        service.header_in(term).cluster_id == 0,
        service.header_in(term).revision == 0,
{
}

} // verus!
