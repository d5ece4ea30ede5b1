//! Session service: sessions are leases that clients keep alive.

use vstd::prelude::*;

use super::guard::{require_root, unexpected};
use crate::lease::LeaseManager;
use crate::proto::{
    ResponseHeader, SessionCloseRequest, SessionCloseResponse, SessionCreateRequest,
    SessionCreateResponse, SessionKeepAliveRequest, SessionKeepAliveResponse, SessionQueryRequest,
    SessionQueryResponse,
};
use crate::raft::{ClusterMember, NodeId, RaftError, RaftRequest, RaftResponse};
use crate::status::Status;
use crate::text::{format_i64, join2, text};

verus! {

/// A time to live, brought between 1 and the maximum.
pub open spec fn negotiated(ttl: i64, max_ttl: i64) -> i64 {
    if ttl < 1 {
        1
    } else if ttl > max_ttl {
        max_ttl
    } else {
        ttl
    }
}

/// What is said of a session that is not known.
pub open spec fn not_found_message(id: i64) -> Seq<char> {
    "session not found: "@ + crate::text::decimal_signed(id as int)
}

/// With what a session identifier is refused.
pub open spec fn id_refusal(id: i64) -> Option<crate::status::Refusal> {
    if id <= 0 {
        Some((crate::status::Code::InvalidArgument, "session ID must be positive"@))
    } else {
        None
    }
}

/// The time to live that the lease of a session was granted with, if there is
/// one that lives at all.
pub open spec fn granted_ttl_of(table: crate::lease::LeaseTable, id: i64) -> Option<i64> {
    if table.leases.contains_key(id) && table.leases[id].granted_ttl > 0 {
        Some(table.leases[id].granted_ttl)
    } else {
        None
    }
}

/// The whole seconds that a lease still has, none if it is expired.
pub open spec fn remaining_secs(expiry_time: i64, now_ms: i64) -> int {
    if expiry_time > now_ms {
        (expiry_time - now_ms) / 1000
    } else {
        0
    }
}

/// The address of the leader among the members.
pub open spec fn leader_addr(members: Seq<ClusterMember>, leader_id: Option<NodeId>, n: nat) -> Option<
    Seq<char>,
>
    decreases n,
{
    if n == 0 || n > members.len() {
        None
    } else {
        match leader_addr(members, leader_id, (n - 1) as nat) {
            Some(addr) => Some(addr),
            None => if leader_id == Some(members[n - 1].id) {
                Some(members[n - 1].addr@)
            } else {
                None
            },
        }
    }
}

/// The session service of a node.
pub struct SessionService {
    node_id: u64,
    max_ttl: i64,
}

fn not_found(id: i64) -> (r: Status)
    ensures
        r.says((crate::status::Code::NotFound, not_found_message(id))),
{
    Status::not_found(join2("session not found: ", format_i64(id).as_str()).as_str())
}

/// The address of the leader among the members, if it is known.
fn find_leader_addr(members: &Vec<ClusterMember>, leader_id: Option<NodeId>) -> (r: Option<String>)
    ensures
        match r {
            Some(addr) => leader_addr(members@, leader_id, members@.len()) == Some(addr@),
            None => leader_addr(members@, leader_id, members@.len()) is None,
        },
{
    let mut i: usize = 0;
    while i < members.len()
        invariant
            i <= members.len(),
            leader_addr(members@, leader_id, i as nat) is None,
        decreases members.len() - i,
    {
        if let Some(id) = leader_id {
            if members[i].id == id {
                proof {
                    leader_addr_stays(members@, leader_id, (i + 1) as nat, members@.len());
                }
                return Some(text(members[i].addr.as_str()));
            }
        }
        i = i + 1;
    }
    None
}

proof fn leader_addr_stays(
    members: Seq<ClusterMember>,
    leader_id: Option<NodeId>,
    m: nat,
    n: nat,
)
    requires
        m <= n <= members.len(),
        leader_addr(members, leader_id, m) is Some,
    ensures
        leader_addr(members, leader_id, n) == leader_addr(members, leader_id, m),
    decreases n,
{
    if m < n {
        leader_addr_stays(members, leader_id, m, (n - 1) as nat);
    }
}

impl SessionService {
    /// The node that the service answers for.
    pub closed spec fn node(&self) -> u64 {
        self.node_id
    }

    /// The longest time to live that is granted.
    pub closed spec fn longest(&self) -> i64 {
        self.max_ttl
    }

    /// The header of the answers in a term.
    pub open spec fn header_in(&self, term: u64) -> ResponseHeader {
        ResponseHeader { cluster_id: 0, member_id: self.node(), revision: 0, raft_term: term }
    }

    pub fn new(node_id: u64, max_ttl: i64) -> (r: Self)
        ensures
            r.node() == node_id,
            r.longest() == max_ttl,
    {
        SessionService { node_id, max_ttl }
    }

    /// The header of the answers in a term.
    pub fn header(&self, term: u64) -> (r: ResponseHeader)
        ensures
            r == self.header_in(term),
    {
        ResponseHeader { cluster_id: 0, member_id: self.node_id, revision: 0, raft_term: term }
    }

    /// The time to live that is granted for the one that is asked for.
    pub fn negotiate(&self, ttl: i64) -> (r: i64)
        requires
            self.longest() >= 1,
        ensures
            r == negotiated(ttl, self.longest()),
    {
        if ttl < 1 {
            1
        } else if ttl > self.max_ttl {
            self.max_ttl
        } else {
            ttl
        }
    }

    /// What is proposed for a new session: a lease with the negotiated time to
    /// live.
    pub fn create_request(
        &self,
        auth_enabled: bool,
        username: Option<&str>,
        req: &SessionCreateRequest,
        now_ms: i64,
    ) -> (r: Result<RaftRequest, Status>)
        requires
            self.longest() >= 1,
            now_ms + negotiated(req.ttl, self.longest()) * 1000 <= i64::MAX,
        ensures
            crate::status::answers(
                r,
                super::guard::root_refusal(auth_enabled, super::kv::name_of(username)),
            ),
            r matches Ok(request) ==> request == (RaftRequest::LeaseGrant {
                ttl: negotiated(req.ttl, self.longest()),
                expiry_time: (now_ms + negotiated(req.ttl, self.longest()) * 1000) as i64,
            }),
    {
        if let Err(status) = require_root(auth_enabled, username) {
            return Err(status);
        }
        let ttl: i64 = self.negotiate(req.ttl);
        let expiry_time: i128 = now_ms as i128 + ttl as i128 * 1000;
        Ok(RaftRequest::LeaseGrant { ttl, expiry_time: expiry_time as i64 })
    }

    /// What a new session is answered. The session is to be registered if the
    /// answer is a success.
    pub fn create_response(&self, term: u64, resp: RaftResponse) -> (r: Result<
        SessionCreateResponse,
        Status,
    >)
        ensures
            match resp {
                RaftResponse::LeaseGrant { id, ttl } => r == Ok::<SessionCreateResponse, Status>(
                    SessionCreateResponse {
                        header: Some(self.header_in(term)),
                        id,
                        granted_ttl: ttl,
                    },
                ),
                _ => r is Err && r->Err_0.says(super::guard::unexpected_refusal(resp)),
            },
    {
        match resp {
            RaftResponse::LeaseGrant { id, ttl } => Ok(
                SessionCreateResponse { header: Some(self.header(term)), id, granted_ttl: ttl },
            ),
            other => Err(unexpected(other)),
        }
    }

    /// What is proposed to close a session that exists or not.
    pub fn close_request(
        &self,
        auth_enabled: bool,
        username: Option<&str>,
        req: &SessionCloseRequest,
        exists: bool,
    ) -> (r: Result<RaftRequest, Status>)
        ensures
            crate::status::answers(
                r,
                super::kv::first_refusal(
                    super::guard::root_refusal(auth_enabled, super::kv::name_of(username)),
                    super::kv::first_refusal(
                        id_refusal(req.id),
                        if exists {
                            None
                        } else {
                            Some((crate::status::Code::NotFound, not_found_message(req.id)))
                        },
                    ),
                ),
            ),
            r matches Ok(request) ==> request == (RaftRequest::LeaseRevoke { id: req.id }),
    {
        if let Err(status) = require_root(auth_enabled, username) {
            return Err(status);
        }
        if req.id <= 0 {
            return Err(Status::invalid_argument("session ID must be positive"));
        }
        if !exists {
            return Err(not_found(req.id));
        }
        Ok(RaftRequest::LeaseRevoke { id: req.id })
    }

    /// What closing a session is answered. The session is to be forgotten if the
    /// answer is a success.
    pub fn close_response(&self, term: u64, resp: RaftResponse) -> (r: Result<
        SessionCloseResponse,
        Status,
    >)
        ensures
            match resp {
                RaftResponse::LeaseRevoke {  } => r == Ok::<SessionCloseResponse, Status>(
                    SessionCloseResponse { header: Some(self.header_in(term)) },
                ),
                _ => r is Err && r->Err_0.says(super::guard::unexpected_refusal(resp)),
            },
    {
        match resp {
            RaftResponse::LeaseRevoke {  } => Ok(
                SessionCloseResponse { header: Some(self.header(term)) },
            ),
            other => Err(unexpected(other)),
        }
    }

    /// Whether sessions may be kept alive at all: root, and then the leader.
    pub fn keep_alive_check(
        &self,
        auth_enabled: bool,
        username: Option<&str>,
        leadership: Result<(), Status>,
    ) -> (r: Result<(), Status>)
        ensures
            match super::guard::root_refusal(auth_enabled, super::kv::name_of(username)) {
                Some(refusal) => r is Err && r->Err_0.says(refusal),
                None => r == leadership,
            },
    {
        if let Err(status) = require_root(auth_enabled, username) {
            return Err(status);
        }
        leadership
    }

    /// What is proposed to keep a session alive: its lease is extended by the time
    /// that it was granted. The leases are left out if they cannot be read.
    pub fn keep_alive_request(
        &self,
        req: &SessionKeepAliveRequest,
        leases: Option<&LeaseManager>,
        now_ms: i64,
    ) -> (r: Result<RaftRequest, Status>)
        requires
            leases matches Some(manager) ==> {
                &&& manager.wf()
                &&& granted_ttl_of(manager@, req.id) matches Some(ttl) ==> now_ms + ttl * 1000
                    <= i64::MAX
            },
        ensures
            crate::status::answers(
                r,
                super::kv::first_refusal(
                    id_refusal(req.id),
                    if leases is Some && granted_ttl_of(leases->Some_0@, req.id) is Some {
                        None
                    } else {
                        Some((crate::status::Code::NotFound, not_found_message(req.id)))
                    },
                ),
            ),
            r matches Ok(request) ==> request == (RaftRequest::LeaseKeepAlive {
                id: req.id,
                expiry_time: (now_ms + granted_ttl_of(leases->Some_0@, req.id)->Some_0
                    * 1000) as i64,
            }),
    {
        if req.id <= 0 {
            return Err(Status::invalid_argument("session ID must be positive"));
        }
        let granted_ttl: i64 = match leases {
            Some(manager) => match manager.get(req.id) {
                Some(lease) => lease.granted_ttl,
                None => 0,
            },
            None => 0,
        };
        if granted_ttl > 0 {
            let expiry_time: i128 = now_ms as i128 + granted_ttl as i128 * 1000;
            Ok(RaftRequest::LeaseKeepAlive { id: req.id, expiry_time: expiry_time as i64 })
        } else {
            Err(not_found(req.id))
        }
    }

    /// What keeping a session alive is answered. If this node does not lead, the
    /// answer names the leader where it is known.
    pub fn keep_alive_response(
        header: ResponseHeader,
        resp: Result<RaftResponse, RaftError>,
        members: &Vec<ClusterMember>,
        leader_id: Option<NodeId>,
    ) -> (r: Result<SessionKeepAliveResponse, Status>)
        ensures
            match resp {
                Ok(RaftResponse::LeaseKeepAlive { ttl }) => r == Ok::<
                    SessionKeepAliveResponse,
                    Status,
                >(SessionKeepAliveResponse { header: Some(header), ttl }),
                Ok(RaftResponse::Error { message }) => r is Err && r->Err_0.says(
                    (crate::status::Code::Internal, message@),
                ),
                Ok(_) => r is Err && r->Err_0.says(
                    (crate::status::Code::Internal, "unexpected response"@),
                ),
                Err(RaftError::NotLeader) => {
                    &&& r is Err
                    &&& r->Err_0.code == crate::status::Code::Unavailable
                    &&& r->Err_0.message@ == "not leader"@
                    &&& match leader_addr(members@, leader_id, members@.len()) {
                        Some(addr) => r->Err_0.leader is Some && r->Err_0.leader->Some_0@ == addr,
                        None => r->Err_0.leader is None,
                    }
                },
                Err(RaftError::NoLeader) => r is Err && r->Err_0.says(
                    (crate::status::Code::Unavailable, "no leader elected"@),
                ),
                Err(RaftError::Other(message)) => r is Err && r->Err_0.says(
                    (crate::status::Code::Internal, "raft error: "@ + message@),
                ),
            },
    {
        match resp {
            Ok(RaftResponse::LeaseKeepAlive { ttl }) => Ok(
                SessionKeepAliveResponse { header: Some(header), ttl },
            ),
            Ok(RaftResponse::Error { message }) => Err(Status::internal(message.as_str())),
            Ok(_) => Err(Status::internal("unexpected response")),
            Err(RaftError::NotLeader) => Err(
                Status {
                    code: crate::status::Code::Unavailable,
                    message: text("not leader"),
                    leader: find_leader_addr(members, leader_id),
                },
            ),
            Err(RaftError::NoLeader) => Err(Status::unavailable("no leader elected")),
            Err(RaftError::Other(message)) => Err(
                Status::internal(join2("raft error: ", message.as_str()).as_str()),
            ),
        }
    }

    /// How long a session still lives, what it was granted, and how many keys are
    /// attached to it.
    pub fn query(
        &self,
        auth_enabled: bool,
        username: Option<&str>,
        leadership: Result<(), Status>,
        term: u64,
        req: &SessionQueryRequest,
        leases: &LeaseManager,
        now_ms: i64,
    ) -> (r: Result<SessionQueryResponse, Status>)
        requires
            leases.wf(),
        ensures
            match super::guard::root_refusal(auth_enabled, super::kv::name_of(username)) {
                Some(refusal) => r is Err && r->Err_0.says(refusal),
                None => match leadership {
                    Err(status) => r == Err::<SessionQueryResponse, Status>(status),
                    Ok(_) => crate::status::answers(
                        r,
                        super::kv::first_refusal(
                            id_refusal(req.id),
                            if leases@.leases.contains_key(req.id) {
                                None
                            } else {
                                Some((crate::status::Code::NotFound, not_found_message(req.id)))
                            },
                        ),
                    ),
                },
            },
            r matches Ok(resp) ==> {
                &&& resp.header == Some(self.header_in(term))
                &&& resp.id == req.id
                &&& resp.ttl == remaining_secs(leases@.leases[req.id].expiry_time, now_ms)
                &&& resp.granted_ttl == leases@.leases[req.id].granted_ttl
                &&& resp.keys == crate::lease::keys_of(leases@.keys, req.id).len() as i64
            },
    {
        if let Err(status) = require_root(auth_enabled, username) {
            return Err(status);
        }
        match leadership {
            Err(status) => {
                return Err(status);
            },
            Ok(()) => {},
        }
        if req.id <= 0 {
            return Err(Status::invalid_argument("session ID must be positive"));
        }
        let lease = match leases.get(req.id) {
            Some(lease) => lease,
            None => {
                return Err(not_found(req.id));
            },
        };
        let gap: i128 = lease.expiry_time as i128 - now_ms as i128;
        let ttl: i64 = if gap > 0 {
            (gap / 1000) as i64
        } else {
            0
        };
        let keys: i64 = match leases.get_keys(req.id) {
            Some(keys) => keys.len() as i64,
            None => 0,
        };
        Ok(
            SessionQueryResponse {
                header: Some(self.header(term)),
                id: req.id,
                ttl,
                granted_ttl: lease.granted_ttl,
                keys,
            },
        )
    }
}

/// A negotiated time to live is between 1 and the maximum, and one that is there
/// already stays.
pub proof fn negotiated_in_bounds(ttl: i64, max_ttl: i64)
    requires
        max_ttl >= 1,
    ensures
        1 <= negotiated(ttl, max_ttl) <= max_ttl,
        1 <= ttl <= max_ttl ==> negotiated(ttl, max_ttl) == ttl,
{
}

/// Who asks for more is not granted less, and what is granted is as near to what
/// was asked for as the bounds let it be.
pub proof fn negotiated_is_nearest(ttl: i64, more: i64, within: i64, max_ttl: i64)
    requires
        max_ttl >= 1,
    ensures
        ttl <= more ==> negotiated(ttl, max_ttl) <= negotiated(more, max_ttl),
        1 <= within <= max_ttl && ttl <= within ==> negotiated(ttl, max_ttl) <= within
            && negotiated(ttl, max_ttl) >= ttl,
        1 <= within <= max_ttl && ttl >= within ==> within <= negotiated(ttl, max_ttl)
            && negotiated(ttl, max_ttl) <= ttl,
{
}

/// The seconds that are left have begun and been completed: they fit in the time
/// until the expiry, and one more would not. Nothing is left of what is expired.
pub proof fn seconds_left_are_whole(expiry_time: i64, now_ms: i64)
    ensures
        remaining_secs(expiry_time, now_ms) >= 0,
        expiry_time >= now_ms ==> now_ms + 1000 * remaining_secs(expiry_time, now_ms)
            <= expiry_time,
        now_ms + 1000 * (remaining_secs(expiry_time, now_ms) + 1) > expiry_time,
        expiry_time <= now_ms ==> remaining_secs(expiry_time, now_ms) == 0,
{
}

/// A session identifier is refused if and only if it is not positive.
pub proof fn only_positive_sessions(id: i64)
    ensures
        id_refusal(id) is None <==> id > 0,
        id_refusal(id) matches Some(said) ==> said.0 == crate::status::Code::InvalidArgument,
{
}

/// The time to live that a session is kept alive for is the one that its lease was
/// granted with; there is none without an active lease of a positive time.
pub proof fn sessions_live_as_granted(table: crate::lease::LeaseTable, id: i64, ttl: i64)
    ensures
        granted_ttl_of(table, id) == Some(ttl) <==> {
            &&& table.leases.contains_key(id)
            &&& table.leases[id].granted_ttl == ttl
            &&& ttl > 0
        },
{
}

/// The leader that is named is the first member with the leader's identifier, and
/// none is named if and only if there is no such member.
pub proof fn named_leader_leads(
    members: Seq<ClusterMember>,
    leader_id: Option<NodeId>,
    n: nat,
)
    requires
        n <= members.len(),
    ensures
        match leader_addr(members, leader_id, n) {
            Some(addr) => exists|i: int|
                {
                    &&& 0 <= i < n
                    &&& leader_id == Some((#[trigger] members[i]).id)
                    &&& members[i].addr@ == addr
                    &&& forall|j: int| 0 <= j < i ==> leader_id != Some((#[trigger] members[j]).id)
                },
            None => forall|i: int| 0 <= i < n ==> leader_id != Some((#[trigger] members[i]).id),
        },
    decreases n,
{
    if n > 0 {
        named_leader_leads(members, leader_id, (n - 1) as nat);
        if leader_addr(members, leader_id, (n - 1) as nat) is None && leader_id == Some(
            members[n - 1].id,
        ) {
            assert(members[n - 1].addr@ == leader_addr(members, leader_id, n)->Some_0);
        }
    }
}

/// Every answer is headed with the node that gives it and the term it is given in,
/// and with no cluster and no revision.
pub proof fn answers_name_node_and_term(service: SessionService, term: u64)
    ensures
        service.header_in(term).member_id == service.node(),
        service.header_in(term).raft_term == term,
        service.header_in(term).cluster_id == 0,
        service.header_in(term).revision == 0,
{
}

/// A session that is not found is told with its identifier.
pub proof fn unknown_sessions_are_told(id: i64)
    ensures
        not_found_message(id) == "session not found: "@ + crate::text::decimal_signed(id as int),
{
}

} // verus!
