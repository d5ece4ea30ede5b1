//! Cluster membership service.

use vstd::prelude::*;

use super::guard::require_root;
use crate::proto::{
    Member, MemberAddRequest, MemberAddResponse, MemberListResponse, MemberRemoveRequest,
    MemberRemoveResponse, ResponseHeader,
};
use crate::raft::{ClusterMember, NodeId};
use crate::status::Status;
use crate::text::{join2, text};

verus! {

/// The identifiers of members.
pub open spec fn ids(members: Seq<ClusterMember>) -> Seq<NodeId> {
    members.map_values(|m: ClusterMember| m.id)
}

/// A member as clients see it.
pub open spec fn shows(m: ClusterMember, shown: Member) -> bool {
    &&& shown.id == m.id
    &&& shown.addr@ == m.addr@
    &&& !shown.is_learner
    &&& shown.data@ == Seq::<char>::empty()
}

/// Members as clients see them, one for one.
pub open spec fn shows_all(members: Seq<ClusterMember>, shown: Seq<Member>) -> bool {
    &&& shown.len() == members.len()
    &&& forall|i: int| 0 <= i < members.len() ==> shows(#[trigger] members[i], shown[i])
}

/// The identifier of a new member is one more than the largest there is, and 1
/// in an empty cluster.
pub open spec fn is_next_id(members: Seq<ClusterMember>, id: int) -> bool {
    &&& forall|i: int| 0 <= i < members.len() ==> (#[trigger] members[i]).id < id
    &&& (id == 1 || exists|i: int|
        0 <= i < members.len() && (#[trigger] members[i]).id == id - 1)
}

/// Cluster membership service
pub struct ClusterService {
    node_id: NodeId,
}

impl ClusterService {
    /// The node that the service answers for.
    pub closed spec fn node(&self) -> NodeId {
        self.node_id
    }

    /// The header of the answers.
    pub open spec fn header_of(&self) -> ResponseHeader {
        ResponseHeader { cluster_id: 0, member_id: self.node(), revision: 0, raft_term: 0 }
    }

    pub fn new(node_id: NodeId) -> (r: Self)
        ensures
            r.node() == node_id,
    {
        ClusterService { node_id }
    }

    fn header(&self) -> (r: ResponseHeader)
        ensures
            r == self.header_of(),
    {
        ResponseHeader { cluster_id: 0, member_id: self.node_id, revision: 0, raft_term: 0 }
    }

    /// The members as clients see them.
    pub fn list_members(members: &Vec<ClusterMember>) -> (r: Vec<Member>)
        ensures
            shows_all(members@, r@),
    {
        let mut out: Vec<Member> = Vec::new();
        let mut i: usize = 0;
        while i < members.len()
            invariant
                i <= members.len(),
                out@.len() == i,
                forall|j: int| 0 <= j < i ==> shows(#[trigger] members@[j], out@[j]),
            decreases members.len() - i,
        {
            out.push(
                Member {
                    id: members[i].id,
                    addr: text(members[i].addr.as_str()),
                    is_learner: false,
                    data: String::new(),
                },
            );
            i = i + 1;
        }
        out
    }

    /// The list of members.
    pub fn member_list(
        &self,
        auth_enabled: bool,
        username: Option<&str>,
        members: &Vec<ClusterMember>,
    ) -> (r: Result<MemberListResponse, Status>)
        ensures
            crate::status::answers(
                r,
                super::guard::root_refusal(auth_enabled, super::kv::name_of(username)),
            ),
            r matches Ok(resp) ==> resp.header == Some(self.header_of()) && shows_all(
                members@,
                resp.members@,
            ),
    {
        if let Err(status) = require_root(auth_enabled, username) {
            return Err(status);
        }
        Ok(MemberListResponse { header: Some(self.header()), members: Self::list_members(members) })
    }

    /// The identifier that a new member gets. `leadership` says whether this node
    /// leads.
    pub fn member_add(
        &self,
        auth_enabled: bool,
        username: Option<&str>,
        leadership: Result<(), Status>,
        req: &MemberAddRequest,
        members: &Vec<ClusterMember>,
    ) -> (r: Result<NodeId, Status>)
        requires
            forall|i: int| 0 <= i < members@.len() ==> (#[trigger] members@[i]).id < u64::MAX,
        ensures
            match super::guard::root_refusal(auth_enabled, super::kv::name_of(username)) {
                Some(refusal) => r is Err && r->Err_0.says(refusal),
                None => match leadership {
                    Err(status) => r is Err && r->Err_0 == status,
                    Ok(_) => if req.addr@.len() == 0 {
                        r is Err && r->Err_0.says(
                            (crate::status::Code::InvalidArgument, "addr must not be empty"@),
                        )
                    } else {
                        r is Ok && is_next_id(members@, r->Ok_0 as int)
                    },
                },
            },
    {
        if let Err(status) = require_root(auth_enabled, username) {
            return Err(status);
        }
        match leadership {
            Err(status) => {
                return Err(status);
            },
            Ok(()) => {},
        }
        if req.addr.as_str().is_empty() {
            return Err(Status::invalid_argument("addr must not be empty"));
        }
        let mut largest: u64 = 0;
        let mut i: usize = 0;
        while i < members.len()
            invariant
                i <= members.len(),
                largest < u64::MAX,
                forall|j: int| 0 <= j < members@.len() ==> (#[trigger] members@[j]).id < u64::MAX,
                forall|j: int| 0 <= j < i ==> (#[trigger] members@[j]).id <= largest,
                largest == 0 || exists|j: int|
                    0 <= j < i && (#[trigger] members@[j]).id == largest,
            decreases members.len() - i,
        {
            if members[i].id > largest {
                largest = members[i].id;
            }
            i = i + 1;
        }
        Ok(largest + 1)
    }

    /// The voters with a new member among them, if it is to be a voter.
    pub fn add_voters(
        req: &MemberAddRequest,
        members: &Vec<ClusterMember>,
        new_id: NodeId,
    ) -> (r: Option<Vec<NodeId>>)
        ensures
            match r {
                Some(voters) => !req.is_learner && voters@ == ids(members@).push(new_id),
                None => req.is_learner,
            },
    {
        if req.is_learner {
            return None;
        }
        let mut voters: Vec<NodeId> = Vec::new();
        let mut i: usize = 0;
        while i < members.len()
            invariant
                i <= members.len(),
                voters@ == ids(members@).take(i as int),
            decreases members.len() - i,
        {
            voters.push(members[i].id);
            assert(voters@ =~= ids(members@).take(i + 1));
            i = i + 1;
        }
        assert(voters@ =~= ids(members@));
        voters.push(new_id);
        Some(voters)
    }

    /// What is answered when a member was added, given the members then.
    pub fn member_add_response(
        &self,
        req: MemberAddRequest,
        new_id: NodeId,
        members: &Vec<ClusterMember>,
    ) -> (r: MemberAddResponse)
        ensures
            r.header == Some(self.header_of()),
            r.member matches Some(member) && member.id == new_id && member.addr == req.addr
                && member.is_learner == req.is_learner && member.data@ == Seq::<char>::empty(),
            shows_all(members@, r.members@),
    {
        let member = Member {
            id: new_id,
            addr: req.addr,
            is_learner: req.is_learner,
            data: String::new(),
        };
        MemberAddResponse {
            header: Some(self.header()),
            member: Some(member),
            members: Self::list_members(members),
        }
    }

    /// The voters that are left when a member is removed. `leadership` says
    /// whether this node leads.
    pub fn member_remove(
        &self,
        auth_enabled: bool,
        username: Option<&str>,
        leadership: Result<(), Status>,
        req: &MemberRemoveRequest,
        members: &Vec<ClusterMember>,
    ) -> (r: Result<Vec<NodeId>, Status>)
        ensures
            match super::guard::root_refusal(auth_enabled, super::kv::name_of(username)) {
                Some(refusal) => r is Err && r->Err_0.says(refusal),
                None => match leadership {
                    Err(status) => r is Err && r->Err_0 == status,
                    Ok(_) => crate::status::answers(
                        r,
                        if req.id == 0 {
                            Some(
                                (
                                    crate::status::Code::InvalidArgument,
                                    "member id must not be 0"@,
                                ),
                            )
                        } else if req.id == self.node() {
                            Some((crate::status::Code::InvalidArgument, "cannot remove self"@))
                        } else {
                            None
                        },
                    ),
                },
            },
            r matches Ok(voters) ==> voters@ == ids(members@).filter(|id: NodeId| id != req.id),
    {
        if let Err(status) = require_root(auth_enabled, username) {
            return Err(status);
        }
        match leadership {
            Err(status) => {
                return Err(status);
            },
            Ok(()) => {},
        }
        if req.id == 0 {
            return Err(Status::invalid_argument("member id must not be 0"));
        }
        if req.id == self.node_id {
            return Err(Status::invalid_argument("cannot remove self"));
        }
        let mut voters: Vec<NodeId> = Vec::new();
        let mut i: usize = 0;
        let ghost stays = |id: NodeId| id != req.id;
        proof {
            reveal(Seq::filter);
            assert(ids(members@).take(0) =~= Seq::empty());
        }
        while i < members.len()
            invariant
                i <= members.len(),
                stays == (|id: NodeId| id != req.id),
                voters@ == ids(members@).take(i as int).filter(stays),
            decreases members.len() - i,
        {
            proof {
                let before = ids(members@).take(i as int);
                let after = ids(members@).take(i + 1);
                assert(after =~= before.push(members@[i as int].id));
                before.lemma_filter_push(members@[i as int].id, stays);
            }
            let id: NodeId = members[i].id;
            if id != req.id {
                voters.push(id);
            }
            i = i + 1;
        }
        assert(ids(members@).take(i as int) =~= ids(members@));
        Ok(voters)
    }

    /// What is answered when a member was removed, given the members then.
    pub fn member_remove_response(&self, members: &Vec<ClusterMember>) -> (r: MemberRemoveResponse)
        ensures
            r.header == Some(self.header_of()),
            shows_all(members@, r.members@),
    {
        MemberRemoveResponse {
            header: Some(self.header()),
            members: Self::list_members(members),
        }
    }

    /// What is answered when a learner could not be added.
    pub fn add_learner_failed(error: &str) -> (r: Status)
        ensures
            r.says((crate::status::Code::Internal, "add_learner failed: "@ + error@)),
    {
        Status::internal(join2("add_learner failed: ", error).as_str())
    }

    /// What is answered when the voters could not be changed.
    pub fn change_membership_failed(error: &str) -> (r: Status)
        ensures
            r.says((crate::status::Code::Internal, "change_membership failed: "@ + error@)),
    {
        Status::internal(join2("change_membership failed: ", error).as_str())
    }
}

/// The identifier of a new member is nobody else's.
pub proof fn next_id_is_new(members: Seq<ClusterMember>, id: int)
    requires
        is_next_id(members, id),
    ensures
        forall|i: int| 0 <= i < members.len() ==> (#[trigger] members[i]).id != id,
        id >= 1,
{
}

/// The identifier of a new member is the smallest that is larger than all there
/// are.
pub proof fn next_id_is_the_smallest(members: Seq<ClusterMember>, id: int, other: int)
    requires
        is_next_id(members, id),
        other >= 1,
        forall|i: int| 0 <= i < members.len() ==> (#[trigger] members[i]).id < other,
    ensures
        1 <= id <= other,
{
}

/// Every member is shown in its place, with its own identifier and address.
pub proof fn members_are_shown(members: Seq<ClusterMember>, shown: Seq<Member>, i: int)
    requires
        shows_all(members, shown),
        0 <= i < members.len(),
    ensures
        shown.len() == members.len(),
        shown[i].id == members[i].id,
        shown[i].addr@ == members[i].addr@,
        ids(members).len() == members.len(),
        ids(members)[i] == members[i].id,
{
    assert(shows(members[i], shown[i]));
}

/// Every answer is headed with the node that gives it, and with no cluster, no
/// revision and no term.
pub proof fn answers_name_the_node(service: ClusterService)
    ensures
        service.header_of().member_id == service.node(),
        service.header_of().cluster_id == 0,
        service.header_of().revision == 0,
        service.header_of().raft_term == 0,
{
}

} // verus!
