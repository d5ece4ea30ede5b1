//! Maintenance service: defragmentation, alarms and status.

use vstd::prelude::*;

use super::guard::require_root;
use crate::cluster::{AlarmManager, AlarmType};
use crate::proto::{
    AlarmAction, AlarmMember, AlarmRequest, AlarmResponse, DefragResponse, ResponseHeader,
    StatusResponse,
};
use crate::raft::{ClusterMember, NodeId};
use crate::status::Status;
use crate::text::{join2, text};

verus! {

/// What a node reports about itself.
pub struct NodeReport {
    pub leader: Option<NodeId>,
    pub raft_index: u64,
    pub raft_term: u64,
    pub raft_applied_index: u64,
    pub db_size: u64,
    pub db_in_use: u64,
}

/// A node is a learner among the members.
pub open spec fn learns(members: Seq<ClusterMember>, node_id: NodeId) -> bool {
    exists|i: int|
        0 <= i < members.len() && (#[trigger] members[i]).id == node_id && members[i].is_learner
}

/// The alarm type that a number stands for.
pub open spec fn alarm_of(number: i32) -> Option<AlarmType> {
    if number == 0 {
        Some(AlarmType::NoAlarm)
    } else if number == 1 {
        Some(AlarmType::NoSpace)
    } else if number == 2 {
        Some(AlarmType::Corrupt)
    } else {
        None
    }
}

/// With what a request about alarms is refused.
pub open spec fn alarm_refusal(req: AlarmRequest) -> Option<crate::status::Refusal> {
    if req.action is None {
        Some((crate::status::Code::InvalidArgument, "invalid alarm action"@))
    } else if alarm_of(req.alarm) is None {
        Some((crate::status::Code::InvalidArgument, "invalid alarm type"@))
    } else if req.action == Some(AlarmAction::Activate) && req.alarm == 0 {
        Some((crate::status::Code::InvalidArgument, "cannot activate ALARM_TYPE_NONE"@))
    } else if req.action == Some(AlarmAction::Acknowledge) && req.alarm == 0 {
        Some((crate::status::Code::InvalidArgument, "cannot acknowledge ALARM_TYPE_NONE"@))
    } else {
        None
    }
}

/// An alarm as clients see it.
pub open spec fn shown_alarm(alarm: (NodeId, AlarmType)) -> AlarmMember {
    AlarmMember { member_id: alarm.0, alarm: alarm.1.number() }
}

/// The alarms as clients see them: each once.
pub open spec fn shows_alarms(alarms: Set<(NodeId, AlarmType)>, shown: Seq<AlarmMember>) -> bool {
    exists|list: Seq<(NodeId, AlarmType)>|
        {
            &&& list.no_duplicates()
            &&& #[trigger] list.to_set() == alarms
            &&& shown == list.map_values(|a: (NodeId, AlarmType)| shown_alarm(a))
        }
}

/// Maintenance service providing defrag, alarm, and status operations.
pub struct MaintenanceService {
    node_id: NodeId,
}

impl MaintenanceService {
    /// The node that the service answers for.
    pub closed spec fn node(&self) -> NodeId {
        self.node_id
    }

    /// The header of the answers in a term.
    pub open spec fn header_in(&self, term: u64) -> ResponseHeader {
        ResponseHeader { cluster_id: 0, member_id: self.node(), revision: 0, raft_term: term }
    }

    pub fn new(node_id: NodeId) -> (r: Self)
        ensures
            r.node() == node_id,
    {
        MaintenanceService { node_id }
    }

    fn header(&self, term: u64) -> (r: ResponseHeader)
        ensures
            r == self.header_in(term),
    {
        ResponseHeader { cluster_id: 0, member_id: self.node_id, revision: 0, raft_term: term }
    }

    /// What is answered when storage was defragmented or was not: the outer error
    /// is one of the task, the inner one of storage.
    pub fn defrag_response(&self, term: u64, done: Result<Result<(), String>, String>) -> (r: Result<
        DefragResponse,
        Status,
    >)
        ensures
            match done {
                Ok(Ok(_)) => r == Ok::<DefragResponse, Status>(
                    DefragResponse { header: Some(self.header_in(term)) },
                ),
                Ok(Err(error)) => r is Err && r->Err_0.says(
                    (crate::status::Code::Internal, "defrag failed: "@ + error@),
                ),
                Err(error) => r is Err && r->Err_0.says(
                    (crate::status::Code::Internal, "defrag task failed: "@ + error@),
                ),
            },
    {
        match done {
            Ok(Ok(_)) => Ok(DefragResponse { header: Some(self.header(term)) }),
            Ok(Err(error)) => Err(
                Status::internal(join2("defrag failed: ", error.as_str()).as_str()),
            ),
            Err(error) => Err(
                Status::internal(join2("defrag task failed: ", error.as_str()).as_str()),
            ),
        }
    }

    /// Lists, activates or acknowledges alarms. An acknowledgement without a member
    /// is for this node.
    pub fn alarm(
        &self,
        auth_enabled: bool,
        username: Option<&str>,
        term: u64,
        req: &AlarmRequest,
        alarms: &mut AlarmManager,
    ) -> (r: Result<AlarmResponse, Status>)
        requires
            old(alarms).wf(),
        ensures
            final(alarms).wf(),
            crate::status::answers(
                r,
                super::kv::first_refusal(
                    super::guard::root_refusal(auth_enabled, super::kv::name_of(username)),
                    alarm_refusal(*req),
                ),
            ),
            r is Err ==> final(alarms)@ == old(alarms)@,
            r matches Ok(resp) ==> {
                &&& resp.header == Some(self.header_in(term))
                &&& match req.action->Some_0 {
                    AlarmAction::Get => final(alarms)@ == old(alarms)@ && shows_alarms(
                        old(alarms)@,
                        resp.alarms@,
                    ),
                    AlarmAction::Activate => final(alarms)@ == old(alarms)@.insert(
                        (self.node(), alarm_of(req.alarm)->Some_0),
                    ) && resp.alarms@ == seq![
                        AlarmMember { member_id: self.node(), alarm: req.alarm },
                    ],
                    AlarmAction::Acknowledge => final(alarms)@
                        == crate::cluster::alarm::acknowledged(
                        old(alarms)@,
                        if req.member_id != 0 {
                            req.member_id
                        } else {
                            self.node()
                        },
                        alarm_of(req.alarm)->Some_0,
                    ) && resp.alarms@ == Seq::<AlarmMember>::empty(),
                }
            },
    {
        if let Err(status) = require_root(auth_enabled, username) {
            return Err(status);
        }
        let action = match req.action {
            Some(action) => action,
            None => {
                return Err(Status::invalid_argument("invalid alarm action"));
            },
        };
        let alarm_type = match AlarmType::from_proto(req.alarm) {
            Some(alarm_type) => alarm_type,
            None => {
                proof {
                    assert(AlarmType::NoAlarm.number() != req.alarm);
                    assert(AlarmType::NoSpace.number() != req.alarm);
                    assert(AlarmType::Corrupt.number() != req.alarm);
                }
                return Err(Status::invalid_argument("invalid alarm type"));
            },
        };
        assert(alarm_of(req.alarm) == Some(alarm_type));
        match action {
            AlarmAction::Get => {
                let list = alarms.get_all();
                let mut shown: Vec<AlarmMember> = Vec::new();
                let mut i: usize = 0;
                while i < list.len()
                    invariant
                        i <= list.len(),
                        shown@.len() == i,
                        forall|j: int| 0 <= j < i ==> #[trigger] shown@[j] == shown_alarm(list@[j]),
                    decreases list.len() - i,
                {
                    shown.push(AlarmMember { member_id: list[i].0, alarm: list[i].1.to_proto() });
                    i = i + 1;
                }
                proof {
                    assert(shown@ =~= list@.map_values(
                        |a: (NodeId, AlarmType)| shown_alarm(a),
                    ));
                    assert(list@.to_set() == old(alarms)@);
                }
                Ok(AlarmResponse { header: Some(self.header(term)), alarms: shown })
            },
            AlarmAction::Activate => {
                if alarm_type == AlarmType::NoAlarm {
                    return Err(Status::invalid_argument("cannot activate ALARM_TYPE_NONE"));
                }
                alarms.activate(self.node_id, alarm_type);
                let mut shown: Vec<AlarmMember> = Vec::new();
                shown.push(
                    AlarmMember { member_id: self.node_id, alarm: alarm_type.to_proto() },
                );
                assert(shown@ =~= seq![AlarmMember { member_id: self.node(), alarm: req.alarm }]);
                Ok(AlarmResponse { header: Some(self.header(term)), alarms: shown })
            },
            AlarmAction::Acknowledge => {
                if alarm_type == AlarmType::NoAlarm {
                    return Err(Status::invalid_argument("cannot acknowledge ALARM_TYPE_NONE"));
                }
                let member_id: NodeId = if req.member_id != 0 {
                    req.member_id
                } else {
                    self.node_id
                };
                alarms.acknowledge(member_id, alarm_type);
                Ok(AlarmResponse { header: Some(self.header(term)), alarms: Vec::new() })
            },
        }
    }

    /// The status of the node.
    pub fn status(
        &self,
        auth_enabled: bool,
        username: Option<&str>,
        version: &str,
        report: &NodeReport,
        members: &Vec<ClusterMember>,
    ) -> (r: Result<StatusResponse, Status>)
        ensures
            crate::status::answers(
                r,
                super::guard::root_refusal(auth_enabled, super::kv::name_of(username)),
            ),
            r matches Ok(resp) ==> {
                &&& resp.header == Some(self.header_in(report.raft_term))
                &&& resp.version@ == version@
                &&& resp.leader == match report.leader {
                    Some(id) => id,
                    None => 0,
                }
                &&& resp.raft_index == report.raft_index
                &&& resp.raft_term == report.raft_term
                &&& resp.raft_applied_index == report.raft_applied_index
                &&& resp.db_size == report.db_size
                &&& resp.db_in_use == report.db_in_use
                &&& resp.is_learner == learns(members@, self.node())
            },
    {
        if let Err(status) = require_root(auth_enabled, username) {
            return Err(status);
        }
        let leader: NodeId = match report.leader {
            Some(id) => id,
            None => 0,
        };
        let mut is_learner = false;
        let mut i: usize = 0;
        while i < members.len()
            invariant
                i <= members.len(),
                is_learner == exists|j: int|
                    0 <= j < i && (#[trigger] members@[j]).id == self.node()
                        && members@[j].is_learner,
            decreases members.len() - i,
        {
            if members[i].id == self.node_id && members[i].is_learner {
                is_learner = true;
                assert(members@[i as int].is_learner);
            }
            i = i + 1;
        }
        Ok(
            StatusResponse {
                header: Some(self.header(report.raft_term)),
                version: text(version),
                db_size: report.db_size,
                leader,
                raft_index: report.raft_index,
                raft_term: report.raft_term,
                raft_applied_index: report.raft_applied_index,
                db_in_use: report.db_in_use,
                is_learner,
            },
        )
    }
}

/// Each alarm type has its own number, and no other number stands for an alarm.
pub proof fn numbers_of_alarms(number: i32)
    ensures
        alarm_of(number) == Some(AlarmType::NoAlarm) <==> number == 0,
        alarm_of(number) == Some(AlarmType::NoSpace) <==> number == 1,
        alarm_of(number) == Some(AlarmType::Corrupt) <==> number == 2,
        alarm_of(number) is None <==> number < 0 || number > 2,
        AlarmType::NoAlarm.number() == 0,
        AlarmType::NoSpace.number() == 1,
        AlarmType::Corrupt.number() == 2,
{
}

/// A request about alarms is accepted if and only if its action and its alarm type
/// are known, and it activates or acknowledges a real alarm.
pub proof fn accepted_alarm_requests(req: AlarmRequest)
    ensures
        alarm_refusal(req) is None <==> {
            &&& req.action is Some
            &&& 0 <= req.alarm <= 2
            &&& req.action->Some_0 is Get || req.alarm != 0
        },
        alarm_refusal(req) matches Some(said) ==> said.0 == crate::status::Code::InvalidArgument,
{
    match req.action {
        Some(AlarmAction::Get) => {},
        Some(AlarmAction::Activate) => {},
        Some(AlarmAction::Acknowledge) => {},
        None => {},
    }
}

/// An alarm is shown if and only if it is active, under its member and its number,
/// and never twice.
pub proof fn active_alarms_are_shown(
    alarms: Set<(NodeId, AlarmType)>,
    shown: Seq<AlarmMember>,
    member_id: NodeId,
    alarm_type: AlarmType,
)
    requires
        shows_alarms(alarms, shown),
    ensures
        ({
            let number: i32 = match alarm_type {
                AlarmType::NoAlarm => 0,
                AlarmType::NoSpace => 1,
                AlarmType::Corrupt => 2,
            };
            alarms.contains((member_id, alarm_type)) <==> exists|i: int|
                0 <= i < shown.len() && (#[trigger] shown[i]).member_id == member_id
                    && shown[i].alarm == number
        }),
        forall|i: int, j: int|
            0 <= i < j < shown.len() ==> (#[trigger] shown[i]).member_id != (
            #[trigger] shown[j]).member_id || shown[i].alarm != shown[j].alarm,
{
    let list = choose|list: Seq<(NodeId, AlarmType)>|
        {
            &&& list.no_duplicates()
            &&& #[trigger] list.to_set() == alarms
            &&& shown == list.map_values(|a: (NodeId, AlarmType)| shown_alarm(a))
        };
    assert forall|i: int| 0 <= i < list.len() implies #[trigger] shown[i] == shown_alarm(
        list[i],
    ) by {}
    let entry = (member_id, alarm_type);
    if alarms.contains(entry) {
        assert(list.to_set().contains(entry));
        let i = list.index_of(entry);
        assert(shown[i].member_id == member_id);
    }
    if exists|i: int|
        0 <= i < shown.len() && (#[trigger] shown[i]).member_id == member_id && shown[i].alarm
            == alarm_type.number() {
        let i = choose|i: int|
            0 <= i < shown.len() && (#[trigger] shown[i]).member_id == member_id && shown[i].alarm
                == alarm_type.number();
        crate::cluster::alarm::alarm_numbers_distinct(list[i].1, alarm_type);
        assert(list[i] == entry);
        assert(list.to_set().contains(entry));
    }
    assert forall|i: int, j: int| 0 <= i < j < shown.len() implies (#[trigger] shown[i]).member_id
        != (#[trigger] shown[j]).member_id || shown[i].alarm != shown[j].alarm by {
        crate::cluster::alarm::alarm_numbers_distinct(list[i].1, list[j].1);
        assert(list[i] != list[j]);
    }
}

/// A node learns if and only if one of the members with its identifier is a
/// learner.
pub proof fn learners_learn(members: Seq<ClusterMember>, node_id: NodeId)
    ensures
        !learns(members, node_id) <==> forall|i: int|
            0 <= i < members.len() ==> (#[trigger] members[i]).id == node_id
                ==> !members[i].is_learner,
{
}

/// Every answer is headed with the node that gives it and the term it is given in,
/// and with no cluster and no revision.
pub proof fn answers_name_node_and_term(service: MaintenanceService, term: u64)
    ensures
        service.header_in(term).member_id == service.node(),
        service.header_in(term).raft_term == term,
        service.header_in(term).cluster_id == 0,
        service.header_in(term).revision == 0,
{
}

} // verus!
