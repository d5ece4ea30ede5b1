//! Cluster-wide alarms.

use vstd::prelude::*;

use crate::raft::NodeId;

verus! {

/// Type of alarm.
#[derive(Debug, Clone, Copy, PartialEq, Eq, Structural, Hash)]
pub enum AlarmType {
    /// No alarm.
    NoAlarm,
    /// Space quota exceeded.
    NoSpace,
    /// Storage corruption detected.
    Corrupt,
}

impl AlarmType {
    /// The number of an alarm type in messages.
    pub open spec fn number(self) -> i32 {
        match self {
            AlarmType::NoAlarm => 0,
            AlarmType::NoSpace => 1,
            AlarmType::Corrupt => 2,
        }
    }

    /// Convert from the number in a message.
    pub fn from_proto(value: i32) -> (r: Option<Self>)
        ensures
            match r {
                Some(alarm) => alarm.number() == value,
                None => forall|alarm: AlarmType| #[trigger] alarm.number() != value,
            },
    {
        match value {
            0 => Some(AlarmType::NoAlarm),
            1 => Some(AlarmType::NoSpace),
            2 => Some(AlarmType::Corrupt),
            _ => None,
        }
    }

    /// Convert to the number in a message.
    pub fn to_proto(self) -> (r: i32)
        ensures
            r == self.number(),
    {
        match self {
            AlarmType::NoAlarm => 0,
            AlarmType::NoSpace => 1,
            AlarmType::Corrupt => 2,
        }
    }
}

/// Different alarm types have different numbers.
pub proof fn alarm_numbers_distinct(a: AlarmType, b: AlarmType)
    ensures
        a.number() == b.number() ==> a == b,
{
}

/// The alarms after one was dismissed for a member, or for all members if the
/// member is 0.
pub open spec fn acknowledged(
    alarms: Set<(NodeId, AlarmType)>,
    member_id: NodeId,
    alarm_type: AlarmType,
) -> Set<(NodeId, AlarmType)> {
    if alarm_type == AlarmType::NoAlarm {
        alarms
    } else if member_id == 0 {
        alarms.filter(|a: (NodeId, AlarmType)| a.1 != alarm_type)
    } else {
        alarms.remove((member_id, alarm_type))
    }
}

/// Manages cluster-wide alarms: which members have which alarms.
pub struct AlarmManager {
    /// Active alarms, each once.
    alarms: Vec<(NodeId, AlarmType)>,
}

impl View for AlarmManager {
    type V = Set<(NodeId, AlarmType)>;

    closed spec fn view(&self) -> Set<(NodeId, AlarmType)> {
        self.alarms@.to_set()
    }
}

impl AlarmManager {
    /// Every alarm is recorded once, and no alarm is no alarm.
    pub closed spec fn wf(&self) -> bool {
        &&& self.alarms@.no_duplicates()
        &&& forall|i: int|
            0 <= i < self.alarms@.len() ==> (#[trigger] self.alarms@[i]).1 != AlarmType::NoAlarm
    }

    /// No alarm is never recorded as an alarm.
    pub proof fn only_alarms(&self, member_id: NodeId)
        requires
            self.wf(),
        ensures
            !self@.contains((member_id, AlarmType::NoAlarm)),
    {
        let alarm = (member_id, AlarmType::NoAlarm);
        if self@.contains(alarm) {
            let i = self.alarms@.index_of(alarm);
            assert(self.alarms@[i] == alarm);
        }
    }

    /// A manager without alarms.
    pub fn new() -> (r: Self)
        ensures
            r.wf(),
            r@ == Set::<(NodeId, AlarmType)>::empty(),
    {
        let r = AlarmManager { alarms: Vec::new() };
        assert(r@ =~= Set::<(NodeId, AlarmType)>::empty());
        r
    }

    fn position(&self, member_id: NodeId, alarm_type: AlarmType) -> (r: Option<usize>)
        ensures
            match r {
                Some(i) => i < self.alarms@.len() && self.alarms@[i as int] == (
                    member_id,
                    alarm_type,
                ),
                None => !self.alarms@.contains((member_id, alarm_type)),
            },
    {
        let mut i: usize = 0;
        while i < self.alarms.len()
            invariant
                i <= self.alarms.len(),
                forall|j: int| 0 <= j < i ==> self.alarms@[j] != (member_id, alarm_type),
            decreases self.alarms.len() - i,
        {
            let alarm = self.alarms[i];
            if alarm.0 == member_id && alarm.1 == alarm_type {
                return Some(i);
            }
            i = i + 1;
        }
        None
    }

    /// Activate an alarm for a member. Returns `true` if this is a new alarm.
    pub fn activate(&mut self, member_id: NodeId, alarm_type: AlarmType) -> (r: bool)
        requires
            old(self).wf(),
        ensures
            final(self).wf(),
            r == (alarm_type != AlarmType::NoAlarm && !old(self)@.contains(
                (member_id, alarm_type),
            )),
            final(self)@ == if alarm_type == AlarmType::NoAlarm {
                old(self)@
            } else {
                old(self)@.insert((member_id, alarm_type))
            },
    {
        if alarm_type == AlarmType::NoAlarm {
            return false;
        }
        match self.position(member_id, alarm_type) {
            Some(_) => {
                assert(self@ =~= old(self)@.insert((member_id, alarm_type)));
                false
            },
            None => {
                proof {
                    self.alarms@.lemma_push_to_set_commute((member_id, alarm_type));
                }
                self.alarms.push((member_id, alarm_type));
                true
            },
        }
    }

    /// Acknowledge (dismiss) an alarm for a member.
    ///
    /// If `member_id` is 0, acknowledges the alarm for all members.
    pub fn acknowledge(&mut self, member_id: NodeId, alarm_type: AlarmType)
        requires
            old(self).wf(),
        ensures
            final(self).wf(),
            final(self)@ == acknowledged(old(self)@, member_id, alarm_type),
    {
        if alarm_type == AlarmType::NoAlarm {
            return ;
        }
        let mut kept: Vec<(NodeId, AlarmType)> = Vec::new();
        let mut i: usize = 0;
        let ghost all = self.alarms@;
        while i < self.alarms.len()
            invariant
                i <= self.alarms.len(),
                *self == *old(self),
                self.wf(),
                all == self.alarms@,
                alarm_type != AlarmType::NoAlarm,
                kept@.no_duplicates(),
                forall|a: (NodeId, AlarmType)| #[trigger]
                    kept@.contains(a) <==> all.take(i as int).contains(a) && !(a.1 == alarm_type
                        && (member_id == 0 || a.0 == member_id)),
            decreases self.alarms.len() - i,
        {
            let alarm = self.alarms[i];
            let ghost before = kept@;
            let goes = alarm.1 == alarm_type && (member_id == 0 || alarm.0 == member_id);
            if !goes {
                proof {
                    assert(!all.take(i as int).contains(alarm)) by {
                        if all.take(i as int).contains(alarm) {
                            let j = all.take(i as int).index_of(alarm);
                            assert(all[j] == alarm && j < i);
                        }
                    }
                    assert(!before.contains(alarm));
                }
                kept.push(alarm);
                assert forall|a: int, b: int| 0 <= a < kept@.len() && 0 <= b < kept@.len() && a != b
                    implies kept@[a] != kept@[b] by {
                    if a == before.len() {
                        assert(before.contains(before[b]));
                    } else if b == before.len() {
                        assert(before.contains(before[a]));
                    }
                }
            }
            proof {
                let (p, q) = (all.take(i as int), all.take(i + 1));
                assert(q =~= p.push(alarm));
                assert forall|a: (NodeId, AlarmType)| #[trigger] kept@.contains(a) <==> q.contains(
                    a,
                ) && !(a.1 == alarm_type && (member_id == 0 || a.0 == member_id)) by {
                    assert(q.contains(a) <==> p.contains(a) || a == alarm) by {
                        if p.contains(a) {
                            let j = p.index_of(a);
                            assert(q[j] == a);
                        }
                        assert(q[i as int] == alarm);
                        if q.contains(a) {
                            let j = q.index_of(a);
                            if j < i {
                                assert(p[j] == a);
                            }
                        }
                    }
                    if !goes {
                        assert(kept@.contains(a) <==> before.contains(a) || a == alarm) by {
                            if before.contains(a) {
                                let j = before.index_of(a);
                                assert(kept@[j] == a);
                            }
                            assert(kept@[before.len() as int] == alarm);
                            if kept@.contains(a) {
                                let j = kept@.index_of(a);
                                if j < before.len() {
                                    assert(before[j] == a);
                                }
                            }
                        }
                    }
                }
            }
            i = i + 1;
        }
        assert(all.take(i as int) =~= all);
        self.alarms = kept;
        proof {
            assert forall|j: int| 0 <= j < self.alarms@.len() implies (#[trigger] self.alarms@[j]).1
                != AlarmType::NoAlarm by {
                assert(kept@.contains(kept@[j]));
                let k = all.index_of(kept@[j]);
                assert(all[k] == kept@[j]);
            }
            assert(self@ =~= acknowledged(old(self)@, member_id, alarm_type));
        }
    }

    /// Get all active alarms as (member_id, alarm_type) pairs.
    pub fn get_all(&self) -> (r: Vec<(NodeId, AlarmType)>)
        requires
            self.wf(),
        ensures
            r@.no_duplicates(),
            r@.to_set() == self@,
    {
        let mut all: Vec<(NodeId, AlarmType)> = Vec::new();
        let mut i: usize = 0;
        while i < self.alarms.len()
            invariant
                i <= self.alarms.len(),
                all@ == self.alarms@.take(i as int),
            decreases self.alarms.len() - i,
        {
            all.push(self.alarms[i]);
            assert(all@ =~= self.alarms@.take(i + 1));
            i = i + 1;
        }
        assert(all@ =~= self.alarms@);
        all
    }

    /// Check if a specific alarm is active for a member.
    pub fn has_alarm(&self, member_id: NodeId, alarm_type: AlarmType) -> (r: bool)
        requires
            self.wf(),
        ensures
            r == self@.contains((member_id, alarm_type)),
    {
        self.position(member_id, alarm_type).is_some()
    }
}

impl Default for AlarmManager {
    fn default() -> (r: Self)
        ensures
            r.wf(),
            r@ == Set::<(NodeId, AlarmType)>::empty(),
    {
        Self::new()
    }
}

/// An alarm that was activated is active until it is acknowledged, for its member
/// or for all members; alarms of other types stay.
pub proof fn alarm_life(
    alarms: Set<(NodeId, AlarmType)>,
    member_id: NodeId,
    alarm_type: AlarmType,
    other: (NodeId, AlarmType),
)
    requires
        alarm_type != AlarmType::NoAlarm,
    ensures
        ({
            let active = alarms.insert((member_id, alarm_type));
            &&& active.contains((member_id, alarm_type))
            &&& !acknowledged(active, member_id, alarm_type).contains((member_id, alarm_type))
            &&& !acknowledged(active, 0, alarm_type).contains((member_id, alarm_type))
            &&& other.1 != alarm_type ==> acknowledged(active, member_id, alarm_type).contains(other)
                == alarms.contains(other)
            &&& other.0 != member_id && member_id != 0 ==> acknowledged(
                active,
                member_id,
                alarm_type,
            ).contains(other) == alarms.contains(other)
        }),
{
}

/// Acknowledging an alarm of a member ends that alarm of that member, and without
/// a member that alarm of all members; every other alarm stays.
pub proof fn acknowledging_ends_one_type(
    alarms: Set<(NodeId, AlarmType)>,
    member_id: NodeId,
    alarm_type: AlarmType,
    other: NodeId,
    other_type: AlarmType,
)
    ensures
        acknowledged(alarms, member_id, alarm_type).contains((other, other_type)) <==> {
            &&& alarms.contains((other, other_type))
            &&& other_type != alarm_type || alarm_type is NoAlarm || (member_id != 0 && other
                != member_id)
        },
{
}

} // verus!
