//! Election service.

use vstd::prelude::*;
use vstd::slice::slice_subrange;

use super::guard::{unexpected, WaitOutcome, WatchPlan};
use crate::bytes::copy_bytes;
use crate::election::{
    election_key, election_name, validate_election_name, ElectionManager, MAX_ELECTION_NAME_LEN,
};
use crate::proto::{
    CampaignRequest, CampaignResponse, KeyValue, LeaderRequest, LeaderResponse, ObserveRequest,
    ObserveResponse, ResignRequest, ResignResponse, ResponseHeader,
};
use crate::raft::{RaftRequest, RaftResponse, WatchEventType, WatchResponse};
use crate::registry::LEASE_ID_SIZE;
use crate::status::Status;
use crate::text::{format_u64, join2, join3};

verus! {

/// Maximum value size for election campaign (64 KB).
pub const MAX_ELECTION_VALUE_SIZE: usize = 65536;

/// Maximum time to wait for leadership acquisition (30 seconds).
pub const CAMPAIGN_TIMEOUT_SECS: u64 = 30;

/// Why the watch of a campaign that is done is canceled.
pub const CAMPAIGN_DONE: &'static str = "campaign completed";

/// Why the watch of an observer who is gone is canceled.
pub const OBSERVER_GONE: &'static str = "client disconnected";

/// Why the watch of an observer is canceled when nothing comes any more.
pub const OBSERVE_ENDED: &'static str = "observe stream ended";

/// With what an election name is refused.
pub open spec fn name_refusal(name: Seq<u8>) -> Option<crate::status::Refusal> {
    match crate::names::fault(name, MAX_ELECTION_NAME_LEN as nat) {
        Some(fault) => Some(
            (crate::status::Code::InvalidArgument, crate::election::election_name_message(fault)),
        ),
        None => None,
    }
}

/// What is said of a value that is too large.
pub open spec fn size_message(size: nat, max: nat) -> Seq<char> {
    "value size "@ + crate::text::decimal(size) + " exceeds maximum "@ + crate::text::decimal(max)
}

/// The status for a value that is too large.
pub fn too_large(size: usize, max: usize) -> (r: Status)
    ensures
        r.says((crate::status::Code::InvalidArgument, size_message(size as nat, max as nat))),
{
    let head = join2("value size ", format_u64(size as u64).as_str());
    let all = join3(head.as_str(), " exceeds maximum ", format_u64(max as u64).as_str());
    Status::invalid_argument(all.as_str())
}

/// With what a campaign is refused.
pub open spec fn campaign_refusal(name: Seq<u8>, lease_id: i64, size: nat) -> Option<
    crate::status::Refusal,
> {
    if name_refusal(name) is Some {
        name_refusal(name)
    } else if lease_id <= 0 {
        Some((crate::status::Code::InvalidArgument, "lease_id must be positive"@))
    } else if size > MAX_ELECTION_VALUE_SIZE {
        Some(
            (
                crate::status::Code::InvalidArgument,
                size_message(size, MAX_ELECTION_VALUE_SIZE as nat),
            ),
        )
    } else {
        None
    }
}

/// What is said when no leader resigned in time.
pub open spec fn timeout_message() -> Seq<char> {
    "campaign timed out after "@ + crate::text::decimal(CAMPAIGN_TIMEOUT_SECS as nat)
        + " seconds: election already has a leader"@
}

/// A campaign for leadership, which waits while there is a leader.
pub struct Campaign {
    name: Vec<u8>,
    lease_id: i64,
    value: Vec<u8>,
}

/// What happened to a campaign.
pub enum CampaignEvent {
    /// It began.
    Begun,
    /// The watch is set up.
    Watching,
    /// The proposal was answered.
    Proposed(Result<RaftResponse, Status>),
    /// Waiting for the leader to go ended.
    Waited(WaitOutcome),
}

/// What a campaign does next.
pub enum CampaignStep {
    /// Set up a watch.
    Watch(WatchPlan),
    /// Propose the campaign.
    Propose(RaftRequest),
    /// Wait for the leader key to be deleted, no longer than so many seconds.
    AwaitDelete { secs: u64 },
    /// Be done, and cancel the watch if so told.
    Done { cancel_watch: bool, result: Result<Vec<u8>, Status> },
}

impl Campaign {
    /// The election.
    pub closed spec fn election(&self) -> Seq<u8> {
        self.name@
    }

    /// The lease that leadership is to have.
    pub closed spec fn lease(&self) -> i64 {
        self.lease_id
    }

    /// What the leader proclaims.
    pub closed spec fn proclaimed(&self) -> Seq<u8> {
        self.value@
    }

    /// The request proposes the campaign.
    pub open spec fn proposes(&self, request: RaftRequest) -> bool {
        match request {
            RaftRequest::ElectionCampaign { name, lease_id, value } => name@ == self.election()
                && lease_id == self.lease() && value@ == self.proclaimed(),
            _ => false,
        }
    }

    /// The plan watches deletes of the election key alone.
    pub open spec fn watches(&self, plan: WatchPlan) -> bool {
        &&& plan.key@ == crate::election::election_prefix() + self.election()
        &&& plan.range_end@ == Seq::<u8>::empty()
        &&& plan.filters@ == seq![WatchEventType::Delete]
        &&& !plan.prev_kv
    }

    /// What an event leads to. A proposal that failed leaves the watch as it is.
    pub open spec fn leads_to(&self, event: CampaignEvent, step: CampaignStep) -> bool {
        match event {
            CampaignEvent::Begun => step is Watch && self.watches(step->Watch_0),
            CampaignEvent::Watching => step is Propose && self.proposes(step->Propose_0),
            CampaignEvent::Proposed(Ok(RaftResponse::ElectionCampaign { leader_key })) => step
                == (CampaignStep::Done { cancel_watch: true, result: Ok(leader_key) }),
            CampaignEvent::Proposed(Ok(RaftResponse::ElectionAlreadyHasLeader {  })) => step == (
            CampaignStep::AwaitDelete { secs: CAMPAIGN_TIMEOUT_SECS }),
            CampaignEvent::Proposed(Ok(resp)) => match step {
                CampaignStep::Done { cancel_watch, result: Err(status) } => cancel_watch
                    && status.says(super::guard::unexpected_refusal(resp)),
                _ => false,
            },
            CampaignEvent::Proposed(Err(status)) => step == (CampaignStep::Done {
                cancel_watch: false,
                result: Err(status),
            }),
            CampaignEvent::Waited(WaitOutcome::Deleted) => match step {
                CampaignStep::Propose(request) => self.proposes(request),
                _ => false,
            },
            CampaignEvent::Waited(WaitOutcome::Ended) => match step {
                CampaignStep::Done { cancel_watch, result: Err(status) } => cancel_watch
                    && status.says(
                    (crate::status::Code::Internal, "watch canceled unexpectedly"@),
                ),
                _ => false,
            },
            CampaignEvent::Waited(WaitOutcome::TimedOut) => match step {
                CampaignStep::Done { cancel_watch, result: Err(status) } => cancel_watch
                    && status.says((crate::status::Code::DeadlineExceeded, timeout_message())),
                _ => false,
            },
        }
    }

    /// A campaign for leadership.
    pub fn new(name: Vec<u8>, lease_id: i64, value: Vec<u8>) -> (r: Self)
        ensures
            r.election() == name@,
            r.lease() == lease_id,
            r.proclaimed() == value@,
    {
        Campaign { name, lease_id, value }
    }

    /// The watch that is set up before the first proposal, so that no resignation
    /// is missed: deletes of the election key alone.
    fn watch(&self) -> (r: WatchPlan)
        ensures
            self.watches(r),
    {
        let mut filters: Vec<WatchEventType> = Vec::new();
        filters.push(WatchEventType::Delete);
        assert(filters@ =~= seq![WatchEventType::Delete]);
        WatchPlan {
            key: election_key(self.name.as_slice()),
            range_end: Vec::new(),
            filters,
            prev_kv: false,
        }
    }

    /// What is proposed, at first and each time the leader went.
    fn proposal(&self) -> (r: RaftRequest)
        ensures
            self.proposes(r),
    {
        RaftRequest::ElectionCampaign {
            name: copy_bytes(self.name.as_slice()),
            lease_id: self.lease_id,
            value: copy_bytes(self.value.as_slice()),
        }
    }

    /// What is done after an event.
    pub fn step(&self, event: CampaignEvent) -> (r: CampaignStep)
        ensures
            self.leads_to(event, r),
    {
        match event {
            CampaignEvent::Begun => CampaignStep::Watch(self.watch()),
            CampaignEvent::Watching => CampaignStep::Propose(self.proposal()),
            CampaignEvent::Proposed(Ok(RaftResponse::ElectionCampaign { leader_key })) => {
                CampaignStep::Done { cancel_watch: true, result: Ok(leader_key) }
            },
            CampaignEvent::Proposed(Ok(RaftResponse::ElectionAlreadyHasLeader {  })) => {
                CampaignStep::AwaitDelete { secs: CAMPAIGN_TIMEOUT_SECS }
            },
            CampaignEvent::Proposed(Ok(resp)) => CampaignStep::Done {
                cancel_watch: true,
                result: Err(unexpected(resp)),
            },
            CampaignEvent::Proposed(Err(status)) => CampaignStep::Done {
                cancel_watch: false,
                result: Err(status),
            },
            CampaignEvent::Waited(WaitOutcome::Deleted) => CampaignStep::Propose(self.proposal()),
            CampaignEvent::Waited(WaitOutcome::Ended) => CampaignStep::Done {
                cancel_watch: true,
                result: Err(Status::internal("watch canceled unexpectedly")),
            },
            CampaignEvent::Waited(WaitOutcome::TimedOut) => {
                let message = join3(
                    "campaign timed out after ",
                    format_u64(CAMPAIGN_TIMEOUT_SECS).as_str(),
                    " seconds: election already has a leader",
                );
                CampaignStep::Done {
                    cancel_watch: true,
                    result: Err(Status::deadline_exceeded(message.as_str())),
                }
            },
        }
    }

    /// A campaign succeeds only with a key that the state machine gave for this
    /// campaign, waits only while there is a leader, proposes only with the watch set
    /// up, and proposes again only after the leader went.
    pub proof fn succeeds_only_as_elected(&self, event: CampaignEvent, step: CampaignStep)
        requires
            self.leads_to(event, step),
        ensures
            step matches CampaignStep::Done { result: Ok(key), .. } ==> event
                == CampaignEvent::Proposed(
                Ok(RaftResponse::ElectionCampaign { leader_key: key }),
            ),
            step is AwaitDelete ==> event == CampaignEvent::Proposed(
                Ok(RaftResponse::ElectionAlreadyHasLeader {  }),
            ),
            step is Propose ==> (event is Watching || event == CampaignEvent::Waited(
                WaitOutcome::Deleted,
            )) && self.proposes(step->Propose_0),
            step is Watch ==> event is Begun,
    {
    }
}

/// What the leader proclaims, out of what is stored under the leader key: what
/// follows the lease.
pub open spec fn proclaimed_in(stored: Option<Seq<u8>>) -> Seq<u8> {
    match stored {
        Some(value) => if value.len() > LEASE_ID_SIZE {
            value.skip(LEASE_ID_SIZE as int)
        } else {
            Seq::empty()
        },
        None => Seq::empty(),
    }
}

/// What a leader proclaims reads back from how it is stored.
pub proof fn proclaimed_reads_back(lease_id: i64, value: Seq<u8>)
    ensures
        proclaimed_in(Some(crate::registry::stored_value(lease_id, value))) == value,
{
    crate::bytes::i64_round_trip(lease_id, value);
    let stored = crate::registry::stored_value(lease_id, value);
    assert(stored.skip(LEASE_ID_SIZE as int) =~= value);
    if value.len() == 0 {
        assert(value =~= Seq::<u8>::empty());
    }
}

/// The election service of a node.
pub struct ElectionService {
    node_id: u64,
}

impl ElectionService {
    /// The node that the service answers for.
    pub closed spec fn node(&self) -> u64 {
        self.node_id
    }

    /// The header of the answers in a term.
    pub open spec fn header_in(&self, term: u64) -> ResponseHeader {
        ResponseHeader { cluster_id: 0, member_id: self.node(), revision: 0, raft_term: term }
    }

    pub fn new(node_id: u64) -> (r: Self)
        ensures
            r.node() == node_id,
    {
        ElectionService { node_id }
    }

    fn header(&self, term: u64) -> (r: ResponseHeader)
        ensures
            r == self.header_in(term),
    {
        ResponseHeader { cluster_id: 0, member_id: self.node_id, revision: 0, raft_term: term }
    }

    /// Get the leader's value from what is stored under the leader key.
    pub fn get_leader_value(stored: &Option<Vec<u8>>) -> (r: Vec<u8>)
        ensures
            r@ == proclaimed_in(crate::lease::store::opt_view(*stored)),
    {
        match stored {
            Some(value) => {
                if value.len() > LEASE_ID_SIZE {
                    let rest = slice_subrange(value.as_slice(), LEASE_ID_SIZE, value.len());
                    assert(rest@ =~= value@.skip(LEASE_ID_SIZE as int));
                    copy_bytes(rest)
                } else {
                    Vec::new()
                }
            },
            None => Vec::new(),
        }
    }

    /// Build the answer for a leader out of what is stored under the leader key.
    pub fn build_leader_kv(key: Vec<u8>, lease_id: i64, stored: &Option<Vec<u8>>) -> (r: KeyValue)
        ensures
            r.key == key,
            r.value@ == proclaimed_in(crate::lease::store::opt_view(*stored)),
            r.create_revision == 0,
            r.mod_revision == 0,
            r.version == 1,
            r.lease == lease_id,
    {
        KeyValue {
            key,
            value: Self::get_leader_value(stored),
            create_revision: 0,
            mod_revision: 0,
            version: 1,
            lease: lease_id,
        }
    }

    /// The campaign that a request begins.
    pub fn campaign(&self, req: CampaignRequest) -> (r: Result<Campaign, Status>)
        ensures
            crate::status::answers(
                r,
                campaign_refusal(req.name@, req.lease_id, req.value@.len()),
            ),
            r matches Ok(campaign) ==> campaign.election() == req.name@ && campaign.lease()
                == req.lease_id && campaign.proclaimed() == req.value@,
    {
        if let Err(message) = validate_election_name(req.name.as_slice()) {
            return Err(Status::invalid_argument(message));
        }
        if req.lease_id <= 0 {
            return Err(Status::invalid_argument("lease_id must be positive"));
        }
        if req.value.len() > MAX_ELECTION_VALUE_SIZE {
            return Err(too_large(req.value.len(), MAX_ELECTION_VALUE_SIZE));
        }
        Ok(Campaign::new(req.name, req.lease_id, req.value))
    }

    /// What a campaign that was won is answered.
    pub fn campaign_response(&self, term: u64, leader_key: Vec<u8>) -> (r: CampaignResponse)
        ensures
            r == (CampaignResponse { header: Some(self.header_in(term)), leader_key }),
    {
        CampaignResponse { header: Some(self.header(term)), leader_key }
    }

    /// The leader key of an election and its lease. `leadership` says whether this
    /// node leads.
    pub fn leader(
        &self,
        leadership: Result<(), Status>,
        manager: &ElectionManager,
        req: &LeaderRequest,
    ) -> (r: Result<Option<(Vec<u8>, i64)>, Status>)
        requires
            manager.wf(),
        ensures
            name_refusal(req.name@) is Some ==> crate::status::answers(r, name_refusal(req.name@)),
            name_refusal(req.name@) is None ==> match leadership {
                Err(status) => r is Err && r->Err_0 == status,
                Ok(_) => r is Ok && leads(manager@, req.name@, r->Ok_0),
            },
    {
        if let Err(message) = validate_election_name(req.name.as_slice()) {
            return Err(Status::invalid_argument(message));
        }
        match leadership {
            Err(status) => {
                return Err(status);
            },
            Ok(()) => {},
        }
        Ok(find_leader(manager, req.name.as_slice()))
    }

    /// What a request for the leader is answered, given the leader key with its
    /// lease and what is stored under it.
    pub fn leader_response(
        &self,
        term: u64,
        found: Option<(Vec<u8>, i64)>,
        stored: &Option<Vec<u8>>,
    ) -> (r: LeaderResponse)
        ensures
            r.header == Some(self.header_in(term)),
            match found {
                None => r.kv is None,
                Some((key, lease_id)) => {
                    &&& r.kv matches Some(kv)
                    &&& kv.key == key
                    &&& kv.value@ == proclaimed_in(crate::lease::store::opt_view(*stored))
                    &&& kv.create_revision == 0 && kv.mod_revision == 0 && kv.version == 1
                    &&& kv.lease == lease_id
                },
            },
    {
        let kv = match found {
            Some((key, lease_id)) => Some(Self::build_leader_kv(key, lease_id, stored)),
            None => None,
        };
        LeaderResponse { header: Some(self.header(term)), kv }
    }

    /// What is proposed for a resignation.
    pub fn resign_request(&self, req: ResignRequest) -> (r: Result<RaftRequest, Status>)
        ensures
            crate::status::answers(
                r,
                if req.leader_key@.len() == 0 {
                    Some((crate::status::Code::InvalidArgument, "leader_key must not be empty"@))
                } else if !crate::election::election_prefix().is_prefix_of(req.leader_key@) {
                    Some((crate::status::Code::InvalidArgument, "key is not an election key"@))
                } else {
                    None
                },
            ),
            r matches Ok(request) ==> request == (RaftRequest::ElectionResign {
                leader_key: req.leader_key,
            }),
    {
        if req.leader_key.len() == 0 {
            return Err(Status::invalid_argument("leader_key must not be empty"));
        }
        match election_name(req.leader_key.as_slice()) {
            None => {
                return Err(Status::invalid_argument("key is not an election key"));
            },
            Some(name) => {
                assert(req.leader_key@.subrange(
                    0,
                    crate::election::election_prefix().len() as int,
                ) =~= crate::election::election_prefix());
            },
        }
        Ok(RaftRequest::ElectionResign { leader_key: req.leader_key })
    }

    /// What a resignation is answered.
    pub fn resign_response(&self, term: u64, resp: RaftResponse) -> (r: Result<
        ResignResponse,
        Status,
    >)
        ensures
            match resp {
                RaftResponse::ElectionResign {  } => r == Ok::<ResignResponse, Status>(
                    ResignResponse { header: Some(self.header_in(term)) },
                ),
                RaftResponse::ElectionResignNotFound {  } => r is Err && r->Err_0.says(
                    (crate::status::Code::NotFound, "leader key not found"@),
                ),
                _ => r is Err && r->Err_0.says(super::guard::unexpected_refusal(resp)),
            },
    {
        match resp {
            RaftResponse::ElectionResign {  } => Ok(
                ResignResponse { header: Some(self.header(term)) },
            ),
            RaftResponse::ElectionResignNotFound {  } => Err(
                Status::not_found("leader key not found"),
            ),
            other => Err(unexpected(other)),
        }
    }

    /// What an observer is told at first: the leader at this time, without what it
    /// proclaims. `leadership` says whether this node leads.
    pub fn observe_start(
        &self,
        term: u64,
        leadership: Result<(), Status>,
        manager: &ElectionManager,
        req: &ObserveRequest,
    ) -> (r: Result<ObserveResponse, Status>)
        requires
            manager.wf(),
        ensures
            name_refusal(req.name@) is Some ==> crate::status::answers(r, name_refusal(req.name@)),
            name_refusal(req.name@) is None ==> match leadership {
                Err(status) => r is Err && r->Err_0 == status,
                Ok(_) => r is Ok && r->Ok_0.header == Some(self.header_in(term))
                    && first_observed(manager@, req.name@, r->Ok_0.kv),
            },
    {
        if let Err(message) = validate_election_name(req.name.as_slice()) {
            return Err(Status::invalid_argument(message));
        }
        match leadership {
            Err(status) => {
                return Err(status);
            },
            Ok(()) => {},
        }
        let kv = match find_leader(manager, req.name.as_slice()) {
            Some((key, lease_id)) => Some(
                KeyValue {
                    key,
                    value: Vec::new(),
                    create_revision: 0,
                    mod_revision: 0,
                    version: 1,
                    lease: lease_id,
                },
            ),
            None => None,
        };
        Ok(ObserveResponse { header: Some(self.header(term)), kv })
    }

    /// The watch of an observer: puts and deletes of the election key alone.
    pub fn observe_watch(name: &[u8]) -> (r: WatchPlan)
        ensures
            r.key@ == crate::election::election_prefix() + name@,
            r.range_end@ == Seq::<u8>::empty(),
            r.filters@ == seq![WatchEventType::Put, WatchEventType::Delete],
            r.prev_kv,
    {
        let mut filters: Vec<WatchEventType> = Vec::new();
        filters.push(WatchEventType::Put);
        filters.push(WatchEventType::Delete);
        assert(filters@ =~= seq![WatchEventType::Put, WatchEventType::Delete]);
        WatchPlan { key: election_key(name), range_end: Vec::new(), filters, prev_kv: true }
    }

    /// What an observer is told of one delivery of the watch: every event in turn,
    /// without a header. A delivery that ends the watch tells nothing.
    pub fn observe_events(delivery: WatchResponse) -> (r: Option<Vec<ObserveResponse>>)
        ensures
            match r {
                None => delivery.canceled,
                Some(list) => !delivery.canceled && list@ == delivery.events@.map_values(
                    |e: crate::raft::WatchEvent| observed(e),
                ),
            },
    {
        if delivery.canceled {
            return None;
        }
        let mut out: Vec<ObserveResponse> = Vec::new();
        for event in iter: delivery.events
            invariant
                out@.len() == iter.index(),
                forall|j: int| 0 <= j < out@.len() ==> #[trigger] out@[j] == observed(iter.seq()[j]),
        {
            out.push(
                ObserveResponse { header: None, kv: Some(super::kv::convert_kv(event.kv)) },
            );
        }
        assert(out@ =~= delivery.events@.map_values(|e: crate::raft::WatchEvent| observed(e)));
        Some(out)
    }
}

/// What an observer is told of an event.
pub open spec fn observed(event: crate::raft::WatchEvent) -> ObserveResponse {
    ObserveResponse { header: None, kv: Some(super::kv::proto_kv(event.kv)) }
}

/// The leader key of an election and its lease, 0 without one.
pub open spec fn leads(
    h: crate::registry::Holdings,
    name: Seq<u8>,
    found: Option<(Vec<u8>, i64)>,
) -> bool {
    match found {
        Some((key, lease_id)) => {
            &&& h.by_name.contains_key(name)
            &&& key@ == h.by_name[name]
            &&& lease_id == h.lease_or_zero(key@)
        },
        None => !h.by_name.contains_key(name),
    }
}

/// What an observer is told at first of the leader.
pub open spec fn first_observed(
    h: crate::registry::Holdings,
    name: Seq<u8>,
    kv: Option<KeyValue>,
) -> bool {
    match kv {
        Some(kv) => {
            &&& h.by_name.contains_key(name)
            &&& kv.key@ == h.by_name[name]
            &&& kv.value@ == Seq::<u8>::empty()
            &&& kv.create_revision == 0
            &&& kv.mod_revision == 0
            &&& kv.version == 1
            &&& kv.lease == h.lease_or_zero(kv.key@)
        },
        None => !h.by_name.contains_key(name),
    }
}

fn find_leader(manager: &ElectionManager, name: &[u8]) -> (r: Option<(Vec<u8>, i64)>)
    requires
        manager.wf(),
    ensures
        leads(manager@, name@, r),
{
    match manager.get_leader_key(name) {
        Some(found) => {
            let key = copy_bytes(found);
            let lease_id: i64 = match manager.get_lease_id(key.as_slice()) {
                Some(lease_id) => lease_id,
                None => 0,
            };
            Some((key, lease_id))
        },
        None => None,
    }
}

/// A campaign is accepted if and only if its election has a name of 1 to 1024
/// bytes, none of them zero, which does not begin with the reserved prefix, its
/// lease is positive, and its value has at most 64 kilobytes.
pub proof fn accepted_campaigns(name: Seq<u8>, lease_id: i64, size: nat)
    ensures
        name_refusal(name) is None <==> {
            &&& 0 < name.len() <= 1024
            &&& forall|i: int| 0 <= i < name.len() ==> name[i] != 0
            &&& !crate::names::begins_reserved(name)
        },
        campaign_refusal(name, lease_id, size) is None <==> {
            &&& 0 < name.len() <= 1024
            &&& forall|i: int| 0 <= i < name.len() ==> name[i] != 0
            &&& !crate::names::begins_reserved(name)
            &&& lease_id >= 1
            &&& size <= 65536
        },
        campaign_refusal(name, lease_id, size) matches Some(said) ==> said.0
            == crate::status::Code::InvalidArgument,
{
    crate::names::faults_are_there(name, 1024);
}

impl Campaign {
    /// The watch is set up first, on the election's own key and for its deletion.
    /// The campaign is proposed under the election's name, with its lease and its
    /// value, once there is a watch and again whenever the key was deleted. While
    /// there is a leader the campaign waits, at most half a minute. An error is
    /// handed on, and a wait that ends in any other way fails.
    pub proof fn campaigns_go_on_until_elected(&self, event: CampaignEvent, step: CampaignStep)
        requires
            self.leads_to(event, step),
        ensures
            event is Begun ==> {
                &&& step matches CampaignStep::Watch(plan)
                &&& plan.key@ == crate::election::election_prefix() + self.election()
                &&& plan.range_end@.len() == 0
                &&& plan.filters@.len() == 1 && plan.filters@[0] is Delete
                &&& !plan.prev_kv
            },
            event is Watching || event == CampaignEvent::Waited(WaitOutcome::Deleted) ==> {
                &&& step matches CampaignStep::Propose(
                    RaftRequest::ElectionCampaign { name, lease_id, value },
                )
                &&& name@ == self.election()
                &&& lease_id == self.lease()
                &&& value@ == self.proclaimed()
            },
            event matches CampaignEvent::Proposed(
                Ok(RaftResponse::ElectionCampaign { leader_key }),
            ) ==> {
                &&& step matches CampaignStep::Done { cancel_watch, result: Ok(k) }
                &&& k == leader_key
                &&& cancel_watch
            },
            event == CampaignEvent::Proposed(Ok(RaftResponse::ElectionAlreadyHasLeader {  }))
                ==> {
                &&& step matches CampaignStep::AwaitDelete { secs }
                &&& secs == 30
            },
            event matches CampaignEvent::Proposed(Err(status)) ==> {
                &&& step matches CampaignStep::Done { cancel_watch, result: Err(s) }
                &&& s == status
                &&& !cancel_watch
            },
            event matches CampaignEvent::Waited(outcome) && !(outcome is Deleted) ==> {
                &&& step matches CampaignStep::Done { cancel_watch, result: Err(s) }
                &&& cancel_watch
                &&& s.code == (if event->Waited_0 is TimedOut {
                    crate::status::Code::DeadlineExceeded
                } else {
                    crate::status::Code::Internal
                })
            },
    {
    }
}

/// A stored value that is no longer than a lease proclaims nothing, and so does
/// one that is not there.
pub proof fn short_values_proclaim_nothing(value: Seq<u8>)
    ensures
        proclaimed_in(None).len() == 0,
        value.len() <= 8 ==> proclaimed_in(Some(value)).len() == 0,
        value.len() > 8 ==> value.take(8) + proclaimed_in(Some(value)) == value,
{
    if value.len() > 8 {
        assert(value.take(8) + value.skip(8) =~= value);
    }
}

/// An observer is shown the key-value of every event as it is.
pub proof fn observers_see_what_changed(event: crate::raft::WatchEvent)
    ensures
        ({
            let shown = observed(event).kv;
            &&& shown is Some
            &&& shown->Some_0.key == event.kv.key
            &&& shown->Some_0.value == event.kv.value
            &&& shown->Some_0.create_revision == event.kv.create_revision
            &&& shown->Some_0.mod_revision == event.kv.mod_revision
            &&& shown->Some_0.version == event.kv.version
            &&& shown->Some_0.lease == event.kv.lease
        }),
{
}

/// An election has a leader if and only if a key holds it; the leader is that key,
/// on the lease of that key, both when it is asked for and when it is first
/// observed.
pub proof fn leaders_hold_their_election(
    h: crate::registry::Holdings,
    name: Seq<u8>,
    found: Option<(Vec<u8>, i64)>,
    kv: Option<KeyValue>,
)
    requires
        leads(h, name, found),
        first_observed(h, name, kv),
    ensures
        found is Some <==> h.by_name.contains_key(name),
        kv is Some <==> h.by_name.contains_key(name),
        found is Some ==> {
            let key = h.by_name[name];
            let lease: i64 = if h.leases.contains_key(key) {
                h.leases[key]
            } else {
                0
            };
            &&& found->Some_0.0@ == key
            &&& found->Some_0.1 == lease
            &&& kv->Some_0.key@ == key
            &&& kv->Some_0.lease == lease
            &&& kv->Some_0.value@.len() == 0
            &&& kv->Some_0.create_revision == 0
            &&& kv->Some_0.mod_revision == 0
            &&& kv->Some_0.version == 1
        },
{
}

/// Every answer is headed with the node that gives it and the term it is given in,
/// and with no cluster and no revision.
pub proof fn answers_name_node_and_term(service: ElectionService, term: u64)
    ensures
        service.header_in(term).member_id == service.node(),
        service.header_in(term).raft_term == term,
        service.header_in(term).cluster_id == 0,
        service.header_in(term).revision == 0,
{
}

/// What is too large is told with its size and the maximum, and a campaign that
/// took too long with the time that it took.
pub proof fn campaign_failures_are_told(size: nat, max: nat)
    ensures
        size_message(size, max) == "value size "@ + crate::text::decimal(size)
            + " exceeds maximum "@ + crate::text::decimal(max),
        timeout_message() == "campaign timed out after "@ + crate::text::decimal(30)
            + " seconds: election already has a leader"@,
{
}

} // verus!
