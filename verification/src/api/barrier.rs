//! Barrier service.

use vstd::prelude::*;

use super::guard::{unexpected, WaitOutcome, WatchPlan};
use crate::barrier::{barrier_key, validate_barrier_name, BarrierManager, MAX_BARRIER_NAME_LEN};
use crate::bytes::copy_bytes;
use crate::proto::{
    BarrierCreateRequest, BarrierCreateResponse, BarrierQueryRequest, BarrierQueryResponse,
    BarrierReleaseRequest, BarrierReleaseResponse, ResponseHeader,
};
use crate::raft::{RaftRequest, RaftResponse, WatchEventType};
use crate::status::Status;
use crate::text::{format_u64, join3};

verus! {

/// Maximum time to wait for barrier acquisition (30 seconds).
pub const BARRIER_TIMEOUT_SECS: u64 = 30;

/// Why the watch of a create that is done is canceled.
pub const CREATE_DONE: &'static str = "barrier create completed";

/// With what a barrier name is refused.
pub open spec fn name_refusal(name: Seq<u8>) -> Option<crate::status::Refusal> {
    match crate::names::fault(name, MAX_BARRIER_NAME_LEN as nat) {
        Some(fault) => Some(
            (crate::status::Code::InvalidArgument, crate::barrier::barrier_name_message(fault)),
        ),
        None => None,
    }
}

/// What is said when a barrier was not released in time.
pub open spec fn timeout_message() -> Seq<char> {
    "barrier create timed out after "@ + crate::text::decimal(BARRIER_TIMEOUT_SECS as nat)
        + " seconds: barrier is held"@
}

/// An attempt to create a barrier, which waits while the barrier is held.
pub struct BarrierWait {
    name: Vec<u8>,
    lease_id: i64,
}

/// What happened to an attempt.
pub enum BarrierEvent {
    /// It began.
    Begun,
    /// The watch is set up.
    Watching,
    /// The proposal was answered.
    Proposed(Result<RaftResponse, Status>),
    /// Waiting for the barrier to be released ended.
    Waited(WaitOutcome),
}

/// What an attempt does next.
pub enum BarrierStep {
    /// Set up a watch.
    Watch(WatchPlan),
    /// Propose the create.
    Propose(RaftRequest),
    /// Wait for the barrier key to be deleted, no longer than so many seconds.
    AwaitDelete { secs: u64 },
    /// Cancel the watch, and be done.
    Done(Result<Vec<u8>, Status>),
}

impl BarrierWait {
    /// The barrier that is to be created.
    pub closed spec fn barrier(&self) -> Seq<u8> {
        self.name@
    }

    /// The lease that the barrier is to have.
    pub closed spec fn lease(&self) -> i64 {
        self.lease_id
    }

    /// The request proposes the create.
    pub open spec fn proposes(&self, request: RaftRequest) -> bool {
        match request {
            RaftRequest::BarrierCreate { name, lease_id } => name@ == self.barrier() && lease_id
                == self.lease(),
            _ => false,
        }
    }

    /// The plan watches deletes of the barrier key alone.
    pub open spec fn watches(&self, plan: WatchPlan) -> bool {
        &&& plan.key@ == crate::barrier::barrier_prefix() + self.barrier()
        &&& plan.range_end@ == Seq::<u8>::empty()
        &&& plan.filters@ == seq![WatchEventType::Delete]
        &&& !plan.prev_kv
    }

    /// What an event leads to.
    pub open spec fn leads_to(&self, event: BarrierEvent, step: BarrierStep) -> bool {
        match event {
            BarrierEvent::Begun => step is Watch && self.watches(step->Watch_0),
            BarrierEvent::Watching => step is Propose && self.proposes(step->Propose_0),
            BarrierEvent::Proposed(Ok(RaftResponse::BarrierCreate { key })) => step
                == BarrierStep::Done(Ok(key)),
            BarrierEvent::Proposed(Ok(RaftResponse::BarrierAlreadyHeld {  })) => step == (
            BarrierStep::AwaitDelete { secs: BARRIER_TIMEOUT_SECS }),
            BarrierEvent::Proposed(Ok(resp)) => match step {
                BarrierStep::Done(Err(status)) => status.says(
                    super::guard::unexpected_refusal(resp),
                ),
                _ => false,
            },
            BarrierEvent::Proposed(Err(status)) => step == BarrierStep::Done(Err(status)),
            BarrierEvent::Waited(WaitOutcome::Deleted) => match step {
                BarrierStep::Propose(request) => self.proposes(request),
                _ => false,
            },
            BarrierEvent::Waited(WaitOutcome::Ended) => match step {
                BarrierStep::Done(Err(status)) => status.says(
                    (crate::status::Code::Internal, "watch canceled unexpectedly"@),
                ),
                _ => false,
            },
            BarrierEvent::Waited(WaitOutcome::TimedOut) => match step {
                BarrierStep::Done(Err(status)) => status.says(
                    (crate::status::Code::DeadlineExceeded, timeout_message()),
                ),
                _ => false,
            },
        }
    }

    /// An attempt to create a barrier.
    pub fn new(name: Vec<u8>, lease_id: i64) -> (r: Self)
        ensures
            r.barrier() == name@,
            r.lease() == lease_id,
    {
        BarrierWait { name, lease_id }
    }

    /// The watch that is set up before the first proposal, so that no release is
    /// missed: deletes of the barrier key alone.
    fn watch(&self) -> (r: WatchPlan)
        ensures
            self.watches(r),
    {
        let mut filters: Vec<WatchEventType> = Vec::new();
        filters.push(WatchEventType::Delete);
        assert(filters@ =~= seq![WatchEventType::Delete]);
        WatchPlan {
            key: barrier_key(self.name.as_slice()),
            range_end: Vec::new(),
            filters,
            prev_kv: false,
        }
    }

    /// What is proposed, at first and after every release.
    fn proposal(&self) -> (r: RaftRequest)
        ensures
            self.proposes(r),
    {
        RaftRequest::BarrierCreate {
            name: copy_bytes(self.name.as_slice()),
            lease_id: self.lease_id,
        }
    }

    /// What is done after an event.
    pub fn step(&self, event: BarrierEvent) -> (r: BarrierStep)
        ensures
            self.leads_to(event, r),
    {
        match event {
            BarrierEvent::Begun => BarrierStep::Watch(self.watch()),
            BarrierEvent::Watching => BarrierStep::Propose(self.proposal()),
            BarrierEvent::Proposed(Ok(RaftResponse::BarrierCreate { key })) => BarrierStep::Done(
                Ok(key),
            ),
            BarrierEvent::Proposed(Ok(RaftResponse::BarrierAlreadyHeld {  })) => {
                BarrierStep::AwaitDelete { secs: BARRIER_TIMEOUT_SECS }
            },
            BarrierEvent::Proposed(Ok(resp)) => BarrierStep::Done(Err(unexpected(resp))),
            BarrierEvent::Proposed(Err(status)) => BarrierStep::Done(Err(status)),
            BarrierEvent::Waited(WaitOutcome::Deleted) => BarrierStep::Propose(self.proposal()),
            BarrierEvent::Waited(WaitOutcome::Ended) => BarrierStep::Done(
                Err(Status::internal("watch canceled unexpectedly")),
            ),
            BarrierEvent::Waited(WaitOutcome::TimedOut) => BarrierStep::Done(
                Err(
                    Status::deadline_exceeded(
                        join3(
                            "barrier create timed out after ",
                            format_u64(BARRIER_TIMEOUT_SECS).as_str(),
                            " seconds: barrier is held",
                        ).as_str(),
                    ),
                ),
            ),
        }
    }

    /// An attempt succeeds only with a key that the state machine gave for this
    /// create, waits only for a barrier that is held, proposes only with the watch
    /// set up, and proposes again only after the barrier was released.
    pub proof fn succeeds_only_as_created(&self, event: BarrierEvent, step: BarrierStep)
        requires
            self.leads_to(event, step),
        ensures
            step is Done && step->Done_0 is Ok ==> event == BarrierEvent::Proposed(
                Ok(RaftResponse::BarrierCreate { key: step->Done_0->Ok_0 }),
            ),
            step is AwaitDelete ==> event == BarrierEvent::Proposed(
                Ok(RaftResponse::BarrierAlreadyHeld {  }),
            ),
            step is Propose ==> (event is Watching || event == BarrierEvent::Waited(
                WaitOutcome::Deleted,
            )) && self.proposes(step->Propose_0),
            step is Watch ==> event is Begun,
    {
    }
}

/// The barrier service of a node.
pub struct BarrierService {
    node_id: u64,
}

impl BarrierService {
    /// The node that the service answers for.
    pub closed spec fn node(&self) -> u64 {
        self.node_id
    }

    /// The header of the answers in a term.
    pub open spec fn header_in(&self, term: u64) -> ResponseHeader {
        ResponseHeader { cluster_id: 0, member_id: self.node(), revision: 0, raft_term: term }
    }

    pub fn new(node_id: u64) -> (r: Self)
        ensures
            r.node() == node_id,
    {
        BarrierService { node_id }
    }

    fn header(&self, term: u64) -> (r: ResponseHeader)
        ensures
            r == self.header_in(term),
    {
        ResponseHeader { cluster_id: 0, member_id: self.node_id, revision: 0, raft_term: term }
    }

    /// The attempt that a create begins.
    pub fn create(&self, req: BarrierCreateRequest) -> (r: Result<BarrierWait, Status>)
        ensures
            crate::status::answers(
                r,
                super::kv::first_refusal(
                    name_refusal(req.name@),
                    super::lock::lease_refusal(req.lease_id),
                ),
            ),
            r matches Ok(wait) ==> wait.barrier() == req.name@ && wait.lease() == req.lease_id,
    {
        if let Err(message) = validate_barrier_name(req.name.as_slice()) {
            return Err(Status::invalid_argument(message));
        }
        if req.lease_id < 0 {
            return Err(Status::invalid_argument("lease_id must be non-negative"));
        }
        Ok(BarrierWait::new(req.name, req.lease_id))
    }

    /// What a create that got a key is answered.
    pub fn create_response(&self, term: u64, key: Vec<u8>) -> (r: BarrierCreateResponse)
        ensures
            r == (BarrierCreateResponse { header: Some(self.header_in(term)), key }),
    {
        BarrierCreateResponse { header: Some(self.header(term)), key }
    }

    /// What is proposed for a release.
    pub fn release_request(&self, req: BarrierReleaseRequest) -> (r: Result<RaftRequest, Status>)
        ensures
            crate::status::answers(r, name_refusal(req.name@)),
            r matches Ok(request) ==> request == (RaftRequest::BarrierRelease { name: req.name }),
    {
        if let Err(message) = validate_barrier_name(req.name.as_slice()) {
            return Err(Status::invalid_argument(message));
        }
        Ok(RaftRequest::BarrierRelease { name: req.name })
    }

    /// What a release is answered.
    pub fn release_response(&self, term: u64, resp: RaftResponse) -> (r: Result<
        BarrierReleaseResponse,
        Status,
    >)
        ensures
            match resp {
                RaftResponse::BarrierRelease {  } => r == Ok::<BarrierReleaseResponse, Status>(
                    BarrierReleaseResponse { header: Some(self.header_in(term)) },
                ),
                _ => r is Err && r->Err_0.says(super::guard::unexpected_refusal(resp)),
            },
    {
        match resp {
            RaftResponse::BarrierRelease {  } => Ok(
                BarrierReleaseResponse { header: Some(self.header(term)) },
            ),
            other => Err(unexpected(other)),
        }
    }

    /// Whether a barrier is held, by which key and on which lease. `leadership`
    /// says whether this node leads.
    pub fn query(
        &self,
        term: u64,
        leadership: Result<(), Status>,
        manager: &BarrierManager,
        req: &BarrierQueryRequest,
    ) -> (r: Result<BarrierQueryResponse, Status>)
        requires
            manager.wf(),
        ensures
            name_refusal(req.name@) is Some ==> crate::status::answers(r, name_refusal(req.name@)),
            name_refusal(req.name@) is None ==> match leadership {
                Err(status) => r == Err::<BarrierQueryResponse, Status>(status),
                Ok(_) => {
                    &&& r is Ok
                    &&& r->Ok_0.header == Some(self.header_in(term))
                    &&& r->Ok_0.key@ == super::lock::holder(manager@, req.name@)
                    &&& r->Ok_0.held == (super::lock::holder(manager@, req.name@).len() > 0)
                    &&& r->Ok_0.lease_id == super::lock::holder_lease(manager@, req.name@)
                },
            },
    {
        if let Err(message) = validate_barrier_name(req.name.as_slice()) {
            return Err(Status::invalid_argument(message));
        }
        match leadership {
            Err(status) => {
                return Err(status);
            },
            Ok(()) => {},
        }
        let key: Vec<u8> = match manager.get_key(req.name.as_slice()) {
            Some(key) => copy_bytes(key),
            None => Vec::new(),
        };
        let held = key.len() > 0;
        let lease_id: i64 = if held {
            match manager.get_lease_id(key.as_slice()) {
                Some(lease_id) => lease_id,
                None => 0,
            }
        } else {
            0
        };
        Ok(BarrierQueryResponse { header: Some(self.header(term)), held, key, lease_id })
    }
}

/// A barrier name is accepted if and only if it has from 1 to 1024 bytes, none of
/// them zero, and does not begin with the reserved prefix.
pub proof fn accepted_barriers(name: Seq<u8>)
    ensures
        name_refusal(name) is None <==> {
            &&& 0 < name.len() <= 1024
            &&& forall|i: int| 0 <= i < name.len() ==> name[i] != 0
            &&& !crate::names::begins_reserved(name)
        },
        name_refusal(name) matches Some(said) ==> said.0 == crate::status::Code::InvalidArgument,
{
    crate::names::faults_are_there(name, 1024);
}

impl BarrierWait {
    /// The watch is set up first, on the barrier's own key and for its deletion.
    /// The barrier is proposed under its name and with its lease, once there is a
    /// watch and again whenever the key was deleted. While the barrier is held it
    /// is waited for, at most half a minute. An error is handed on, and a wait that
    /// ends in any other way fails.
    pub proof fn waiting_goes_on_until_created(&self, event: BarrierEvent, step: BarrierStep)
        requires
            self.leads_to(event, step),
        ensures
            event is Begun ==> {
                &&& step matches BarrierStep::Watch(plan)
                &&& plan.key@ == crate::barrier::barrier_prefix() + self.barrier()
                &&& plan.range_end@.len() == 0
                &&& plan.filters@.len() == 1 && plan.filters@[0] is Delete
                &&& !plan.prev_kv
            },
            event is Watching || event == BarrierEvent::Waited(WaitOutcome::Deleted) ==> {
                &&& step matches BarrierStep::Propose(RaftRequest::BarrierCreate { name, lease_id })
                &&& name@ == self.barrier()
                &&& lease_id == self.lease()
            },
            event matches BarrierEvent::Proposed(Ok(RaftResponse::BarrierCreate { key })) ==> {
                &&& step matches BarrierStep::Done(Ok(k))
                &&& k == key
            },
            event == BarrierEvent::Proposed(Ok(RaftResponse::BarrierAlreadyHeld {  })) ==> {
                &&& step matches BarrierStep::AwaitDelete { secs }
                &&& secs == 30
            },
            event matches BarrierEvent::Proposed(Err(status)) ==> {
                &&& step matches BarrierStep::Done(Err(s))
                &&& s == status
            },
            event matches BarrierEvent::Waited(outcome) && !(outcome is Deleted) ==> {
                &&& step matches BarrierStep::Done(Err(s))
                &&& s.code == (if event->Waited_0 is TimedOut {
                    crate::status::Code::DeadlineExceeded
                } else {
                    crate::status::Code::Internal
                })
            },
    {
    }
}

/// Every answer is headed with the node that gives it and the term it is given in,
/// and with no cluster and no revision.
pub proof fn answers_name_node_and_term(service: BarrierService, term: u64)
    ensures
        service.header_in(term).member_id == service.node(),
        service.header_in(term).raft_term == term,
        service.header_in(term).cluster_id == 0,
        service.header_in(term).revision == 0,
{
}

/// A barrier that was held too long is told with the time that was waited.
pub proof fn barrier_timeouts_are_told()
    ensures
        timeout_message() == "barrier create timed out after "@ + crate::text::decimal(30)
            + " seconds: barrier is held"@,
{
}

} // verus!
