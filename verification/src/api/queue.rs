//! Queue service.

use vstd::prelude::*;

use super::election::too_large;
use super::guard::unexpected;
use crate::proto::{
    QueueDequeueRequest, QueueDequeueResponse, QueueEnqueueRequest, QueueEnqueueResponse,
    QueuePeekRequest, QueuePeekResponse, ResponseHeader,
};
use crate::queue::{queue_scan_prefix, validate_queue_name};
use crate::raft::{RaftRequest, RaftResponse};
use crate::registry::Entry;
use crate::status::Status;

verus! {

/// Maximum value size for queue items (1 MB).
pub const MAX_QUEUE_VALUE_SIZE: usize = 1048576;

/// With what a queue name is refused.
pub open spec fn name_refusal(name: Seq<u8>) -> Option<crate::status::Refusal> {
    match crate::queue::queue_name_message(name) {
        Some(message) => Some((crate::status::Code::InvalidArgument, message)),
        None => None,
    }
}

/// With what an item is refused.
pub open spec fn enqueue_refusal(name: Seq<u8>, size: nat) -> Option<crate::status::Refusal> {
    if name_refusal(name) is Some {
        name_refusal(name)
    } else if size == 0 {
        Some((crate::status::Code::InvalidArgument, "value must not be empty"@))
    } else if size > MAX_QUEUE_VALUE_SIZE {
        Some(
            (
                crate::status::Code::InvalidArgument,
                super::election::size_message(size, MAX_QUEUE_VALUE_SIZE as nat),
            ),
        )
    } else {
        None
    }
}

/// The queue service of a node.
pub struct QueueService {
    node_id: u64,
}

impl QueueService {
    /// The node that the service answers for.
    pub closed spec fn node(&self) -> u64 {
        self.node_id
    }

    /// The header of the answers in a term.
    pub open spec fn header_in(&self, term: u64) -> ResponseHeader {
        ResponseHeader { cluster_id: 0, member_id: self.node(), revision: 0, raft_term: term }
    }

    pub fn new(node_id: u64) -> (r: Self)
        ensures
            r.node() == node_id,
    {
        QueueService { node_id }
    }

    fn header(&self, term: u64) -> (r: ResponseHeader)
        ensures
            r == self.header_in(term),
    {
        ResponseHeader { cluster_id: 0, member_id: self.node_id, revision: 0, raft_term: term }
    }

    /// What is proposed to put an item in.
    pub fn enqueue_request(&self, req: QueueEnqueueRequest) -> (r: Result<RaftRequest, Status>)
        ensures
            crate::status::answers(r, enqueue_refusal(req.name@, req.value@.len())),
            r matches Ok(request) ==> request == (RaftRequest::QueueEnqueue {
                name: req.name,
                value: req.value,
            }),
    {
        if let Err(message) = validate_queue_name(req.name.as_slice()) {
            return Err(Status::invalid_argument(message));
        }
        if req.value.len() == 0 {
            return Err(Status::invalid_argument("value must not be empty"));
        }
        if req.value.len() > MAX_QUEUE_VALUE_SIZE {
            return Err(too_large(req.value.len(), MAX_QUEUE_VALUE_SIZE));
        }
        Ok(RaftRequest::QueueEnqueue { name: req.name, value: req.value })
    }

    /// What is answered when an item was put in.
    pub fn enqueue_response(&self, term: u64, resp: RaftResponse) -> (r: Result<
        QueueEnqueueResponse,
        Status,
    >)
        ensures
            match resp {
                RaftResponse::QueueEnqueue { key } => r == Ok::<QueueEnqueueResponse, Status>(
                    QueueEnqueueResponse { header: Some(self.header_in(term)), key },
                ),
                _ => r is Err && r->Err_0.says(super::guard::unexpected_refusal(resp)),
            },
    {
        match resp {
            RaftResponse::QueueEnqueue { key } => Ok(
                QueueEnqueueResponse { header: Some(self.header(term)), key },
            ),
            other => Err(unexpected(other)),
        }
    }

    /// What is proposed to take an item out.
    pub fn dequeue_request(&self, req: QueueDequeueRequest) -> (r: Result<RaftRequest, Status>)
        ensures
            crate::status::answers(r, name_refusal(req.name@)),
            r matches Ok(request) ==> request == (RaftRequest::QueueDequeue { name: req.name }),
    {
        if let Err(message) = validate_queue_name(req.name.as_slice()) {
            return Err(Status::invalid_argument(message));
        }
        Ok(RaftRequest::QueueDequeue { name: req.name })
    }

    /// What is answered when an item was taken out.
    pub fn dequeue_response(&self, term: u64, resp: RaftResponse) -> (r: Result<
        QueueDequeueResponse,
        Status,
    >)
        ensures
            match resp {
                RaftResponse::QueueDequeue { key, value } => r == Ok::<
                    QueueDequeueResponse,
                    Status,
                >(QueueDequeueResponse { header: Some(self.header_in(term)), key, value }),
                RaftResponse::QueueDequeueEmpty {  } => r is Err && r->Err_0.says(
                    (crate::status::Code::NotFound, "queue is empty"@),
                ),
                _ => r is Err && r->Err_0.says(super::guard::unexpected_refusal(resp)),
            },
    {
        match resp {
            RaftResponse::QueueDequeue { key, value } => Ok(
                QueueDequeueResponse { header: Some(self.header(term)), key, value },
            ),
            RaftResponse::QueueDequeueEmpty {  } => Err(Status::not_found("queue is empty")),
            other => Err(unexpected(other)),
        }
    }

    /// The prefix under which the front item is looked up in storage. `leadership`
    /// says whether this node leads.
    pub fn peek_prefix(&self, leadership: Result<(), Status>, req: &QueuePeekRequest) -> (r: Result<
        Vec<u8>,
        Status,
    >)
        ensures
            name_refusal(req.name@) is Some ==> crate::status::answers(r, name_refusal(req.name@)),
            name_refusal(req.name@) is None ==> match leadership {
                Err(status) => r is Err && r->Err_0 == status,
                Ok(_) => r is Ok && r->Ok_0@ == crate::queue::scan_prefix(req.name@),
            },
    {
        if let Err(message) = validate_queue_name(req.name.as_slice()) {
            return Err(Status::invalid_argument(message));
        }
        match leadership {
            Err(status) => Err(status),
            Ok(()) => Ok(queue_scan_prefix(req.name.as_slice())),
        }
    }

    /// What a look at the front item is answered, given what storage holds first
    /// under the prefix.
    pub fn peek_response(&self, term: u64, front: Option<Entry>) -> (r: Result<
        QueuePeekResponse,
        Status,
    >)
        ensures
            match front {
                Some(entry) => r == Ok::<QueuePeekResponse, Status>(
                    QueuePeekResponse {
                        header: Some(self.header_in(term)),
                        key: entry.key,
                        value: entry.value,
                    },
                ),
                None => r is Err && r->Err_0.says(
                    (crate::status::Code::NotFound, "queue is empty"@),
                ),
            },
    {
        match front {
            Some(entry) => Ok(
                QueuePeekResponse {
                    header: Some(self.header(term)),
                    key: entry.key,
                    value: entry.value,
                },
            ),
            None => Err(Status::not_found("queue is empty")),
        }
    }

    /// What is answered when storage could not be scanned.
    pub fn scan_failed(error: &str) -> (r: Status)
        ensures
            r.says((crate::status::Code::Internal, "storage scan failed: "@ + error@)),
    {
        Status::internal(crate::text::join2("storage scan failed: ", error).as_str())
    }
}

/// An item is accepted if and only if the name of its queue is and it has from one
/// byte to a megabyte. What is refused is an invalid argument.
pub proof fn accepted_items(name: Seq<u8>, size: nat)
    ensures
        enqueue_refusal(name, size) is None <==> {
            &&& 1 <= size <= 1048576
            &&& 0 < name.len() <= 1024
            &&& forall|i: int| 0 <= i < name.len() ==> name[i] != 0 && name[i] != 47
            &&& !crate::names::begins_reserved(name)
        },
        name_refusal(name) is None <==> {
            &&& 0 < name.len() <= 1024
            &&& forall|i: int| 0 <= i < name.len() ==> name[i] != 0 && name[i] != 47
            &&& !crate::names::begins_reserved(name)
        },
        enqueue_refusal(name, size) matches Some(said) ==> said.0
            == crate::status::Code::InvalidArgument,
{
    crate::queue::accepted_queue_names(name);
}

/// Every answer is headed with the node that gives it and the term it is given in,
/// and with no cluster and no revision.
pub proof fn answers_name_node_and_term(service: QueueService, term: u64)
    ensures
        service.header_in(term).member_id == service.node(),
        service.header_in(term).raft_term == term,
        service.header_in(term).cluster_id == 0,
        service.header_in(term).revision == 0,
{
}

} // verus!
