//! What several services share: the root check, refusals, and watching a key
//! until it is deleted.

use vstd::prelude::*;

use crate::raft::{RaftResponse, WatchEventType, WatchResponse};
use crate::status::Status;
use crate::text::same;

verus! {

/// With what an administrative request is refused when it needs root.
pub open spec fn root_refusal(needed: bool, username: Option<Seq<char>>) -> Option<
    crate::status::Refusal,
> {
    if !needed {
        None
    } else {
        match username {
            None => Some((crate::status::Code::Unauthenticated, "no user in context"@)),
            Some(name) => if name != "root"@ {
                Some((crate::status::Code::PermissionDenied, "root user required"@))
            } else {
                None
            },
        }
    }
}

/// Require root user for admin operations when auth is enabled
pub fn require_root(needed: bool, username: Option<&str>) -> (r: Result<(), Status>)
    ensures
        crate::status::answers(r, root_refusal(needed, super::kv::name_of(username))),
{
    if !needed {
        return Ok(());
    }
    match username {
        None => Err(Status::unauthenticated("no user in context")),
        Some(name) => if !same(name, "root") {
            Err(Status::permission_denied("root user required"))
        } else {
            Ok(())
        },
    }
}

/// What an answer of the state machine is turned into where it is none of the
/// expected ones.
pub open spec fn unexpected_refusal(resp: RaftResponse) -> crate::status::Refusal {
    match resp {
        RaftResponse::Error { message } => (crate::status::Code::Internal, message@),
        _ => (crate::status::Code::Internal, "unexpected response type"@),
    }
}

/// The status for an answer of the state machine that is none of the expected
/// ones.
pub fn unexpected(resp: RaftResponse) -> (r: Status)
    ensures
        r.says(unexpected_refusal(resp)),
{
    match resp {
        RaftResponse::Error { message } => Status::internal(message.as_str()),
        _ => Status::internal("unexpected response type"),
    }
}

/// A watch on one key.
pub struct WatchPlan {
    pub key: Vec<u8>,
    pub range_end: Vec<u8>,
    pub filters: Vec<WatchEventType>,
    pub prev_kv: bool,
}

/// What one delivery of a watch means to somebody who waits for a delete.
#[derive(Debug, Clone, Copy, PartialEq, Eq, Structural)]
pub enum WatchVerdict {
    /// The key was deleted.
    Deleted,
    /// The watch is over.
    Ended,
    /// Nothing yet.
    Continue,
}

/// An event of the delivery is a delete.
pub open spec fn has_delete(resp: WatchResponse) -> bool {
    exists|i: int|
        0 <= i < resp.events@.len() && (#[trigger] resp.events@[i]).event_type
            == WatchEventType::Delete
}

/// What one delivery of a watch means to somebody who waits for a delete; no
/// delivery means that the watch is over.
pub fn watch_verdict(delivery: Option<&WatchResponse>) -> (r: WatchVerdict)
    ensures
        r == match delivery {
            None => WatchVerdict::Ended,
            Some(resp) => if resp.canceled {
                WatchVerdict::Ended
            } else if has_delete(*resp) {
                WatchVerdict::Deleted
            } else {
                WatchVerdict::Continue
            },
        },
{
    match delivery {
        None => WatchVerdict::Ended,
        Some(resp) => {
            if resp.canceled {
                return WatchVerdict::Ended;
            }
            let mut i: usize = 0;
            while i < resp.events.len()
                invariant
                    i <= resp.events.len(),
                    forall|j: int|
                        0 <= j < i ==> (#[trigger] resp.events@[j]).event_type
                            != WatchEventType::Delete,
                    !resp.canceled,
                    delivery == Some(resp),
                decreases resp.events.len() - i,
            {
                if resp.events[i].event_type == WatchEventType::Delete {
                    assert(has_delete(*resp));
                    return WatchVerdict::Deleted;
                }
                i = i + 1;
            }
            WatchVerdict::Continue
        },
    }
}

/// How waiting for a delete ended.
#[derive(Debug, Clone, Copy, PartialEq, Eq, Structural)]
pub enum WaitOutcome {
    /// The key was deleted.
    Deleted,
    /// The watch is over.
    Ended,
    /// It took too long.
    TimedOut,
}

/// Where root is needed, root passes and nobody else does; without a user it is
/// said that there is none. Where it is not needed, everybody passes.
pub proof fn only_root_passes(needed: bool, username: Option<Seq<char>>)
    ensures
        root_refusal(needed, username) is None <==> !needed || username == Some("root"@),
        (root_refusal(needed, username) matches Some(said) && said.0
            == crate::status::Code::Unauthenticated) <==> needed && username is None,
        (root_refusal(needed, username) matches Some(said) && said.0
            == crate::status::Code::PermissionDenied) <==> needed && username is Some && username
            != Some("root"@),
{
}

/// An answer of the wrong kind is an internal error, with the message of the error
/// if it is one.
pub proof fn wrong_answers_are_internal_errors(resp: RaftResponse)
    ensures
        unexpected_refusal(resp).0 == crate::status::Code::Internal,
        resp matches RaftResponse::Error { message } ==> unexpected_refusal(resp).1 == message@,
{
}

/// A delivery tells of a deletion if and only if one of its events is one.
pub proof fn deletions_are_seen(resp: WatchResponse)
    ensures
        has_delete(resp) <==> !(forall|i: int|
            0 <= i < resp.events@.len() ==> (#[trigger] resp.events@[i]).event_type is Put),
{
}

} // verus!
