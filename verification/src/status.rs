//! Statuses with which requests are refused.

use vstd::prelude::*;

use crate::text::text;

verus! {

/// Why a request was refused.
#[derive(Debug, Clone, Copy, PartialEq, Eq, Structural)]
pub enum Code {
    InvalidArgument,
    DeadlineExceeded,
    NotFound,
    AlreadyExists,
    PermissionDenied,
    ResourceExhausted,
    FailedPrecondition,
    Unavailable,
    Internal,
    Unauthenticated,
}

/// A refusal: its code, its message, and the address of the leader to turn to
/// if that is known.
#[derive(Debug, Clone, PartialEq, Eq)]
pub struct Status {
    pub code: Code,
    pub message: String,
    pub leader: Option<String>,
}

/// What a refusal says.
pub type Refusal = (Code, Seq<char>);

impl Status {
    /// The status has the given code and message, and names no leader.
    pub open spec fn says(self, refusal: Refusal) -> bool {
        &&& self.code == refusal.0
        &&& self.message@ == refusal.1
        &&& self.leader is None
    }

    pub fn new(code: Code, message: &str) -> (r: Status)
        ensures
            r.says((code, message@)),
    {
        Status { code, message: text(message), leader: None }
    }

    pub fn invalid_argument(message: &str) -> (r: Status)
        ensures
            r.says((Code::InvalidArgument, message@)),
    {
        Status::new(Code::InvalidArgument, message)
    }

    pub fn deadline_exceeded(message: &str) -> (r: Status)
        ensures
            r.says((Code::DeadlineExceeded, message@)),
    {
        Status::new(Code::DeadlineExceeded, message)
    }

    pub fn not_found(message: &str) -> (r: Status)
        ensures
            r.says((Code::NotFound, message@)),
    {
        Status::new(Code::NotFound, message)
    }

    pub fn permission_denied(message: &str) -> (r: Status)
        ensures
            r.says((Code::PermissionDenied, message@)),
    {
        Status::new(Code::PermissionDenied, message)
    }

    pub fn resource_exhausted(message: &str) -> (r: Status)
        ensures
            r.says((Code::ResourceExhausted, message@)),
    {
        Status::new(Code::ResourceExhausted, message)
    }

    pub fn failed_precondition(message: &str) -> (r: Status)
        ensures
            r.says((Code::FailedPrecondition, message@)),
    {
        Status::new(Code::FailedPrecondition, message)
    }

    pub fn unavailable(message: &str) -> (r: Status)
        ensures
            r.says((Code::Unavailable, message@)),
    {
        Status::new(Code::Unavailable, message)
    }

    pub fn internal(message: &str) -> (r: Status)
        ensures
            r.says((Code::Internal, message@)),
    {
        Status::new(Code::Internal, message)
    }

    pub fn unauthenticated(message: &str) -> (r: Status)
        ensures
            r.says((Code::Unauthenticated, message@)),
    {
        Status::new(Code::Unauthenticated, message)
    }
}

/// The result is an error that says what is given, or a success if nothing is.
pub open spec fn answers<T>(r: Result<T, Status>, refusal: Option<Refusal>) -> bool {
    match refusal {
        Some(said) => r is Err && r->Err_0.says(said),
        None => r is Ok,
    }
}

/// An answer is a success if and only if there is no refusal; otherwise it has the
/// refusal's code and message, and names no leader.
pub proof fn refusals_are_told<T>(r: Result<T, Status>, refusal: Option<Refusal>)
    requires
        answers(r, refusal),
    ensures
        r is Ok <==> refusal is None,
        r matches Err(status) ==> refusal is Some && status.code == refusal->Some_0.0
            && status.message@ == refusal->Some_0.1 && status.leader is None,
{
}

} // verus!
