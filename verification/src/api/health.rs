//! Health of the subsystems of a node.

use vstd::prelude::*;

use crate::text::same;

verus! {

/// Tracks the health status of various subsystems. There is one for a node: who
/// else reads or sets it does so through a reference.
#[derive(Debug)]
pub struct HealthStatus {
    raft_ready: bool,
    storage_ready: bool,
}

impl HealthStatus {
    /// The consensus layer is ready.
    pub closed spec fn raft(&self) -> bool {
        self.raft_ready
    }

    /// The storage layer is ready.
    pub closed spec fn storage(&self) -> bool {
        self.storage_ready
    }

    /// At first nothing is ready.
    pub fn new() -> (r: Self)
        ensures
            !r.raft(),
            !r.storage(),
    {
        HealthStatus { raft_ready: false, storage_ready: false }
    }

    pub fn set_raft_ready(&mut self, ready: bool)
        ensures
            final(self).raft() == ready,
            final(self).storage() == old(self).storage(),
    {
        self.raft_ready = ready;
    }

    pub fn set_storage_ready(&mut self, ready: bool)
        ensures
            final(self).storage() == ready,
            final(self).raft() == old(self).raft(),
    {
        self.storage_ready = ready;
    }

    pub fn is_raft_ready(&self) -> (r: bool)
        ensures
            r == self.raft(),
    {
        self.raft_ready
    }

    pub fn is_storage_ready(&self) -> (r: bool)
        ensures
            r == self.storage(),
    {
        self.storage_ready
    }

    /// Returns true if the node is ready to serve traffic.
    pub fn is_ready(&self) -> (r: bool)
        ensures
            r == (self.raft() && self.storage()),
    {
        self.raft_ready && self.storage_ready
    }
}

impl Default for HealthStatus {
    fn default() -> (r: Self)
        ensures
            !r.raft(),
            !r.storage(),
    {
        Self::new()
    }
}

/// What an HTTP request to the admin server is answered with.
#[derive(Debug, Clone, Copy, PartialEq, Eq)]
pub enum AdminAnswer {
    /// The metrics, as text.
    Metrics,
    /// A status code and a body.
    Plain { code: u16, body: &'static str },
}

/// The status code and body for a request about health.
pub open spec fn health_answer(is_get: bool, path: Seq<char>, ready: bool) -> (u16, Seq<char>) {
    if !is_get {
        (405, "METHOD NOT ALLOWED"@)
    } else if path == "/health/live"@ {
        (200, "OK"@)
    } else if path == "/health/ready"@ {
        if ready {
            (200, "OK"@)
        } else {
            (503, "NOT READY"@)
        }
    } else {
        (404, "NOT FOUND"@)
    }
}

/// The status code and body for a request about health.
///
/// - `GET /health/live`: always 200 if the process is running.
/// - `GET /health/ready`: 200 if it is ready.
pub fn health_route(is_get: bool, path: &str, ready: bool) -> (r: (u16, &'static str))
    ensures
        (r.0, r.1@) == health_answer(is_get, path@, ready),
{
    if !is_get {
        return (405, "METHOD NOT ALLOWED");
    }
    if same(path, "/health/live") {
        return (200, "OK");
    }
    if same(path, "/health/ready") {
        return if ready {
            (200, "OK")
        } else {
            (503, "NOT READY")
        };
    }
    (404, "NOT FOUND")
}

/// What the admin server of a node answers: metrics, or else health.
pub fn admin_route(is_get: bool, path: &str, health: &HealthStatus) -> (r: AdminAnswer)
    ensures
        if is_get && path@ == "/metrics"@ {
            r is Metrics
        } else {
            r is Plain && (r->code, r->body@) == health_answer(
                is_get,
                path@,
                health.raft() && health.storage(),
            )
        },
{
    if is_get && same(path, "/metrics") {
        return AdminAnswer::Metrics;
    }
    let (code, body) = health_route(is_get, path, health.is_ready());
    AdminAnswer::Plain { code, body }
}

/// A probe is answered with success if and only if it gets a known path, and, on
/// the path for readiness, only if the node is ready; what is not a get is not
/// allowed, and what is not a known path is not found.
pub proof fn probes_are_answered(is_get: bool, path: Seq<char>, ready: bool)
    ensures
        ({
            let (code, body) = health_answer(is_get, path, ready);
            let live = path == "/health/live"@;
            let asks_ready = path == "/health/ready"@;
            &&& code == 200 <==> is_get && (live || (asks_ready && ready))
            &&& code == 503 <==> is_get && asks_ready && !ready && !live
            &&& code == 405 <==> !is_get
            &&& code == 404 <==> is_get && !live && !asks_ready
            &&& code == 200 ==> body == "OK"@
            &&& code == 503 ==> body == "NOT READY"@
        }),
{
}

} // verus!
