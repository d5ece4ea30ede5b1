//! The gateway: requests are passed on to the nodes of a cluster.

use vstd::prelude::*;

use crate::status::{Code, Status};
use crate::text::{join2, join3, text};

pub mod pool;

pub use self::pool::BackendPool;

verus! {

/// How many milliseconds a request may take where nothing else is set.
const DEFAULT_REQUEST_TIMEOUT_MS: u64 = 5000;

#[derive(Debug, Clone)]
pub struct GatewayConfig {
    pub listen_addr: String,
    pub backend_addrs: Vec<String>,
    pub request_timeout_ms: u64,
    pub tls: Option<TlsConfig>,
    pub health_addr: String,
}

#[derive(Debug, Clone)]
pub struct TlsConfig {
    pub ca_cert: String,
    pub client_cert: String,
    pub client_key: String,
}

impl GatewayConfig {
    pub fn new(listen_addr: String, backend_addrs: Vec<String>) -> (r: Self)
        ensures
            r.listen_addr == listen_addr,
            r.backend_addrs == backend_addrs,
            r.request_timeout_ms == 5000,
            r.tls is None,
            r.health_addr@ == "127.0.0.1:9091"@,
    {
        GatewayConfig {
            listen_addr,
            backend_addrs,
            request_timeout_ms: DEFAULT_REQUEST_TIMEOUT_MS,
            tls: None,
            health_addr: text("127.0.0.1:9091"),
        }
    }
}

/// What a status says of the leader: the header that names it is absent, cannot
/// be read, or says an address.
#[derive(Debug, Clone, PartialEq, Eq)]
pub enum LeaderHeader {
    Absent,
    Unreadable,
    Said(String),
}

/// Extract leader redirect address from a gRPC status, if present.
pub fn extract_leader_redirect(header: LeaderHeader) -> (r: Option<String>)
    ensures
        r == match header {
            LeaderHeader::Said(leader) => Some(leader),
            _ => None,
        },
{
    match header {
        LeaderHeader::Said(leader) => Some(leader),
        LeaderHeader::Absent => None,
        LeaderHeader::Unreadable => None,
    }
}

/// A request of a client that the gateway passes on.
#[derive(Debug, Clone, Copy, PartialEq, Eq)]
pub enum Call {
    Authenticate,
    AuthEnable,
    AuthDisable,
    AuthStatus,
    UserAdd,
    UserDelete,
    UserGet,
    UserList,
    UserChangePassword,
    UserGrantRole,
    UserRevokeRole,
    RoleAdd,
    RoleDelete,
    RoleGet,
    RoleList,
    RoleGrantPermission,
    RoleRevokePermission,
    BarrierCreate,
    BarrierRelease,
    BarrierQuery,
    Campaign,
    Leader,
    Resign,
    Observe,
    LeaseGrant,
    LeaseRevoke,
    LeaseKeepAlive,
    LeaseTimeToLive,
    LeaseLeases,
    Enqueue,
    Dequeue,
    Peek,
    SessionCreate,
    SessionClose,
    SessionKeepAlive,
    SessionQuery,
    Watch,
}

impl Call {
    /// Requests that any node may answer. All others go to the leader.
    pub open spec fn any_node_answers(self) -> bool {
        ||| self is Authenticate
        ||| self is AuthStatus
        ||| self is UserGet
        ||| self is UserList
        ||| self is RoleGet
        ||| self is RoleList
        ||| self is Leader
        ||| self is Observe
        ||| self is LeaseTimeToLive
        ||| self is LeaseLeases
        ||| self is SessionQuery
    }

    /// Requests that are answered with a stream.
    pub open spec fn streams(self) -> bool {
        ||| self is Observe
        ||| self is LeaseKeepAlive
        ||| self is SessionKeepAlive
        ||| self is Watch
    }

    /// Whether any node may answer the request.
    pub fn goes_anywhere(self) -> (r: bool)
        ensures
            r == self.any_node_answers(),
    {
        match self {
            Call::Authenticate => true,
            Call::AuthStatus => true,
            Call::UserGet => true,
            Call::UserList => true,
            Call::RoleGet => true,
            Call::RoleList => true,
            Call::Leader => true,
            Call::Observe => true,
            Call::LeaseTimeToLive => true,
            Call::LeaseLeases => true,
            Call::SessionQuery => true,
            _ => false,
        }
    }

    /// Whether the request is answered with a stream.
    pub fn is_streaming(self) -> (r: bool)
        ensures
            r == self.streams(),
    {
        match self {
            Call::Observe => true,
            Call::LeaseKeepAlive => true,
            Call::SessionKeepAlive => true,
            Call::Watch => true,
            _ => false,
        }
    }

    /// The node that is asked for a client.
    pub fn pick(self, pool: &mut BackendPool) -> (r: Result<(String, usize), Status>)
        ensures
            ({
                let before = old(pool)@;
                let place = if self.any_node_answers() {
                    before.next_in_turn()
                } else {
                    before.leader_or_next()
                };
                match place {
                    Some(i) => r is Ok && r->Ok_0.1 == i && r->Ok_0.0@ == before.addrs[i],
                    None => r is Err && r->Err_0.says(
                        (Code::Unavailable, "no backends available"@),
                    ),
                }
            }),
            final(pool)@ == if self.any_node_answers() {
                old(pool)@.turned()
            } else {
                old(pool)@.leader_asked()
            },
            final(pool).patience() == old(pool).patience(),
            final(pool).security() == old(pool).security(),
    {
        let picked = match self {
            Call::Authenticate => pool.get_any_auth(),
            Call::AuthEnable => pool.get_leader_auth(),
            Call::AuthDisable => pool.get_leader_auth(),
            Call::AuthStatus => pool.get_any_auth(),
            Call::UserAdd => pool.get_leader_auth(),
            Call::UserDelete => pool.get_leader_auth(),
            Call::UserGet => pool.get_any_auth(),
            Call::UserList => pool.get_any_auth(),
            Call::UserChangePassword => pool.get_leader_auth(),
            Call::UserGrantRole => pool.get_leader_auth(),
            Call::UserRevokeRole => pool.get_leader_auth(),
            Call::RoleAdd => pool.get_leader_auth(),
            Call::RoleDelete => pool.get_leader_auth(),
            Call::RoleGet => pool.get_any_auth(),
            Call::RoleList => pool.get_any_auth(),
            Call::RoleGrantPermission => pool.get_leader_auth(),
            Call::RoleRevokePermission => pool.get_leader_auth(),
            Call::BarrierCreate => pool.get_leader_barrier(),
            Call::BarrierRelease => pool.get_leader_barrier(),
            Call::BarrierQuery => pool.get_leader_barrier(),
            Call::Campaign => pool.get_leader_election(),
            Call::Leader => pool.get_any_election(),
            Call::Resign => pool.get_leader_election(),
            Call::Observe => pool.get_any_election(),
            Call::LeaseGrant => pool.get_leader_lease(),
            Call::LeaseRevoke => pool.get_leader_lease(),
            Call::LeaseKeepAlive => pool.get_leader_lease(),
            Call::LeaseTimeToLive => pool.get_any_lease(),
            Call::LeaseLeases => pool.get_any_lease(),
            Call::Enqueue => pool.get_leader_queue(),
            Call::Dequeue => pool.get_leader_queue(),
            Call::Peek => pool.get_leader_queue(),
            Call::SessionCreate => pool.get_leader_session(),
            Call::SessionClose => pool.get_leader_session(),
            Call::SessionKeepAlive => pool.get_leader_session(),
            Call::SessionQuery => pool.get_any_session(),
            Call::Watch => pool.get_leader_watch(),
        };
        match picked {
            Some(node) => Ok(node),
            None => Err(Status::unavailable("no backends available")),
        }
    }
}

/// What came of asking a node.
#[derive(Debug, Clone, PartialEq, Eq)]
pub enum Reply {
    /// The node answered.
    Answered,
    /// The node refused. The status may name the leader.
    Refused(LeaderHeader),
    /// The node did not answer in time.
    TimedOut,
}

/// What the gateway does with a reply.
#[derive(Debug, Clone, PartialEq, Eq)]
pub enum ProxyStep {
    /// Hand the client what the node said: its answer or its status.
    PassOn,
    /// Connect to the leader, add it to the pool, and ask it.
    Redirect(String),
    /// Refuse the request.
    Fail(Status),
    /// Refuse the request, and connect to the leader for later requests.
    FailAndConnect { status: Status, leader: String },
}

/// What is said to a client whose stream cannot be moved to the leader.
pub open spec fn retry_message(leader: Seq<char>) -> Seq<char> {
    "leader redirect to "@ + leader + ", please retry"@
}

/// The request was not answered in time.
pub open spec fn is_late(step: ProxyStep) -> bool {
    step matches ProxyStep::Fail(status) && status.says(
        (Code::DeadlineExceeded, "request timed out"@),
    )
}

/// What is done with the first reply to a request. A plain request is sent on to
/// the leader once, if the node names one. A stream is not: the client is told to
/// try again, and a watch makes the leader known.
pub fn after_first_reply(call: Call, reply: Reply) -> (r: ProxyStep)
    ensures
        match reply {
            Reply::Answered => r is PassOn,
            Reply::TimedOut => is_late(r),
            Reply::Refused(LeaderHeader::Said(leader)) => if !call.streams() {
                r == ProxyStep::Redirect(leader)
            } else if call is Watch {
                r is FailAndConnect && r->leader == leader && r->status.says(
                    (Code::Unavailable, retry_message(leader@)),
                )
            } else {
                r is Fail && r->Fail_0.says((Code::Unavailable, retry_message(leader@)))
            },
            Reply::Refused(_) => r is PassOn,
        },
{
    match reply {
        Reply::Answered => ProxyStep::PassOn,
        Reply::TimedOut => ProxyStep::Fail(Status::deadline_exceeded("request timed out")),
        Reply::Refused(header) => match extract_leader_redirect(header) {
            None => ProxyStep::PassOn,
            Some(leader) => {
                if !call.is_streaming() {
                    return ProxyStep::Redirect(leader);
                }
                let said = join3("leader redirect to ", leader.as_str(), ", please retry");
                let status = Status::unavailable(said.as_str());
                match call {
                    Call::Watch => ProxyStep::FailAndConnect { status, leader },
                    _ => ProxyStep::Fail(status),
                }
            },
        },
    }
}

/// What is done with the reply of the leader that a node named: it is not asked to
/// name another.
pub fn after_redirected_reply(reply: Reply) -> (r: ProxyStep)
    ensures
        match reply {
            Reply::TimedOut => is_late(r),
            _ => r is PassOn,
        },
{
    match reply {
        Reply::TimedOut => ProxyStep::Fail(Status::deadline_exceeded("request timed out")),
        Reply::Answered => ProxyStep::PassOn,
        Reply::Refused(_) => ProxyStep::PassOn,
    }
}

/// Why there is no connection to a node.
#[derive(Debug, Clone, PartialEq, Eq)]
pub enum ChannelFault {
    InvalidUri(String),
    CaCert(String),
    ClientCert(String),
    ClientKey(String),
    Tls(String),
    Connect(String),
}

impl ChannelFault {
    /// What is said to a client.
    pub open spec fn said(self) -> Seq<char> {
        match self {
            ChannelFault::InvalidUri(reason) => "invalid uri: "@ + reason@,
            ChannelFault::CaCert(reason) => "read ca cert: "@ + reason@,
            ChannelFault::ClientCert(reason) => "read client cert: "@ + reason@,
            ChannelFault::ClientKey(reason) => "read client key: "@ + reason@,
            ChannelFault::Tls(reason) => "tls config: "@ + reason@,
            ChannelFault::Connect(reason) => "connect failed: "@ + reason@,
        }
    }

    /// The status with which a request is refused.
    pub fn status(&self) -> (r: Status)
        ensures
            r.says((Code::Unavailable, self.said())),
    {
        let message = match self {
            ChannelFault::InvalidUri(reason) => join2("invalid uri: ", reason.as_str()),
            ChannelFault::CaCert(reason) => join2("read ca cert: ", reason.as_str()),
            ChannelFault::ClientCert(reason) => join2("read client cert: ", reason.as_str()),
            ChannelFault::ClientKey(reason) => join2("read client key: ", reason.as_str()),
            ChannelFault::Tls(reason) => join2("tls config: ", reason.as_str()),
            ChannelFault::Connect(reason) => join2("connect failed: ", reason.as_str()),
        };
        Status::unavailable(message.as_str())
    }
}

/// A node that was named as the leader joins the pool once it is connected.
pub fn redirect_connection(
    pool: &mut BackendPool,
    leader: &str,
    connected: Result<(), ChannelFault>,
) -> (r: Result<usize, Status>)
    ensures
        match connected {
            Ok(_) => r == Ok::<usize, Status>(old(pool)@.addrs.len() as usize) && final(pool)@
                == old(pool)@.joined_by(leader@),
            Err(fault) => r is Err && r->Err_0.says((Code::Unavailable, fault.said()))
                && final(pool)@ == old(pool)@,
        },
        final(pool).patience() == old(pool).patience(),
        final(pool).security() == old(pool).security(),
{
    match connected {
        Ok(_) => {
            let place: usize = pool.backends_count();
            pool.add_redirect_connection(text(leader));
            Ok(place)
        },
        Err(fault) => Err(fault.status()),
    }
}

impl Call {
    /// A call goes to the leader if it changes something, if its answer must be the
    /// latest, or if it watches; all other calls go to any node.
    pub proof fn calls_that_need_the_leader(self)
        ensures
            !self.any_node_answers() <==> {
                ||| self is AuthEnable
                ||| self is AuthDisable
                ||| self is UserAdd
                ||| self is UserDelete
                ||| self is UserChangePassword
                ||| self is UserGrantRole
                ||| self is UserRevokeRole
                ||| self is RoleAdd
                ||| self is RoleDelete
                ||| self is RoleGrantPermission
                ||| self is RoleRevokePermission
                ||| self is BarrierCreate
                ||| self is BarrierRelease
                ||| self is BarrierQuery
                ||| self is Campaign
                ||| self is Resign
                ||| self is LeaseGrant
                ||| self is LeaseRevoke
                ||| self is LeaseKeepAlive
                ||| self is Enqueue
                ||| self is Dequeue
                ||| self is Peek
                ||| self is SessionCreate
                ||| self is SessionClose
                ||| self is SessionKeepAlive
                ||| self is Watch
            },
            self.streams() && !self.any_node_answers() <==> self is LeaseKeepAlive
                || self is SessionKeepAlive || self is Watch,
            self.streams() && self.any_node_answers() <==> self is Observe,
    {
        match self {
            Call::Authenticate => {},
            Call::AuthEnable => {},
            Call::AuthDisable => {},
            Call::AuthStatus => {},
            Call::UserAdd => {},
            Call::UserDelete => {},
            Call::UserGet => {},
            Call::UserList => {},
            Call::UserChangePassword => {},
            Call::UserGrantRole => {},
            Call::UserRevokeRole => {},
            Call::RoleAdd => {},
            Call::RoleDelete => {},
            Call::RoleGet => {},
            Call::RoleList => {},
            Call::RoleGrantPermission => {},
            Call::RoleRevokePermission => {},
            Call::BarrierCreate => {},
            Call::BarrierRelease => {},
            Call::BarrierQuery => {},
            Call::Campaign => {},
            Call::Leader => {},
            Call::Resign => {},
            Call::Observe => {},
            Call::LeaseGrant => {},
            Call::LeaseRevoke => {},
            Call::LeaseKeepAlive => {},
            Call::LeaseTimeToLive => {},
            Call::LeaseLeases => {},
            Call::Enqueue => {},
            Call::Dequeue => {},
            Call::Peek => {},
            Call::SessionCreate => {},
            Call::SessionClose => {},
            Call::SessionKeepAlive => {},
            Call::SessionQuery => {},
            Call::Watch => {},
        }
    }
}

/// A late answer is told as a deadline that was exceeded, a redirect names the
/// leader, and a connection that failed tells why.
pub proof fn failures_say_what_happened(step: ProxyStep, leader: Seq<char>, fault: ChannelFault)
    ensures
        is_late(step) ==> {
            &&& step matches ProxyStep::Fail(status)
            &&& status.code is DeadlineExceeded
            &&& status.message@ == "request timed out"@
        },
        retry_message(leader) == "leader redirect to "@ + leader + ", please retry"@,
        fault matches ChannelFault::InvalidUri(reason) ==> fault.said() == "invalid uri: "@
            + reason@,
        fault matches ChannelFault::CaCert(reason) ==> fault.said() == "read ca cert: "@ + reason@,
        fault matches ChannelFault::ClientCert(reason) ==> fault.said() == "read client cert: "@
            + reason@,
        fault matches ChannelFault::ClientKey(reason) ==> fault.said() == "read client key: "@
            + reason@,
        fault matches ChannelFault::Tls(reason) ==> fault.said() == "tls config: "@ + reason@,
        fault matches ChannelFault::Connect(reason) ==> fault.said() == "connect failed: "@
            + reason@,
{
}

} // verus!
