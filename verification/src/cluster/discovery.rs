//! How the members of a cluster find each other.

use vstd::prelude::*;
use vstd::string::*;

use crate::json::{check_form, read_record, write_object, Kind, Schema, Value};
use crate::text::{
    find_char, format_u128, format_u64, join2, join3, parse_number, same, text, to_chars, trim_range,
};

verus! {

/// Discovered peer information.
#[derive(Debug, Clone, PartialEq, Eq)]
pub struct PeerInfo {
    pub node_id: u64,
    pub addr: String,
}

/// What is known of a peer.
pub struct Peer {
    pub node_id: u64,
    pub addr: Seq<char>,
}

impl View for PeerInfo {
    type V = Peer;

    open spec fn view(&self) -> Peer {
        Peer { node_id: self.node_id, addr: self.addr@ }
    }
}

/// What is known of a list of peers.
pub open spec fn peer_views(list: Seq<PeerInfo>) -> Seq<Peer> {
    list.map_values(|p: PeerInfo| p@)
}

/// Errors of discovery. Errors of files and of JSON are given as text.
#[derive(Debug, Clone, PartialEq, Eq)]
pub enum DiscoveryError {
    Io(String),
    DnsResolution { host: String, reason: String },
    InvalidAddress(String),
    Config(String),
    Timeout { millis: u128 },
    Json(String),
}

impl DiscoveryError {
    /// What an error says.
    pub open spec fn said(self) -> Seq<char> {
        match self {
            DiscoveryError::Io(reason) => "io error: "@ + reason@,
            DiscoveryError::DnsResolution { host, reason } => "dns resolution failed for "@ + host@
                + ": "@ + reason@,
            DiscoveryError::InvalidAddress(addr) => "invalid address format: "@ + addr@,
            DiscoveryError::Config(reason) => "discovery config error: "@ + reason@,
            DiscoveryError::Timeout { millis } => "discovery timed out after "@ + span_text(
                millis as nat,
            ),
            DiscoveryError::Json(reason) => "json error: "@ + reason@,
        }
    }

    /// The message of an error.
    pub fn message(&self) -> (r: String)
        ensures
            r@ == self.said(),
    {
        match self {
            DiscoveryError::Io(reason) => join2("io error: ", reason.as_str()),
            DiscoveryError::DnsResolution { host, reason } => {
                let head = join3("dns resolution failed for ", host.as_str(), ": ");
                join2(head.as_str(), reason.as_str())
            },
            DiscoveryError::InvalidAddress(addr) => join2(
                "invalid address format: ",
                addr.as_str(),
            ),
            DiscoveryError::Config(reason) => join2("discovery config error: ", reason.as_str()),
            DiscoveryError::Timeout { millis } => join2(
                "discovery timed out after ",
                format_span(*millis).as_str(),
            ),
            DiscoveryError::Json(reason) => join2("json error: ", reason.as_str()),
        }
    }
}

/// The digits of so many thousandths after a decimal point, without zeros at the
/// end; nothing if there are no thousandths.
pub open spec fn thousandths(n: nat) -> Seq<char> {
    let (a, b, c) = (
        crate::text::digit(n / 100),
        crate::text::digit((n / 10) % 10),
        crate::text::digit(n % 10),
    );
    if n == 0 {
        Seq::empty()
    } else if n % 100 == 0 {
        seq!['.', a]
    } else if n % 10 == 0 {
        seq!['.', a, b]
    } else {
        seq!['.', a, b, c]
    }
}

/// A span of so many milliseconds: in seconds if there is a whole one, else in
/// milliseconds. The empty span is shown in nanoseconds.
pub open spec fn span_text(millis: nat) -> Seq<char> {
    if millis == 0 {
        "0ns"@
    } else if millis < 1000 {
        crate::text::decimal(millis) + "ms"@
    } else {
        crate::text::decimal(millis / 1000) + thousandths(millis % 1000) + "s"@
    }
}

fn format_thousandths(n: u64) -> (r: String)
    requires
        n < 1000,
    ensures
        r@ == thousandths(n as nat),
{
    proof {
        reveal_strlit(".");
    }
    if n == 0 {
        let r = String::new();
        assert(r@ =~= thousandths(0));
        return r;
    }
    let (a, b, c): (u64, u64, u64) = (n / 100, (n / 10) % 10, n % 10);
    let tenths = join2(".", format_u64(a).as_str());
    assert(tenths@ =~= seq!['.', crate::text::digit(a as nat)]);
    if n % 100 == 0 {
        return tenths;
    }
    let hundredths = join2(tenths.as_str(), format_u64(b).as_str());
    assert(hundredths@ =~= seq![
        '.',
        crate::text::digit(a as nat),
        crate::text::digit(b as nat),
    ]);
    if n % 10 == 0 {
        return hundredths;
    }
    let r = join2(hundredths.as_str(), format_u64(c).as_str());
    assert(r@ =~= thousandths(n as nat));
    r
}

/// A span of so many milliseconds as text.
fn format_span(millis: u128) -> (r: String)
    ensures
        r@ == span_text(millis as nat),
{
    if millis == 0 {
        text("0ns")
    } else if millis < 1000 {
        join2(format_u128(millis).as_str(), "ms")
    } else {
        let rest: u64 = (millis % 1000) as u64;
        join3(format_u128(millis / 1000).as_str(), format_thousandths(rest).as_str(), "s")
    }
}

/// Discovery configuration.
#[derive(Debug, Clone)]
pub struct DiscoveryConfig {
    /// Discovery method: "static", "dns", or "token".
    pub method: String,
    /// DNS hostnames to resolve (for method = "dns").
    pub dns_hosts: Vec<String>,
    /// Default port for DNS-resolved addresses (if not specified in hostname).
    pub dns_default_port: u16,
    /// Path to a shared file for token-based discovery (for method = "token").
    pub token_file: String,
    /// Expected cluster size for token-based discovery.
    pub token_expected_size: usize,
    /// Poll interval for discovery (used by token method).
    pub poll_interval_ms: u64,
    /// Timeout for the overall discovery process.
    pub timeout_secs: u64,
}

impl DiscoveryConfig {
    /// The defaults of every field.
    pub open spec fn is_default(self) -> bool {
        &&& self.method@ == "static"@
        &&& self.dns_hosts@ == Seq::<String>::empty()
        &&& self.dns_default_port == 2380
        &&& self.token_file@ == Seq::<char>::empty()
        &&& self.token_expected_size == 3
        &&& self.poll_interval_ms == 500
        &&& self.timeout_secs == 30
    }
}

impl Default for DiscoveryConfig {
    fn default() -> (r: Self)
        ensures
            r.is_default(),
    {
        DiscoveryConfig {
            method: text("static"),
            dns_hosts: Vec::new(),
            dns_default_port: 2380,
            token_file: String::new(),
            token_expected_size: 3,
            poll_interval_ms: 500,
            timeout_secs: 30,
        }
    }
}

/// A port, and a node identifier after a colon; 0 stands for no identifier.
pub open spec fn port_and_id(s: Seq<char>) -> Option<(u16, u64)> {
    match crate::text::first_at(s, ':', 0) {
        None => match crate::text::number(s, u16::MAX as nat) {
            Some(port) => Some((port as u16, 0u64)),
            None => None,
        },
        Some(i) => match (
            crate::text::number(s.take(i), u16::MAX as nat),
            crate::text::number(s.skip(i + 1), u64::MAX as nat),
        ) {
            (Some(port), Some(id)) => Some((port as u16, id as u64)),
            _ => None,
        },
    }
}

/// An address: host, colon and port.
pub open spec fn address(host: Seq<char>, port: u16) -> Seq<char> {
    host + seq![':'] + crate::text::decimal(port as nat)
}

/// A host in brackets.
pub open spec fn bracketed(host: Seq<char>) -> Seq<char> {
    seq!['['] + host + seq![']']
}

/// What a host entry says: the node identifier, 0 if there is none, and the
/// address, with the default port if there is none. A bracketed host is taken as
/// it stands between the brackets.
pub open spec fn host_entry(entry: Seq<char>, default_port: u16) -> Option<(u64, Seq<char>)> {
    match crate::text::first_at(entry, ']', 0) {
        Some(end) => {
            let host = entry.subrange(0, end + 1);
            let rest = entry.skip(end + 1);
            if entry[0] != '[' {
                None
            } else if rest.len() == 0 {
                Some((0u64, address(host, default_port)))
            } else if rest[0] != ':' {
                None
            } else {
                match port_and_id(rest.skip(1)) {
                    Some((port, id)) => Some((id, address(host, port))),
                    None => None,
                }
            }
        },
        None => match crate::text::first_at(entry, ':', 0) {
            None => Some((0u64, address(entry, default_port))),
            Some(i) => match port_and_id(entry.skip(i + 1)) {
                Some((port, id)) => Some((id, address(entry.take(i), port))),
                None => None,
            },
        },
    }
}

fn parse_port_and_id(chars: &Vec<char>, from: usize) -> (r: Option<(u16, u64)>)
    requires
        from <= chars@.len(),
    ensures
        r == port_and_id(chars@.skip(from as int)),
{
    let ghost s = chars@.skip(from as int);
    let end: usize = chars.len();
    proof {
        crate::text::first_at_means(chars@, ':', from as int);
        crate::text::first_at_means(s, ':', 0);
        assert(forall|j: int| 0 <= j < s.len() ==> s[j] == chars@[from + j]);
        assert(chars@.subrange(from as int, end as int) =~= s);
    }
    match find_char(chars, ':', from) {
        None => {
            proof {
                if let Some(k) = crate::text::first_at(s, ':', 0) {
                    assert(chars@[from + k] == ':');
                }
            }
            match parse_number(chars, from, end, u16::MAX as u64) {
                Some(port) => Some((port as u16, 0)),
                None => None,
            }
        },
        Some(i) => {
            proof {
                assert(s[i - from] == ':');
                let k = crate::text::first_at(s, ':', 0)->Some_0;
                assert(chars@[from + k] == ':');
                assert(k == i - from);
                assert(chars@.subrange(from as int, i as int) =~= s.take(k));
                assert(chars@.subrange(i + 1, end as int) =~= s.skip(k + 1));
            }
            match parse_number(chars, from, i, u16::MAX as u64) {
                Some(port) => match parse_number(chars, i + 1, end, u64::MAX) {
                    Some(id) => Some((port as u16, id)),
                    None => None,
                },
                None => None,
            }
        },
    }
}

fn format_address(host: &str, port: u16) -> (r: String)
    ensures
        r@ == address(host@, port),
{
    proof {
        reveal_strlit(":");
    }
    let r = join3(host, ":", format_u64(port as u64).as_str());
    assert(":"@ =~= seq![':']);
    r
}

/// DNS-based discovery: resolves hostnames to peer addresses.
pub struct DnsSrvDiscovery {
    hosts: Vec<String>,
    default_port: u16,
    timeout_ms: u128,
}

/// What looking up an address gave.
#[derive(Debug, Clone, PartialEq, Eq)]
pub enum Lookup {
    /// The first address that was found.
    Found(String),
    /// No address was found.
    NoAddress,
    /// The lookup failed.
    Failed(String),
    /// The lookup took too long.
    TimedOut,
}

/// What discovery by names does next.
pub enum DnsStep {
    /// Look an address up, for a peer with the given identifier.
    Lookup { id: u64, addr: String },
    /// All names are resolved.
    Done,
    /// Give up.
    Fail(DiscoveryError),
}

impl DnsSrvDiscovery {
    /// The names to resolve.
    pub closed spec fn names(&self) -> Seq<String> {
        self.hosts@
    }

    /// The port where none is given.
    pub closed spec fn port(&self) -> u16 {
        self.default_port
    }

    /// How many milliseconds discovery may take.
    pub closed spec fn timeout(&self) -> u128 {
        self.timeout_ms
    }

    pub fn new(hosts: Vec<String>, default_port: u16, timeout_ms: u128) -> (r: Self)
        ensures
            r.names() == hosts@,
            r.port() == default_port,
            r.timeout() == timeout_ms,
    {
        DnsSrvDiscovery { hosts, default_port, timeout_ms }
    }

    /// For how many milliseconds discovery may go on.
    pub fn timeout_in_millis(&self) -> (r: u128)
        ensures
            r == self.timeout(),
    {
        self.timeout_ms
    }

    /// Parse a host string, extracting optional port and node id.
    /// Supports IPv4 and bracketed IPv6:
    /// - "hostname" (uses default_port)
    /// - "hostname:port"
    /// - "hostname:port:id" (with explicit node id)
    /// - "[::1]:port"
    /// - "[::1]:port:id"
    pub fn parse_host_entry(entry: &str, default_port: u16) -> (r: Result<
        (u64, String),
        DiscoveryError,
    >)
        ensures
            match host_entry(entry@, default_port) {
                Some((id, addr)) => r is Ok && r->Ok_0.0 == id && r->Ok_0.1@ == addr,
                None => r is Err && r->Err_0 is InvalidAddress && r->Err_0->InvalidAddress_0@
                    == entry@,
            },
    {
        let chars = to_chars(entry);
        let n: usize = chars.len();
        if let Some(end) = find_char(&chars, ']', 0) {
            if chars[0] != '[' {
                return Err(DiscoveryError::InvalidAddress(text(entry)));
            }
            let host = entry.substring_char(0, end + 1);
            let ghost rest = entry@.skip(end + 1);
            if end + 1 == n {
                return Ok((0, format_address(host, default_port)));
            }
            assert(rest[0] == chars@[end + 1]);
            if chars[end + 1] != ':' {
                return Err(DiscoveryError::InvalidAddress(text(entry)));
            }
            assert(rest.skip(1) =~= chars@.skip(end + 2));
            return match parse_port_and_id(&chars, end + 2) {
                Some((port, id)) => Ok((id, format_address(host, port))),
                None => Err(DiscoveryError::InvalidAddress(text(entry))),
            };
        }
        match find_char(&chars, ':', 0) {
            None => Ok((0, format_address(entry, default_port))),
            Some(i) => {
                let host = entry.substring_char(0, i);
                assert(host@ =~= entry@.take(i as int));
                match parse_port_and_id(&chars, i + 1) {
                    Some((port, id)) => Ok((id, format_address(host, port))),
                    None => Err(DiscoveryError::InvalidAddress(text(entry))),
                }
            },
        }
    }

    /// What is done when the first names are resolved, `resolved` in number.
    pub fn next_step(&self, resolved: usize, past_deadline: bool) -> (r: DnsStep)
        ensures
            if resolved >= self.names().len() {
                r is Done
            } else if past_deadline {
                r == DnsStep::Fail(DiscoveryError::Timeout { millis: self.timeout() })
            } else {
                match (host_entry(self.names()[resolved as int]@, self.port()), r) {
                    (Some((id, addr)), DnsStep::Lookup { id: found, addr: shown }) => found == id
                        && shown@ == addr,
                    (None, DnsStep::Fail(DiscoveryError::InvalidAddress(entry))) => entry@
                        == self.names()[resolved as int]@,
                    _ => false,
                }
            },
    {
        if resolved >= self.hosts.len() {
            return DnsStep::Done;
        }
        if past_deadline {
            return DnsStep::Fail(DiscoveryError::Timeout { millis: self.timeout_ms });
        }
        match Self::parse_host_entry(self.hosts[resolved].as_str(), self.default_port) {
            Ok((id, addr)) => DnsStep::Lookup { id, addr },
            Err(e) => DnsStep::Fail(e),
        }
    }

    /// The address that a lookup gave.
    pub fn resolved(addr: String, outcome: Lookup) -> (r: Result<String, DiscoveryError>)
        ensures
            match outcome {
                Lookup::Found(found) => r == Ok::<String, DiscoveryError>(found),
                Lookup::NoAddress => not_resolved(addr, "no addresses returned"@, r),
                Lookup::Failed(reason) => not_resolved(addr, reason@, r),
                Lookup::TimedOut => not_resolved(addr, "timeout"@, r),
            },
    {
        match outcome {
            Lookup::Found(found) => Ok(found),
            Lookup::NoAddress => Err(
                DiscoveryError::DnsResolution { host: addr, reason: text("no addresses returned") },
            ),
            Lookup::Failed(reason) => Err(DiscoveryError::DnsResolution { host: addr, reason }),
            Lookup::TimedOut => Err(
                DiscoveryError::DnsResolution { host: addr, reason: text("timeout") },
            ),
        }
    }

    /// Gives every peer its identifier: the one that was given, or one of its own
    /// that nobody else was given.
    pub fn assign_ids(parsed: Vec<(u64, String)>) -> (peers: Vec<PeerInfo>)
        requires
            parsed@.len() < u64::MAX,
        ensures
            assigned(parsed@, peers@),
    {
        let ghost all = parsed@;
        let mut peers: Vec<PeerInfo> = Vec::new();
        let mut auto_id: u64 = 1;
        let mut i: usize = 0;
        while i < parsed.len()
            invariant
                i <= parsed.len(),
                all == parsed@,
                all.len() < u64::MAX,
                peers@.len() == i,
                auto_id >= 1,
                auto_id == last_auto(all, peers@, i as int) + 1,
                assigned_up_to(all, peers@, i as int),
                forall|n: u64| 1 <= n < auto_id ==> #[trigger] taken(all, peers@, i as int, n),
            decreases parsed.len() - i,
        {
            let id: u64 = parsed[i].0;
            let ghost before = peers@;
            let node_id: u64 = if id == 0 {
                let ghost start = auto_id;
                while is_explicit(&parsed, auto_id)
                    invariant
                        i < parsed.len(),
                        all == parsed@,
                        all.len() < u64::MAX,
                        before.len() == i,
                        1 <= start <= auto_id,
                        start == last_auto(all, before, i as int) + 1,
                        forall|n: u64| 1 <= n < auto_id ==> #[trigger] taken(all, before, i as int, n),
                        forall|n: u64| start <= n < auto_id ==> #[trigger] given(all, n),
                        all[i as int].0 == 0,
                    decreases u64::MAX - auto_id,
                {
                    proof {
                        taken_bound(all, before, i as int, auto_id);
                    }
                    auto_id = auto_id + 1;
                }
                let assigned_id: u64 = auto_id;
                proof {
                    taken_bound(all, before, i as int, auto_id);
                }
                auto_id = auto_id + 1;
                assigned_id
            } else {
                id
            };
            peers.push(PeerInfo { node_id, addr: text(parsed[i].1.as_str()) });
            proof {
                last_auto_same(all, before, peers@, i as int);
                assert forall|n: u64| 1 <= n < auto_id implies #[trigger] taken(
                    all,
                    peers@,
                    i + 1,
                    n,
                ) by {
                    if n == node_id && id == 0 {
                        assert(auto_at(all, peers@, i as int, n));
                    } else {
                        assert(taken(all, before, i as int, n));
                        if !given(all, n) {
                            let j = choose|j: int| 0 <= j < i && #[trigger] auto_at(all, before, j, n);
                            assert(auto_at(all, peers@, j, n));
                        }
                    }
                }
                assert forall|j: int| 0 <= j < i + 1 implies #[trigger] assigned_at(all, peers@, j) by {
                    if j < i {
                        assert(assigned_at(all, before, j));
                        last_auto_same(all, before, peers@, j);
                    }
                }
            }
            i = i + 1;
        }
        peers
    }
}

/// The identifier was given to somebody.
pub open spec fn given(parsed: Seq<(u64, String)>, n: u64) -> bool {
    exists|j: int| 0 <= j < parsed.len() && (#[trigger] parsed[j]).0 == n
}

/// The identifier was found for the peer at `j`, which was given none.
pub open spec fn auto_at(parsed: Seq<(u64, String)>, peers: Seq<PeerInfo>, j: int, n: u64) -> bool {
    parsed[j].0 == 0 && peers[j].node_id == n
}

spec fn taken(parsed: Seq<(u64, String)>, peers: Seq<PeerInfo>, upto: int, n: u64) -> bool {
    given(parsed, n) || exists|j: int| 0 <= j < upto && #[trigger] auto_at(parsed, peers, j, n)
}

/// The identifier that was found last for one of the first `n` peers, 0 if none
/// was.
pub open spec fn last_auto(parsed: Seq<(u64, String)>, peers: Seq<PeerInfo>, n: int) -> int
    decreases n,
{
    if n <= 0 {
        0
    } else if parsed[n - 1].0 == 0 {
        peers[n - 1].node_id as int
    } else {
        last_auto(parsed, peers, n - 1)
    }
}

/// The peer at `i` has the address that was resolved for it, and the identifier
/// that it was given; without one, the least identifier above the last one found
/// that nobody was given.
pub open spec fn assigned_at(parsed: Seq<(u64, String)>, peers: Seq<PeerInfo>, i: int) -> bool {
    &&& peers[i].addr@ == parsed[i].1@
    &&& parsed[i].0 != 0 ==> peers[i].node_id == parsed[i].0
    &&& parsed[i].0 == 0 ==> {
        &&& last_auto(parsed, peers, i) < peers[i].node_id
        &&& !given(parsed, peers[i].node_id)
        &&& forall|n: u64|
            last_auto(parsed, peers, i) < n < peers[i].node_id ==> #[trigger] given(parsed, n)
    }
}

spec fn assigned_up_to(parsed: Seq<(u64, String)>, peers: Seq<PeerInfo>, n: int) -> bool {
    forall|i: int| 0 <= i < n ==> #[trigger] assigned_at(parsed, peers, i)
}

/// Every peer has its address and its identifier.
pub open spec fn assigned(parsed: Seq<(u64, String)>, peers: Seq<PeerInfo>) -> bool {
    &&& peers.len() == parsed.len()
    &&& forall|i: int| 0 <= i < parsed.len() ==> #[trigger] assigned_at(parsed, peers, i)
}

/// The lookup of an address did not give one.
pub open spec fn not_resolved(
    addr: String,
    why: Seq<char>,
    r: Result<String, DiscoveryError>,
) -> bool {
    match r {
        Err(DiscoveryError::DnsResolution { host, reason }) => host == addr && reason@ == why,
        _ => false,
    }
}

fn is_explicit(parsed: &Vec<(u64, String)>, id: u64) -> (r: bool)
    ensures
        r == given(parsed@, id),
{
    let mut i: usize = 0;
    while i < parsed.len()
        invariant
            i <= parsed.len(),
            forall|j: int| 0 <= j < i ==> (#[trigger] parsed@[j]).0 != id,
        decreases parsed.len() - i,
    {
        if parsed[i].0 == id {
            return true;
        }
        i = i + 1;
    }
    false
}

proof fn last_auto_same(
    parsed: Seq<(u64, String)>,
    a: Seq<PeerInfo>,
    b: Seq<PeerInfo>,
    n: int,
)
    requires
        0 <= n <= a.len(),
        n <= b.len(),
        forall|j: int| 0 <= j < n ==> a[j] == b[j],
    ensures
        last_auto(parsed, a, n) == last_auto(parsed, b, n),
    decreases n,
{
    if n > 0 {
        last_auto_same(parsed, a, b, n - 1);
    }
}

/// A place in the list for a number that is taken: where it was given, or else
/// where it was found.
spec fn place(parsed: Seq<(u64, String)>, peers: Seq<PeerInfo>, upto: int, n: int) -> int {
    if given(parsed, n as u64) {
        choose|j: int| 0 <= j < parsed.len() && (#[trigger] parsed[j]).0 == n as u64
    } else {
        choose|j: int| 0 <= j < upto && #[trigger] auto_at(parsed, peers, j, n as u64)
    }
}

spec fn places(parsed: Seq<(u64, String)>, peers: Seq<PeerInfo>, upto: int, n: int) -> Set<int>
    decreases n,
{
    if n <= 1 {
        Set::empty()
    } else {
        places(parsed, peers, upto, n - 1).insert(place(parsed, peers, upto, n - 1))
    }
}

/// The places of the numbers below `n` are all different, and none is `upto`.
proof fn places_count(parsed: Seq<(u64, String)>, peers: Seq<PeerInfo>, upto: int, n: u64, m: int)
    requires
        0 <= upto < parsed.len(),
        parsed[upto].0 == 0,
        1 <= m <= n,
        forall|k: u64| 1 <= k < n ==> #[trigger] taken(parsed, peers, upto, k),
    ensures
        places(parsed, peers, upto, m).finite(),
        places(parsed, peers, upto, m).len() == m - 1,
        forall|j: int| #[trigger]
            places(parsed, peers, upto, m).contains(j) ==> {
                &&& 0 <= j < parsed.len()
                &&& j != upto
                &&& exists|k: int| 1 <= k < m && j == #[trigger] place(parsed, peers, upto, k)
            },
    decreases m,
{
    if m > 1 {
        places_count(parsed, peers, upto, n, m - 1);
        let prev = places(parsed, peers, upto, m - 1);
        let k = m - 1;
        let j = place(parsed, peers, upto, k);
        place_means(parsed, peers, upto, n, k);
        if prev.contains(j) {
            let k2 = choose|k2: int| 1 <= k2 < m - 1 && j == #[trigger] place(parsed, peers, upto, k2);
            place_means(parsed, peers, upto, n, k2);
        }
        assert(!prev.contains(j));
        let now = places(parsed, peers, upto, m);
        assert forall|x: int| #[trigger] now.contains(x) implies {
            &&& 0 <= x < parsed.len()
            &&& x != upto
            &&& exists|k: int| 1 <= k < m && x == #[trigger] place(parsed, peers, upto, k)
        } by {
            if prev.contains(x) {
                let k2 = choose|k2: int| 1 <= k2 < m - 1 && x == #[trigger] place(parsed, peers, upto, k2);
                assert(x == place(parsed, peers, upto, k2));
            } else {
                assert(x == place(parsed, peers, upto, k));
            }
        }
    }
}

proof fn place_means(parsed: Seq<(u64, String)>, peers: Seq<PeerInfo>, upto: int, n: u64, k: int)
    requires
        0 <= upto < parsed.len(),
        parsed[upto].0 == 0,
        1 <= k < n,
        forall|k: u64| 1 <= k < n ==> #[trigger] taken(parsed, peers, upto, k),
    ensures
        ({
            let j = place(parsed, peers, upto, k);
            &&& 0 <= j < parsed.len()
            &&& j != upto
            &&& (parsed[j].0 == k || (parsed[j].0 == 0 && peers[j].node_id == k))
        }),
{
    let id = k as u64;
    assert(taken(parsed, peers, upto, id));
    let j = place(parsed, peers, upto, k);
    if given(parsed, id) {
        assert(parsed[j].0 == id);
    } else {
        assert(auto_at(parsed, peers, j, id));
    }
}

/// Numbers that are all taken are fewer than the peers.
proof fn taken_bound(parsed: Seq<(u64, String)>, peers: Seq<PeerInfo>, upto: int, n: u64)
    requires
        0 <= upto < parsed.len(),
        parsed[upto].0 == 0,
        1 <= n,
        forall|k: u64| 1 <= k < n ==> #[trigger] taken(parsed, peers, upto, k),
    ensures
        n <= parsed.len(),
{
    places_count(parsed, peers, upto, n, n as int);
    let found = places(parsed, peers, upto, n as int);
    let all = vstd::set_lib::set_int_range(0, parsed.len() as int);
    vstd::set_lib::lemma_int_range(0, parsed.len() as int);
    assert(found.insert(upto).subset_of(all));
    vstd::set_lib::lemma_len_subset(found.insert(upto), all);
}

/// Identifiers that were found are nobody else's: neither given to anybody nor
/// found twice.
pub proof fn found_ids_are_new(
    parsed: Seq<(u64, String)>,
    peers: Seq<PeerInfo>,
    i: int,
    j: int,
)
    requires
        assigned(parsed, peers),
        0 <= i < parsed.len(),
        0 <= j < parsed.len(),
        i != j,
        parsed[i].0 == 0,
    ensures
        peers[i].node_id != peers[j].node_id,
        peers[i].node_id >= 1,
{
    assert(assigned_at(parsed, peers, i) && assigned_at(parsed, peers, j));
    last_auto_bound(parsed, peers, i);
    if parsed[j].0 != 0 {
        assert(given(parsed, parsed[j].0));
    } else if i < j {
        found_grow(parsed, peers, i, j);
    } else {
        last_auto_bound(parsed, peers, j);
        found_grow(parsed, peers, j, i);
    }
}

proof fn last_auto_bound(parsed: Seq<(u64, String)>, peers: Seq<PeerInfo>, n: int)
    ensures
        last_auto(parsed, peers, n) >= 0,
    decreases n,
{
    if n > 0 {
        last_auto_bound(parsed, peers, n - 1);
    }
}

proof fn found_grow(parsed: Seq<(u64, String)>, peers: Seq<PeerInfo>, i: int, j: int)
    requires
        assigned(parsed, peers),
        0 <= i < j <= parsed.len(),
        parsed[i].0 == 0,
    ensures
        last_auto(parsed, peers, j) >= peers[i].node_id,
    decreases j,
{
    assert(assigned_at(parsed, peers, i));
    if j > i + 1 {
        found_grow(parsed, peers, i, j - 1);
        assert(assigned_at(parsed, peers, j - 1));
    }
}

/// A host name stands in an entry as it is: it holds no colon and no bracket.
pub open spec fn plain_host(host: Seq<char>) -> bool {
    forall|i: int| 0 <= i < host.len() ==> #[trigger] host[i] != ':' && host[i] != ']'
}

/// The forms of a host entry: a host, with or without a port, with or without an
/// identifier after the port.
pub proof fn plain_entries(host: Seq<char>, port: u16, id: u64, default_port: u16)
    requires
        plain_host(host),
    ensures
        host_entry(host, default_port) == Some((0u64, address(host, default_port))),
        host_entry(address(host, port), default_port) == Some((0u64, address(host, port))),
        host_entry(
            address(host, port) + seq![':'] + crate::text::decimal(id as nat),
            default_port,
        ) == Some((id, address(host, port))),
{
    let p = crate::text::decimal(port as nat);
    let d = crate::text::decimal(id as nat);
    crate::text::first_at_means(host, ']', 0);
    crate::text::first_at_means(host, ':', 0);
    crate::text::number_reads_decimal(port as nat, u16::MAX as nat);
    crate::text::number_reads_decimal(id as nat, u64::MAX as nat);
    only_digits(p);
    only_digits(d);
    reads_port_and_id(port, id);
    plain_then(host, p, default_port);
    let tail = p + seq![':'] + d;
    plain_then(host, tail, default_port);
    assert(address(host, port) + seq![':'] + d =~= host + seq![':'] + tail);
}

/// What follows a host and a colon is read as a port and an identifier.
proof fn plain_then(host: Seq<char>, tail: Seq<char>, default_port: u16)
    requires
        plain_host(host),
        forall|i: int| 0 <= i < tail.len() ==> #[trigger] tail[i] != ']',
    ensures
        host_entry(host + seq![':'] + tail, default_port) == match port_and_id(tail) {
            Some((port, id)) => Some((id, address(host, port))),
            None => None,
        },
{
    let n = host.len() as int;
    let s = host + seq![':'] + tail;
    tail_has_no_bracket(host, tail);
    after_colon(host, tail);
    assert(s.skip(n + 1) =~= tail);
    assert(s.take(n) =~= host);
}

/// The forms of a host entry with a bracketed host, which may hold colons.
pub proof fn bracketed_entries(host: Seq<char>, port: u16, id: u64, default_port: u16)
    requires
        forall|i: int| 0 <= i < host.len() ==> #[trigger] host[i] != ']',
    ensures
        host_entry(bracketed(host), default_port) == Some(
            (0u64, address(bracketed(host), default_port)),
        ),
        host_entry(address(bracketed(host), port), default_port) == Some(
            (0u64, address(bracketed(host), port)),
        ),
        host_entry(
            address(bracketed(host), port) + seq![':'] + crate::text::decimal(id as nat),
            default_port,
        ) == Some((id, address(bracketed(host), port))),
{
    let b = bracketed(host);
    let p = crate::text::decimal(port as nat);
    let d = crate::text::decimal(id as nat);
    reads_port_and_id(port, id);
    bracket_at(host, Seq::empty());
    assert(b + Seq::<char>::empty() =~= b);
    assert(b.subrange(0, host.len() as int + 2) =~= b);
    bracketed_then(host, p, default_port);
    assert(address(b, port) =~= b + (seq![':'] + p));
    let tail = p + seq![':'] + d;
    bracketed_then(host, tail, default_port);
    assert(address(b, port) + seq![':'] + d =~= b + (seq![':'] + tail));
}

/// A port, with or without an identifier, is read back.
proof fn reads_port_and_id(port: u16, id: u64)
    ensures
        port_and_id(crate::text::decimal(port as nat)) == Some((port, 0u64)),
        port_and_id(
            crate::text::decimal(port as nat) + seq![':'] + crate::text::decimal(id as nat),
        ) == Some((port, id)),
{
    let p = crate::text::decimal(port as nat);
    let d = crate::text::decimal(id as nat);
    crate::text::number_reads_decimal(port as nat, u16::MAX as nat);
    crate::text::number_reads_decimal(id as nat, u64::MAX as nat);
    only_digits(p);
    crate::text::first_at_means(p, ':', 0);
    after_colon(p, d);
    let tail = p + seq![':'] + d;
    assert(tail.take(p.len() as int) =~= p);
    assert(tail.skip(p.len() as int + 1) =~= d);
}

/// What follows a bracketed host and a colon is read as a port and an identifier.
proof fn bracketed_then(host: Seq<char>, tail: Seq<char>, default_port: u16)
    requires
        forall|i: int| 0 <= i < host.len() ==> #[trigger] host[i] != ']',
    ensures
        host_entry(bracketed(host) + (seq![':'] + tail), default_port) == match port_and_id(tail) {
            Some((port, id)) => Some((id, address(bracketed(host), port))),
            None => None,
        },
{
    let b = bracketed(host);
    let n = host.len() as int;
    let s = b + (seq![':'] + tail);
    bracket_at(host, seq![':'] + tail);
    assert(s.subrange(0, n + 2) =~= b);
    assert(s.skip(n + 2) =~= seq![':'] + tail);
    assert(s.skip(n + 2).skip(1) =~= tail);
}

proof fn only_digits(s: Seq<char>)
    requires
        crate::text::all_digits(s),
    ensures
        plain_host(s),
{
    assert forall|i: int| 0 <= i < s.len() implies #[trigger] s[i] != ':' && s[i] != ']' by {
        assert(crate::text::is_digit(s[i]));
    }
}

/// Behind a text without a colon the first colon is the one that follows it.
proof fn after_colon(host: Seq<char>, tail: Seq<char>)
    requires
        plain_host(host),
    ensures
        crate::text::first_at(host + seq![':'] + tail, ':', 0) == Some(host.len() as int),
{
    let s = host + seq![':'] + tail;
    crate::text::first_at_means(s, ':', 0);
    assert(s[host.len() as int] == ':');
    assert(forall|j: int| 0 <= j < host.len() ==> s[j] == host[j]);
}

proof fn tail_has_no_bracket(host: Seq<char>, tail: Seq<char>)
    requires
        plain_host(host),
        forall|i: int| 0 <= i < tail.len() ==> #[trigger] tail[i] != ']',
    ensures
        crate::text::first_at(host + seq![':'] + tail, ']', 0) is None,
{
    let s = host + seq![':'] + tail;
    crate::text::first_at_means(s, ']', 0);
    if let Some(j) = crate::text::first_at(s, ']', 0) {
        if j < host.len() {
            assert(s[j] == host[j]);
        } else if j > host.len() {
            assert(s[j] == tail[j - host.len() - 1]);
        }
    }
}

proof fn bracket_at(host: Seq<char>, tail: Seq<char>)
    requires
        forall|i: int| 0 <= i < host.len() ==> #[trigger] host[i] != ']',
    ensures
        crate::text::first_at(bracketed(host) + tail, ']', 0) == Some(host.len() as int + 1),
{
    let s = bracketed(host) + tail;
    crate::text::first_at_means(s, ']', 0);
    assert(s[host.len() as int + 1] == ']');
    assert(s[0] == '[');
    assert(forall|j: int| 1 <= j < host.len() + 1 ==> s[j] == host[j - 1]);
}

/// The fields of a line of a token file.
pub open spec fn token_record() -> crate::json::Record {
    crate::json::Record {
        shape: "struct TokenEntry with 2 elements"@,
        fields: seq![
            ("node_id"@, crate::json::Kind::Number),
            ("addr"@, crate::json::Kind::Text),
        ],
    }
}

/// What a line of a token file says of a peer, if it says anything.
pub open spec fn token_peer(line: Seq<char>) -> Option<Peer> {
    if crate::json::json_valid(line) {
        match crate::json::says(line, token_record()) {
            Ok(data) => match (data[0], data[1]) {
                (crate::json::Datum::Number(node_id), crate::json::Datum::Text(addr)) => Some(
                    Peer { node_id, addr },
                ),
                _ => None,
            },
            Err(_) => None,
        }
    } else {
        None
    }
}

/// What a peer registers with: its identifier and its address.
pub open spec fn registration_fields(peer: Peer) -> Seq<(Seq<char>, crate::json::Datum)> {
    seq![
        ("node_id"@, crate::json::Datum::Number(peer.node_id)),
        ("addr"@, crate::json::Datum::Text(peer.addr)),
    ]
}

/// The line with which a peer registers, without its end.
pub open spec fn registration_line(peer: Peer) -> Seq<char> {
    crate::json::object_text(registration_fields(peer))
}

fn token_schema() -> (r: Schema)
    ensures
        r@ == token_record(),
{
    let mut fields: Vec<(&'static str, Kind)> = Vec::new();
    fields.push(("node_id", Kind::Number));
    fields.push(("addr", Kind::Text));
    let r = Schema { shape: "struct TokenEntry with 2 elements", fields };
    assert(r@.fields =~= token_record().fields);
    r
}

/// What a line of a token file says of a peer.
fn read_token_line(line: &str) -> (r: Option<PeerInfo>)
    ensures
        match r {
            Some(peer) => token_peer(line@) == Some(peer@),
            None => token_peer(line@) is None,
        },
{
    if check_form(line).is_err() {
        return None;
    }
    match read_record(line, &token_schema()) {
        Ok(read) => {
            let mut values = read;
            let ghost all = values@;
            assert(all.len() > 0 ==> crate::json::data(all)[0] == all[0]@);
            assert(all.len() > 1 ==> crate::json::data(all)[1] == all[1]@);
            proof {
                crate::json::as_many_values(line@, token_record());
            }
            match (values.remove(0), values.remove(0)) {
                (Value::Number(node_id), Value::Text(addr)) => Some(PeerInfo { node_id, addr }),
                _ => None,
            }
        },
        Err(_) => None,
    }
}

/// Where a line that begins at `from` ends.
pub open spec fn line_end(s: Seq<char>, from: int) -> int {
    match crate::text::first_at(s, '\n', from) {
        Some(i) => i,
        None => s.len() as int,
    }
}

/// The peer that one line says, if any.
pub open spec fn peer_in_line(line: Seq<char>) -> Seq<Peer> {
    let said = crate::text::trimmed(line);
    if said.len() == 0 {
        Seq::empty()
    } else {
        match token_peer(said) {
            Some(peer) => seq![peer],
            None => Seq::empty(),
        }
    }
}

/// The peers that the lines of a text say from a place on, in order. Empty lines
/// and lines that say no peer are passed over.
pub open spec fn peers_from(s: Seq<char>, from: int) -> Seq<Peer>
    decreases s.len() - from + 1,
    via peers_from_decreases
{
    if from < 0 || from >= s.len() {
        Seq::empty()
    } else {
        peer_in_line(s.subrange(from, line_end(s, from))) + peers_from(s, line_end(s, from) + 1)
    }
}

#[via_fn]
proof fn peers_from_decreases(s: Seq<char>, from: int) {
    if 0 <= from < s.len() {
        crate::text::first_at_means(s, '\n', from);
    }
}

/// The peers that are registered in a token file.
pub open spec fn registered(content: Seq<char>) -> Seq<Peer> {
    peers_from(content, 0)
}

/// The line stands for the peer: it has no line break and no white space around
/// it, and it reads as the peer.
pub open spec fn stands_for(line: Seq<char>, peer: Peer) -> bool {
    &&& line.len() > 0
    &&& !line.contains('\n')
    &&& crate::text::trimmed(line) == line
    &&& token_peer(line) == Some(peer)
}

/// Token-based discovery: nodes register in a shared file.
///
/// Protocol:
/// 1. First node creates the token file with its registration.
/// 2. Subsequent nodes append their registration.
/// 3. Once `expected_size` nodes have registered, discovery completes.
///
/// The token file format is newline-delimited JSON, one peer per line.
pub struct TokenDiscovery {
    token_file: String,
    self_info: PeerInfo,
    expected_size: usize,
    poll_interval_ms: u64,
    timeout_ms: u128,
}

/// What discovery by a token file does next.
pub enum TokenStep {
    /// Enough peers are registered.
    Complete,
    /// Give up.
    Fail(DiscoveryError),
    /// Look again after the given number of milliseconds.
    Wait { millis: u64 },
}

impl TokenDiscovery {
    /// The shared file.
    pub closed spec fn file(&self) -> Seq<char> {
        self.token_file@
    }

    /// What this node registers.
    pub closed spec fn own(&self) -> Peer {
        self.self_info@
    }

    /// How many registrations are waited for.
    pub closed spec fn expected(&self) -> usize {
        self.expected_size
    }

    /// How many milliseconds pass between two looks at the file.
    pub closed spec fn interval(&self) -> u64 {
        self.poll_interval_ms
    }

    /// How many milliseconds discovery may take.
    pub closed spec fn timeout(&self) -> u128 {
        self.timeout_ms
    }

    pub fn new(
        token_file: String,
        self_info: PeerInfo,
        expected_size: usize,
        poll_interval_ms: u64,
        timeout_ms: u128,
    ) -> (r: Self)
        ensures
            r.file() == token_file@,
            r.own() == self_info@,
            r.expected() == expected_size,
            r.interval() == poll_interval_ms,
            r.timeout() == timeout_ms,
    {
        TokenDiscovery { token_file, self_info, expected_size, poll_interval_ms, timeout_ms }
    }

    /// The shared file.
    pub fn token_path(&self) -> (r: &str)
        ensures
            r@ == self.file(),
    {
        self.token_file.as_str()
    }

    /// For how many milliseconds discovery may go on.
    pub fn timeout_in_millis(&self) -> (r: u128)
        ensures
            r == self.timeout(),
    {
        self.timeout_ms
    }

    /// The registered peers in what the token file holds, skipping malformed lines.
    pub fn read_peers(content: &str) -> (r: Vec<PeerInfo>)
        ensures
            peer_views(r@) == registered(content@),
    {
        let chars = to_chars(content);
        let n: usize = chars.len();
        let mut peers: Vec<PeerInfo> = Vec::new();
        let mut from: usize = 0;
        assert(peer_views(peers@) + peers_from(content@, 0) =~= registered(content@));
        while from < n
            invariant
                chars@ == content@,
                n == content@.len(),
                peer_views(peers@) + peers_from(content@, from as int) == registered(content@),
            decreases n - from,
        {
            let end: usize = match find_char(&chars, '\n', from) {
                Some(i) => i,
                None => n,
            };
            let (a, b) = trim_range(&chars, from, end);
            let ghost before = peer_views(peers@);
            let ghost line = content@.subrange(from as int, end as int);
            assert(end == line_end(content@, from as int));
            if a < b {
                let said = content.substring_char(a, b);
                if let Some(peer) = read_token_line(said) {
                    proof {
                        assert(peer_views(peers@.push(peer)) =~= before.push(peer@));
                        assert(before.push(peer@) =~= before + seq![peer@]);
                    }
                    peers.push(peer);
                } else {
                    assert(before + Seq::<Peer>::empty() =~= before);
                }
            } else {
                assert(before + Seq::<Peer>::empty() =~= before);
            }
            proof {
                assert(peer_views(peers@) == before + peer_in_line(line));
                assert((before + peer_in_line(line)) + peers_from(content@, end + 1)
                    =~= before + (peer_in_line(line) + peers_from(content@, end + 1)));
            }
            if end < n {
                from = end + 1;
            } else {
                proof {
                    assert(peers_from(content@, end + 1) =~= Seq::<Peer>::empty());
                    assert(peers_from(content@, n as int) =~= Seq::<Peer>::empty());
                }
                from = n;
            }
        }
        proof {
            assert(peers_from(content@, from as int) =~= Seq::<Peer>::empty());
            assert(peer_views(peers@) + Seq::<Peer>::empty() =~= peer_views(peers@));
        }
        peers
    }

    /// The line with which this node registers, to be appended to the token file.
    pub fn registration(&self) -> (r: Result<String, DiscoveryError>)
        ensures
            r is Ok,
            r->Ok_0@ == registration_line(self.own()) + seq!['\n'],
            stands_for(registration_line(self.own()), self.own()),
    {
        let mut fields: Vec<(&'static str, Value)> = Vec::new();
        fields.push(("node_id", Value::Number(self.self_info.node_id)));
        fields.push(("addr", Value::Text(text(self.self_info.addr.as_str()))));
        proof {
            reveal_strlit("node_id");
            reveal_strlit("addr");
            reveal_strlit("\n");
            assert("node_id"@.len() != "addr"@.len());
            assert(crate::json::named(fields@) =~= registration_fields(self.own()));
            assert("\n"@ =~= seq!['\n']);
        }
        match write_object(&fields) {
            Ok(line) => {
                proof {
                    registration_stands_for(self.own());
                }
                Ok(join2(line.as_str(), "\n"))
            },
            Err(message) => Err(DiscoveryError::Json(message)),
        }
    }

    /// What is done when the token file holds `count` registrations.
    pub fn step(&self, count: usize, past_deadline: bool) -> (r: TokenStep)
        ensures
            r == if count >= self.expected() {
                TokenStep::Complete
            } else if past_deadline {
                TokenStep::Fail(DiscoveryError::Timeout { millis: self.timeout() })
            } else {
                TokenStep::Wait { millis: self.interval() }
            },
    {
        if count >= self.expected_size {
            TokenStep::Complete
        } else if past_deadline {
            TokenStep::Fail(DiscoveryError::Timeout { millis: self.timeout_ms })
        } else {
            TokenStep::Wait { millis: self.poll_interval_ms }
        }
    }
}

proof fn registration_stands_for(peer: Peer)
    requires
        crate::json::json_valid(registration_line(peer)),
        crate::json::read_back(registration_fields(peer)),
    ensures
        stands_for(registration_line(peer), peer),
{
    let fields = registration_fields(peer);
    let line = registration_line(peer);
    reveal_strlit("node_id");
    reveal_strlit("addr");
    assert("node_id"@.len() != "addr"@.len());
    crate::json::written_reads_back(token_record(), fields);
    let data = fields.map_values(|f: (Seq<char>, crate::json::Datum)| f.1);
    assert(data[0] == crate::json::Datum::Number(peer.node_id));
    assert(data[1] == crate::json::Datum::Text(peer.addr));
    crate::json::written_on_one_line(fields);
    crate::json::written_in_braces(fields);
    assert(crate::text::trim_start(line) == line);
    assert(crate::text::trim_end(line) == line);
}

/// A registration that is appended to a token file of whole lines is read back as
/// one more peer at the end.
pub proof fn registration_reads_back(content: Seq<char>, line: Seq<char>, peer: Peer)
    requires
        stands_for(line, peer),
        content.len() == 0 || content.last() == '\n',
    ensures
        registered(content + (line + seq!['\n'])) == registered(content).push(peer),
{
    append_from(content, line, peer, 0);
}

proof fn append_from(content: Seq<char>, line: Seq<char>, peer: Peer, from: int)
    requires
        stands_for(line, peer),
        content.len() == 0 || content.last() == '\n',
        0 <= from <= content.len(),
    ensures
        peers_from(content + (line + seq!['\n']), from) == peers_from(content, from).push(peer),
    decreases content.len() - from,
{
    let added = line + seq!['\n'];
    let s = content + added;
    let n = content.len() as int;
    crate::text::first_at_means(s, '\n', from);
    if from == n {
        assert(forall|j: int| 0 <= j < line.len() ==> s[n + j] == line[j]);
        assert(s[n + line.len()] == '\n');
        let end = line_end(s, from);
        if end < n + line.len() {
            assert(line[end - n] == '\n');
            assert(line.contains('\n'));
        }
        assert(end == n + line.len());
        assert(s.subrange(from, end) =~= line);
        assert(peer_in_line(line) =~= seq![peer]);
        assert(peers_from(s, end + 1) =~= Seq::<Peer>::empty());
        assert(peers_from(content, from) =~= Seq::<Peer>::empty());
        assert(peers_from(s, from) =~= seq![peer] + Seq::<Peer>::empty());
        assert(Seq::<Peer>::empty().push(peer) =~= seq![peer] + Seq::<Peer>::empty());
    } else {
        crate::text::first_at_means(content, '\n', from);
        assert(content[n - 1] == '\n');
        let end = line_end(content, from);
        assert(end < n);
        assert(s[end] == '\n');
        assert(forall|j: int| 0 <= j < n ==> s[j] == content[j]);
        assert(line_end(s, from) == end);
        assert(s.subrange(from, end) =~= content.subrange(from, end));
        append_from(content, line, peer, end + 1);
        let head = peer_in_line(content.subrange(from, end));
        assert(head + peers_from(content, end + 1).push(peer) =~= (head + peers_from(
            content,
            end + 1,
        )).push(peer));
    }
}

/// How peers are discovered.
pub enum Provider {
    Dns(DnsSrvDiscovery),
    Token(TokenDiscovery),
}

/// What is said of a discovery method that is not known.
pub open spec fn unknown_method(method: Seq<char>) -> Seq<char> {
    "unknown discovery method: "@ + method + " (valid: dns, token)"@
}

/// Build a provider from configuration and self info.
pub fn build_provider(config: &DiscoveryConfig, self_info: PeerInfo) -> (r: Result<
    Provider,
    DiscoveryError,
>)
    ensures
        if config.method@ == "dns"@ {
            if config.dns_hosts@.len() == 0 {
                refused(r, "dns_hosts must not be empty for dns discovery"@)
            } else {
                match r {
                    Ok(Provider::Dns(dns)) => {
                        &&& crate::text::texts(dns.names()) == crate::text::texts(
                            config.dns_hosts@,
                        )
                        &&& dns.port() == config.dns_default_port
                        &&& dns.timeout() == config.timeout_secs * 1000
                    },
                    _ => false,
                }
            }
        } else if config.method@ == "token"@ {
            if config.token_file@.len() == 0 {
                refused(r, "token_file must not be empty for token discovery"@)
            } else {
                match r {
                    Ok(Provider::Token(token)) => {
                        &&& token.file() == config.token_file@
                        &&& token.own() == self_info@
                        &&& token.expected() == config.token_expected_size
                        &&& token.interval() == config.poll_interval_ms
                        &&& token.timeout() == config.timeout_secs * 1000
                    },
                    _ => false,
                }
            }
        } else {
            refused(r, unknown_method(config.method@))
        },
{
    if same(config.method.as_str(), "dns") {
        if config.dns_hosts.len() == 0 {
            return Err(
                DiscoveryError::Config(text("dns_hosts must not be empty for dns discovery")),
            );
        }
        return Ok(
            Provider::Dns(
                DnsSrvDiscovery::new(
                    crate::text::copy_texts(&config.dns_hosts),
                    config.dns_default_port,
                    config.timeout_secs as u128 * 1000,
                ),
            ),
        );
    }
    if same(config.method.as_str(), "token") {
        if config.token_file.as_str().is_empty() {
            return Err(
                DiscoveryError::Config(text("token_file must not be empty for token discovery")),
            );
        }
        return Ok(
            Provider::Token(
                TokenDiscovery::new(
                    text(config.token_file.as_str()),
                    self_info,
                    config.token_expected_size,
                    config.poll_interval_ms,
                    config.timeout_secs as u128 * 1000,
                ),
            ),
        );
    }
    Err(
        DiscoveryError::Config(
            join3("unknown discovery method: ", config.method.as_str(), " (valid: dns, token)"),
        ),
    )
}

/// The configuration is refused for the given reason.
pub open spec fn refused(r: Result<Provider, DiscoveryError>, why: Seq<char>) -> bool {
    match r {
        Err(DiscoveryError::Config(message)) => message@ == why,
        _ => false,
    }
}

/// Every peer keeps its address and its place, and the identifier that it was
/// given. Those without one get the smallest that are free, in order.
pub proof fn found_ids_are_the_smallest(
    parsed: Seq<(u64, String)>,
    peers: Seq<PeerInfo>,
    i: int,
    j: int,
    n: u64,
)
    requires
        assigned(parsed, peers),
        0 <= i < parsed.len(),
    ensures
        peers.len() == parsed.len(),
        peers[i].addr@ == parsed[i].1@,
        parsed[i].0 != 0 ==> peers[i].node_id == parsed[i].0,
        parsed[i].0 == 0 ==> {
            &&& peers[i].node_id >= 1
            &&& forall|k: int| 0 <= k < parsed.len() ==> (#[trigger] parsed[k]).0 != peers[i].node_id
        },
        parsed[i].0 == 0 && i < j < parsed.len() && parsed[j].0 == 0 ==> peers[i].node_id
            < peers[j].node_id,
        parsed[i].0 == 0 && 1 <= n < peers[i].node_id ==> {
            ||| exists|k: int| 0 <= k < parsed.len() && (#[trigger] parsed[k]).0 == n
            ||| exists|k: int|
                0 <= k < i && (#[trigger] parsed[k]).0 == 0 && peers[k].node_id == n
        },
    decreases i,
{
    assert(assigned_at(parsed, peers, i));
    last_auto_bound(parsed, peers, i);
    if parsed[i].0 == 0 {
        assert forall|k: int| 0 <= k < parsed.len() implies (#[trigger] parsed[k]).0
            != peers[i].node_id by {
            if parsed[k].0 == peers[i].node_id {
                assert(given(parsed, peers[i].node_id));
            }
        }
        if i < j < parsed.len() && parsed[j].0 == 0 {
            found_grow(parsed, peers, i, j);
            assert(assigned_at(parsed, peers, j));
        }
        if 1 <= n < peers[i].node_id {
            free_ids_are_found(parsed, peers, i, n);
        }
    }
}

proof fn free_ids_are_found(
    parsed: Seq<(u64, String)>,
    peers: Seq<PeerInfo>,
    i: int,
    n: u64,
)
    requires
        assigned(parsed, peers),
        0 <= i < parsed.len(),
        parsed[i].0 == 0,
        1 <= n < peers[i].node_id,
    ensures
        given(parsed, n) || exists|k: int|
            0 <= k < i && (#[trigger] parsed[k]).0 == 0 && peers[k].node_id == n,
    decreases i,
{
    assert(assigned_at(parsed, peers, i));
    let last = last_auto(parsed, peers, i);
    if n > last {
        assert(given(parsed, n));
    } else {
        let k = last_auto_place(parsed, peers, i);
        if n == last {
            assert(parsed[k].0 == 0 && peers[k].node_id == n);
        } else {
            free_ids_are_found(parsed, peers, k, n);
            if !given(parsed, n) {
                let m = choose|m: int|
                    0 <= m < k && (#[trigger] parsed[m]).0 == 0 && peers[m].node_id == n;
                assert(parsed[m].0 == 0 && peers[m].node_id == n);
            }
        }
    }
}

proof fn last_auto_place(parsed: Seq<(u64, String)>, peers: Seq<PeerInfo>, n: int) -> (k: int)
    requires
        0 <= n <= parsed.len(),
        last_auto(parsed, peers, n) > 0,
    ensures
        0 <= k < n,
        parsed[k].0 == 0,
        peers[k].node_id == last_auto(parsed, peers, n),
    decreases n,
{
    if parsed[n - 1].0 == 0 {
        n - 1
    } else {
        last_auto_place(parsed, peers, n - 1)
    }
}

/// An entry is refused if what follows its host is no port, if its brackets do not
/// begin it, or if something other than a port follows them.
pub proof fn bad_entries_are_refused(
    host: Seq<char>,
    tail: Seq<char>,
    default_port: u16,
)
    ensures
        plain_host(host) && port_and_id(tail) is None && !tail.contains(']') ==> host_entry(
            host + seq![':'] + tail,
            default_port,
        ) is None,
        host.len() > 0 && host[0] != '[' && plain_host(host) ==> host_entry(
            host + seq![']'] + tail,
            default_port,
        ) is None,
        plain_host(host) && tail.len() > 0 && tail[0] != ':' ==> host_entry(
            bracketed(host) + tail,
            default_port,
        ) is None,
{
    if plain_host(host) && port_and_id(tail) is None && !tail.contains(']') {
        let s = host + seq![':'] + tail;
        crate::text::first_at_means(s, ']', 0);
        crate::text::first_at_means(s, ':', 0);
        assert forall|i: int| 0 <= i < s.len() implies s[i] != ']' by {
            if i < host.len() {
                assert(s[i] == host[i]);
            } else if i > host.len() {
                assert(s[i] == tail[i - host.len() - 1]);
                assert(tail.contains(tail[i - host.len() - 1]));
            }
        }
        assert(s[host.len() as int] == ':');
        assert(forall|i: int| 0 <= i < host.len() ==> s[i] == host[i]);
        assert(crate::text::first_at(s, ':', 0) == Some(host.len() as int));
        assert(s.skip(host.len() as int + 1) =~= tail);
    }
    if host.len() > 0 && host[0] != '[' && plain_host(host) {
        let s = host + seq![']'] + tail;
        crate::text::first_at_means(s, ']', 0);
        assert(s[host.len() as int] == ']');
        assert(s[0] == host[0]);
    }
    if plain_host(host) && tail.len() > 0 && tail[0] != ':' {
        let s = bracketed(host) + tail;
        crate::text::first_at_means(s, ']', 0);
        let end = host.len() as int + 1;
        assert(s[end] == ']');
        assert forall|i: int| 0 <= i < end implies s[i] != ']' by {
            if i > 0 {
                assert(s[i] == host[i - 1]);
            }
        }
        assert(crate::text::first_at(s, ']', 0) == Some(end));
        assert(s.skip(end + 1) =~= tail);
    }
}

/// Ports fit in 16 bits and identifiers in 64, both are made of digits, and without
/// an identifier it is 0.
pub proof fn ports_and_ids_are_numbers(port: Seq<char>, id: Seq<char>)
    requires
        !port.contains(':'),
    ensures
        port_and_id(port) == match crate::text::number(port, 65535) {
            Some(n) => Some((n as u16, 0u64)),
            None => None,
        },
        port_and_id(port + seq![':'] + id) is Some <==> crate::text::number(port, 65535) is Some
            && crate::text::number(id, 0xffff_ffff_ffff_ffff) is Some,
        port_and_id(port + seq![':'] + id) matches Some((p, i)) ==> p as nat
            == crate::text::number(port, 65535)->Some_0 && i as nat == crate::text::number(
            id,
            0xffff_ffff_ffff_ffff,
        )->Some_0,
{
    crate::text::first_at_means(port, ':', 0);
    if crate::text::first_at(port, ':', 0) is Some {
        assert(port.contains(port[crate::text::first_at(port, ':', 0)->Some_0]));
    }
    let s = port + seq![':'] + id;
    crate::text::first_at_means(s, ':', 0);
    assert(s[port.len() as int] == ':');
    assert forall|i: int| 0 <= i < port.len() implies s[i] != ':' by {
        assert(s[i] == port[i]);
        assert(port.contains(port[i]));
    }
    assert(crate::text::first_at(s, ':', 0) == Some(port.len() as int));
    assert(s.take(port.len() as int) =~= port);
    assert(s.skip(port.len() as int + 1) =~= id);
}

/// A line of a token file adds the peer that it stands for, and nothing if it is
/// blank or does not read as a peer; the other lines count as before.
pub proof fn lines_count_one_by_one(content: Seq<char>, line: Seq<char>)
    requires
        content.len() == 0 || content.last() == '\n',
        !line.contains('\n'),
    ensures
        registered(content + (line + seq!['\n'])) == registered(content) + match token_peer(
            crate::text::trimmed(line),
        ) {
            Some(peer) if crate::text::trimmed(line).len() > 0 => seq![peer],
            _ => Seq::empty(),
        },
        registered(Seq::<char>::empty()).len() == 0,
{
    line_from(content, line, 0);
}

proof fn line_from(content: Seq<char>, line: Seq<char>, from: int)
    requires
        !line.contains('\n'),
        content.len() == 0 || content.last() == '\n',
        0 <= from <= content.len(),
    ensures
        peers_from(content + (line + seq!['\n']), from) == peers_from(content, from)
            + peer_in_line(line),
    decreases content.len() - from,
{
    let added = line + seq!['\n'];
    let s = content + added;
    let n = content.len() as int;
    let more = peer_in_line(line);
    crate::text::first_at_means(s, '\n', from);
    if from == n {
        assert(forall|j: int| 0 <= j < line.len() ==> s[n + j] == line[j]);
        assert(s[n + line.len()] == '\n');
        let end = line_end(s, from);
        if end < n + line.len() {
            assert(line[end - n] == '\n');
            assert(line.contains('\n'));
        }
        assert(end == n + line.len());
        assert(s.subrange(from, end) =~= line);
        assert(peers_from(s, end + 1) =~= Seq::<Peer>::empty());
        assert(peers_from(content, from) =~= Seq::<Peer>::empty());
        assert(more + Seq::<Peer>::empty() =~= Seq::<Peer>::empty() + more);
    } else {
        crate::text::first_at_means(content, '\n', from);
        assert(content[n - 1] == '\n');
        let end = line_end(content, from);
        assert(end < n);
        assert(s[end] == '\n');
        assert(forall|j: int| 0 <= j < n ==> s[j] == content[j]);
        assert(line_end(s, from) == end);
        assert(s.subrange(from, end) =~= content.subrange(from, end));
        line_from(content, line, end + 1);
        let head = peer_in_line(content.subrange(from, end));
        assert(head + (peers_from(content, end + 1) + more) =~= (head + peers_from(
            content,
            end + 1,
        )) + more);
    }
}

/// What is registered of a peer stands under its own name, both where it is written
/// and where it is read.
pub proof fn registrations_stand_under_their_names(peer: Peer, line: Seq<char>)
    ensures
        registration_fields(peer).len() == 2,
        registration_fields(peer).contains(
            ("node_id"@, crate::json::Datum::Number(peer.node_id)),
        ),
        registration_fields(peer).contains(("addr"@, crate::json::Datum::Text(peer.addr))),
        registration_line(peer) == crate::json::object_text(registration_fields(peer)),
        token_peer(line) == Some(peer) ==> {
            &&& crate::json::json_valid(line)
            &&& crate::json::says(line, token_record()) matches Ok(data)
            &&& token_record().fields.len() == 2
            &&& forall|i: int|
                0 <= i < 2 ==> {
                    let name = (#[trigger] token_record().fields[i]).0;
                    ||| name == "node_id"@ && data[i] == crate::json::Datum::Number(peer.node_id)
                    ||| name == "addr"@ && data[i] == crate::json::Datum::Text(peer.addr)
                }
        },
{
    let fields = registration_fields(peer);
    assert(fields[0] == ("node_id"@, crate::json::Datum::Number(peer.node_id)));
    assert(fields[1] == ("addr"@, crate::json::Datum::Text(peer.addr)));
}

/// Thousandths are written with a point and up to three digits that have their
/// value, without zeros at the end, and not at all if there are none.
pub proof fn thousandths_have_their_value(n: nat)
    requires
        n < 1000,
    ensures
        thousandths(n).len() == 0 <==> n == 0,
        n > 0 ==> {
            let t = thousandths(n);
            let digits = t.skip(1);
            let value = crate::text::digits_value(digits);
            &&& t[0] == '.'
            &&& 1 <= digits.len() <= 3
            &&& digits.last() != '0'
            &&& digits.len() == 1 ==> value * 100 == n
            &&& digits.len() == 2 ==> value * 10 == n
            &&& digits.len() == 3 ==> value == n
        },
{
    if n > 0 {
        let t = thousandths(n);
        let digits = t.skip(1);
        let (a, b, c) = (n / 100, (n / 10) % 10, n % 10);
        assert(crate::text::digit(a) as nat == '0' as nat + a);
        assert(crate::text::digit(b) as nat == '0' as nat + b);
        assert(crate::text::digit(c) as nat == '0' as nat + c);
        reveal_with_fuel(crate::text::digits_value, 4);
        if n % 100 == 0 {
            assert(digits =~= seq![crate::text::digit(a)]);
        } else if n % 10 == 0 {
            assert(digits =~= seq![crate::text::digit(a), crate::text::digit(b)]);
            assert(digits.drop_last() =~= seq![crate::text::digit(a)]);
        } else {
            assert(digits =~= seq![
                crate::text::digit(a),
                crate::text::digit(b),
                crate::text::digit(c),
            ]);
            assert(digits.drop_last() =~= seq![crate::text::digit(a), crate::text::digit(b)]);
            assert(digits.drop_last().drop_last() =~= seq![crate::text::digit(a)]);
        }
    }
}

/// A span is told in seconds from one second on, and below it in milliseconds.
pub proof fn spans_are_told_in_seconds(millis: nat)
    ensures
        0 < millis < 1000 ==> span_text(millis) == crate::text::decimal(millis) + "ms"@,
        millis >= 1000 ==> span_text(millis) == crate::text::decimal(millis / 1000) + thousandths(
            millis % 1000,
        ) + "s"@,
{
}

/// Peers are not discovered unless that is set up; if they are, the usual port is
/// 2380, three of them are expected, and it takes half a minute at most.
pub proof fn usual_discovery(config: DiscoveryConfig)
    requires
        config.is_default(),
    ensures
        config.method@ == "static"@,
        config.dns_hosts@.len() == 0,
        config.dns_default_port == 2380,
        config.token_file@.len() == 0,
        config.token_expected_size == 3,
        config.poll_interval_ms == 500,
        config.timeout_secs == 30,
{
}

/// An error of discovery says of which kind it is and what the reason was.
pub proof fn discovery_errors_give_their_reason(error: DiscoveryError, method: Seq<char>)
    ensures
        error matches DiscoveryError::Io(reason) ==> error.said() == "io error: "@ + reason@,
        error matches DiscoveryError::DnsResolution { host, reason } ==> error.said()
            == "dns resolution failed for "@ + host@ + ": "@ + reason@,
        error matches DiscoveryError::InvalidAddress(addr) ==> error.said()
            == "invalid address format: "@ + addr@,
        error matches DiscoveryError::Config(reason) ==> error.said() == "discovery config error: "@
            + reason@,
        error matches DiscoveryError::Timeout { millis } ==> error.said()
            == "discovery timed out after "@ + span_text(millis as nat),
        error matches DiscoveryError::Json(reason) ==> error.said() == "json error: "@ + reason@,
        unknown_method(method) == "unknown discovery method: "@ + method
            + " (valid: dns, token)"@,
{
}

/// A name that is not resolved is told with the address and the reason, and a
/// configuration that is refused with the reason.
pub proof fn discovery_failures_are_told(
    addr: String,
    why: Seq<char>,
    r: Result<String, DiscoveryError>,
    p: Result<Provider, DiscoveryError>,
)
    ensures
        not_resolved(addr, why, r) ==> {
            &&& r matches Err(DiscoveryError::DnsResolution { host, reason })
            &&& host == addr
            &&& reason@ == why
        },
        refused(p, why) ==> {
            &&& p matches Err(DiscoveryError::Config(reason))
            &&& reason@ == why
        },
{
}

} // verus!
