//! The backends of a gateway: which of them is asked.

use vstd::prelude::*;
use vstd::string::*;

use super::TlsConfig;
use crate::status::Status;
use crate::text::{join3, same, text};

verus! {

/// The nodes that a gateway is connected to.
///
/// Connections are kept outside; a backend is known by its address and by its
/// place in the list.
pub struct BackendPool {
    backends: Vec<String>,
    leader_idx: Option<usize>,
    rr_counter: usize,
    request_timeout_ms: u64,
    tls: Option<TlsConfig>,
}

/// What is known of the backends.
#[verifier::ext_equal]
pub struct Backends {
    /// The addresses, in the order in which they were connected.
    pub addrs: Seq<Seq<char>>,
    /// The place of the node that is taken for the leader.
    pub leader: Option<int>,
    /// How many nodes were picked in turn; it wraps.
    pub turns: usize,
}

/// The last place of an address in the first `n` of a list.
pub open spec fn last_place(addrs: Seq<Seq<char>>, addr: Seq<char>, n: int) -> Option<int>
    decreases n,
{
    if n <= 0 {
        None
    } else if addrs[n - 1] == addr {
        Some(n - 1)
    } else {
        last_place(addrs, addr, n - 1)
    }
}

/// The addresses of the backends that were reached, in order.
pub open spec fn reached(addrs: Seq<Seq<char>>, connected: Seq<bool>, n: int) -> Seq<Seq<char>>
    decreases n,
{
    if n <= 0 {
        Seq::empty()
    } else if connected[n - 1] {
        reached(addrs, connected, n - 1).push(addrs[n - 1])
    } else {
        reached(addrs, connected, n - 1)
    }
}

/// The first place that holds true.
pub open spec fn first_true(answered: Seq<bool>, from: int) -> Option<int>
    decreases answered.len() - from,
{
    if from < 0 || from >= answered.len() {
        None
    } else if answered[from] {
        Some(from)
    } else {
        first_true(answered, from + 1)
    }
}

impl Backends {
    /// The backend whose turn it is.
    pub open spec fn next_in_turn(self) -> Option<int> {
        if self.addrs.len() == 0 {
            None
        } else {
            Some(self.turns as int % self.addrs.len() as int)
        }
    }

    /// One more turn is taken, if there is anybody to take it.
    pub open spec fn turned(self) -> Backends {
        if self.addrs.len() == 0 {
            self
        } else {
            Backends {
                turns: if self.turns == usize::MAX {
                    0
                } else {
                    (self.turns + 1) as usize
                },
                ..self
            }
        }
    }

    /// The backend that is asked when the leader is wanted: the leader if it is
    /// known, and the one whose turn it is otherwise.
    pub open spec fn leader_or_next(self) -> Option<int> {
        match self.leader {
            Some(i) if i < self.addrs.len() => Some(i),
            _ => self.next_in_turn(),
        }
    }

    /// The pool after the leader was wanted.
    pub open spec fn leader_asked(self) -> Backends {
        match self.leader {
            Some(i) if i < self.addrs.len() => self,
            _ => self.turned(),
        }
    }

    /// The node at an address is taken for the leader, if it is a backend.
    pub open spec fn led_by(self, addr: Seq<char>) -> Backends {
        match last_place(self.addrs, addr, self.addrs.len() as int) {
            Some(i) => Backends { leader: Some(i), ..self },
            None => self,
        }
    }

    /// One more backend, which is the leader.
    pub open spec fn joined_by(self, addr: Seq<char>) -> Backends {
        Backends {
            addrs: self.addrs.push(addr),
            leader: Some(self.addrs.len() as int),
            ..self
        }
    }
}

/// The result is the backend at a place of the list, or nothing.
pub open spec fn picks(r: Option<(String, usize)>, pool: Backends, place: Option<int>) -> bool {
    match place {
        Some(i) => r is Some && r->Some_0.1 == i && r->Some_0.0@ == pool.addrs[i],
        None => r is None,
    }
}

impl View for BackendPool {
    type V = Backends;

    closed spec fn view(&self) -> Backends {
        Backends {
            addrs: crate::text::texts(self.backends@),
            leader: match self.leader_idx {
                Some(i) => Some(i as int),
                None => None,
            },
            turns: self.rr_counter,
        }
    }
}

impl BackendPool {
    /// How many milliseconds a request may take.
    pub closed spec fn patience(&self) -> u64 {
        self.request_timeout_ms
    }

    /// How backends are connected to.
    pub closed spec fn security(&self) -> Option<TlsConfig> {
        self.tls
    }

    /// The pool of the backends that were reached. The leader is not known yet.
    pub fn connect(
        addrs: &Vec<String>,
        connected: &Vec<bool>,
        request_timeout_ms: u64,
        tls: Option<TlsConfig>,
    ) -> (r: Result<Self, Status>)
        requires
            connected@.len() == addrs@.len(),
        ensures
            ({
                let found = reached(
                    crate::text::texts(addrs@),
                    connected@,
                    addrs@.len() as int,
                );
                if found.len() == 0 {
                    r is Err && r->Err_0.says(
                        (
                            crate::status::Code::Unavailable,
                            "failed to connect to any backend node"@,
                        ),
                    )
                } else {
                    r is Ok && r->Ok_0@ == (Backends { addrs: found, leader: None, turns: 0 })
                        && r->Ok_0.patience() == request_timeout_ms && r->Ok_0.security() == tls
                }
            }),
    {
        let mut backends: Vec<String> = Vec::new();
        let mut i: usize = 0;
        assert(crate::text::texts(backends@) =~= Seq::<Seq<char>>::empty());
        while i < addrs.len()
            invariant
                i <= addrs@.len(),
                connected@.len() == addrs@.len(),
                crate::text::texts(backends@) == reached(
                    crate::text::texts(addrs@),
                    connected@,
                    i as int,
                ),
            decreases addrs@.len() - i,
        {
            if connected[i] {
                let ghost before = crate::text::texts(backends@);
                backends.push(text(addrs[i].as_str()));
                assert(crate::text::texts(backends@) =~= before.push(addrs@[i as int]@));
            }
            i = i + 1;
        }
        if backends.len() == 0 {
            return Err(Status::unavailable("failed to connect to any backend node"));
        }
        assert(crate::text::texts(backends@).len() == backends@.len());
        Ok(BackendPool { backends, leader_idx: None, rr_counter: 0, request_timeout_ms, tls })
    }

    /// Takes the first backend that answered for the leader. The answers are those
    /// of the first backends, in order; the rest was not asked.
    pub fn discover_leader(&mut self, answered: &Vec<bool>)
        ensures
            final(self)@ == match first_true(answered@, 0) {
                Some(i) => Backends { leader: Some(i), ..old(self)@ },
                None => old(self)@,
            },
            final(self).patience() == old(self).patience(),
            final(self).security() == old(self).security(),
    {
        let mut i: usize = 0;
        while i < answered.len()
            invariant
                i <= answered@.len(),
                *self == *old(self),
                first_true(answered@, 0) == first_true(answered@, i as int),
            decreases answered@.len() - i,
        {
            if answered[i] {
                self.leader_idx = Some(i);
                return;
            }
            i = i + 1;
        }
    }

    /// Takes the node at an address for the leader, if it is a backend.
    pub fn update_leader(&mut self, addr: &str)
        ensures
            final(self)@ == old(self)@.led_by(addr@),
            final(self).patience() == old(self).patience(),
            final(self).security() == old(self).security(),
    {
        let ghost addrs = crate::text::texts(self.backends@);
        let mut n: usize = self.backends.len();
        while n > 0
            invariant
                n <= self.backends@.len(),
                *self == *old(self),
                addrs == crate::text::texts(self.backends@),
                last_place(addrs, addr@, addrs.len() as int) == last_place(addrs, addr@, n as int),
            decreases n,
        {
            assert(addrs[n - 1] == self.backends@[n - 1]@);
            if same(self.backends[n - 1].as_str(), addr) {
                self.leader_idx = Some(n - 1);
                return;
            }
            n = n - 1;
        }
    }

    /// Adds a node that a backend named as the leader.
    pub fn add_redirect_connection(&mut self, addr: String)
        ensures
            final(self)@ == old(self)@.joined_by(addr@),
            final(self).patience() == old(self).patience(),
            final(self).security() == old(self).security(),
    {
        let idx: usize = self.backends.len();
        let ghost before = crate::text::texts(self.backends@);
        self.backends.push(addr);
        self.leader_idx = Some(idx);
        assert(crate::text::texts(self.backends@) =~= before.push(addr@));
    }

    /// How many milliseconds a request may take.
    pub fn timeout_ms(&self) -> (r: u64)
        ensures
            r == self.patience(),
    {
        self.request_timeout_ms
    }

    /// How backends are connected to.
    pub fn tls(&self) -> (r: &Option<TlsConfig>)
        ensures
            *r == self.security(),
    {
        &self.tls
    }

    pub fn backends_count(&self) -> (r: usize)
        ensures
            r == self@.addrs.len(),
    {
        self.backends.len()
    }

    /// Where a node is reached: with TLS if it is set up.
    pub fn uri(&self, addr: &str) -> (r: String)
        ensures
            r@ == uri_of(self.security() is Some, addr@),
    {
        backend_uri(self.tls.is_some(), addr)
    }

    /// The leader if it is known, and the backend whose turn it is otherwise.
    fn get_leader(&mut self) -> (r: Option<(String, usize)>)
        ensures
            picks(r, old(self)@, old(self)@.leader_or_next()),
            final(self)@ == old(self)@.leader_asked(),
            final(self).patience() == old(self).patience(),
            final(self).security() == old(self).security(),
    {
        if let Some(idx) = self.leader_idx {
            if idx < self.backends.len() {
                return Some((text(self.backends[idx].as_str()), idx));
            }
        }
        self.get_any()
    }

    /// The backend whose turn it is.
    fn get_any(&mut self) -> (r: Option<(String, usize)>)
        ensures
            picks(r, old(self)@, old(self)@.next_in_turn()),
            final(self)@ == old(self)@.turned(),
            final(self).patience() == old(self).patience(),
            final(self).security() == old(self).security(),
    {
        if self.backends.len() == 0 {
            return None;
        }
        let turn: usize = self.rr_counter;
        self.rr_counter = turn.wrapping_add(1);
        let idx: usize = turn % self.backends.len();
        Some((text(self.backends[idx].as_str()), idx))
    }

    /// The leader, or else the next node, for the key-value service.
    pub fn get_leader_kv(&mut self) -> (r: Option<(String, usize)>)
        ensures
            picks(r, old(self)@, old(self)@.leader_or_next()),
            final(self)@ == old(self)@.leader_asked(),
            final(self).patience() == old(self).patience(),
            final(self).security() == old(self).security(),
    {
        self.get_leader()
    }

    /// The next node for the key-value service.
    pub fn get_any_kv(&mut self) -> (r: Option<(String, usize)>)
        ensures
            picks(r, old(self)@, old(self)@.next_in_turn()),
            final(self)@ == old(self)@.turned(),
            final(self).patience() == old(self).patience(),
            final(self).security() == old(self).security(),
    {
        self.get_any()
    }

    /// The leader, or else the next node, for the cluster service.
    pub fn get_leader_cluster(&mut self) -> (r: Option<(String, usize)>)
        ensures
            picks(r, old(self)@, old(self)@.leader_or_next()),
            final(self)@ == old(self)@.leader_asked(),
            final(self).patience() == old(self).patience(),
            final(self).security() == old(self).security(),
    {
        self.get_leader()
    }

    /// The next node for the cluster service.
    pub fn get_any_cluster(&mut self) -> (r: Option<(String, usize)>)
        ensures
            picks(r, old(self)@, old(self)@.next_in_turn()),
            final(self)@ == old(self)@.turned(),
            final(self).patience() == old(self).patience(),
            final(self).security() == old(self).security(),
    {
        self.get_any()
    }

    /// The leader, or else the next node, for the maintenance service.
    pub fn get_leader_maintenance(&mut self) -> (r: Option<(String, usize)>)
        ensures
            picks(r, old(self)@, old(self)@.leader_or_next()),
            final(self)@ == old(self)@.leader_asked(),
            final(self).patience() == old(self).patience(),
            final(self).security() == old(self).security(),
    {
        self.get_leader()
    }

    /// The next node for the maintenance service.
    pub fn get_any_maintenance(&mut self) -> (r: Option<(String, usize)>)
        ensures
            picks(r, old(self)@, old(self)@.next_in_turn()),
            final(self)@ == old(self)@.turned(),
            final(self).patience() == old(self).patience(),
            final(self).security() == old(self).security(),
    {
        self.get_any()
    }

    /// The leader, or else the next node, for the watch service.
    pub fn get_leader_watch(&mut self) -> (r: Option<(String, usize)>)
        ensures
            picks(r, old(self)@, old(self)@.leader_or_next()),
            final(self)@ == old(self)@.leader_asked(),
            final(self).patience() == old(self).patience(),
            final(self).security() == old(self).security(),
    {
        self.get_leader()
    }

    /// The next node for the watch service.
    pub fn get_any_watch(&mut self) -> (r: Option<(String, usize)>)
        ensures
            picks(r, old(self)@, old(self)@.next_in_turn()),
            final(self)@ == old(self)@.turned(),
            final(self).patience() == old(self).patience(),
            final(self).security() == old(self).security(),
    {
        self.get_any()
    }

    /// The leader, or else the next node, for the lease service.
    pub fn get_leader_lease(&mut self) -> (r: Option<(String, usize)>)
        ensures
            picks(r, old(self)@, old(self)@.leader_or_next()),
            final(self)@ == old(self)@.leader_asked(),
            final(self).patience() == old(self).patience(),
            final(self).security() == old(self).security(),
    {
        self.get_leader()
    }

    /// The next node for the lease service.
    pub fn get_any_lease(&mut self) -> (r: Option<(String, usize)>)
        ensures
            picks(r, old(self)@, old(self)@.next_in_turn()),
            final(self)@ == old(self)@.turned(),
            final(self).patience() == old(self).patience(),
            final(self).security() == old(self).security(),
    {
        self.get_any()
    }

    /// The leader, or else the next node, for the auth service.
    pub fn get_leader_auth(&mut self) -> (r: Option<(String, usize)>)
        ensures
            picks(r, old(self)@, old(self)@.leader_or_next()),
            final(self)@ == old(self)@.leader_asked(),
            final(self).patience() == old(self).patience(),
            final(self).security() == old(self).security(),
    {
        self.get_leader()
    }

    /// The next node for the auth service.
    pub fn get_any_auth(&mut self) -> (r: Option<(String, usize)>)
        ensures
            picks(r, old(self)@, old(self)@.next_in_turn()),
            final(self)@ == old(self)@.turned(),
            final(self).patience() == old(self).patience(),
            final(self).security() == old(self).security(),
    {
        self.get_any()
    }

    /// The leader, or else the next node, for the lock service.
    pub fn get_leader_lock(&mut self) -> (r: Option<(String, usize)>)
        ensures
            picks(r, old(self)@, old(self)@.leader_or_next()),
            final(self)@ == old(self)@.leader_asked(),
            final(self).patience() == old(self).patience(),
            final(self).security() == old(self).security(),
    {
        self.get_leader()
    }

    /// The next node for the lock service.
    pub fn get_any_lock(&mut self) -> (r: Option<(String, usize)>)
        ensures
            picks(r, old(self)@, old(self)@.next_in_turn()),
            final(self)@ == old(self)@.turned(),
            final(self).patience() == old(self).patience(),
            final(self).security() == old(self).security(),
    {
        self.get_any()
    }

    /// The leader, or else the next node, for the election service.
    pub fn get_leader_election(&mut self) -> (r: Option<(String, usize)>)
        ensures
            picks(r, old(self)@, old(self)@.leader_or_next()),
            final(self)@ == old(self)@.leader_asked(),
            final(self).patience() == old(self).patience(),
            final(self).security() == old(self).security(),
    {
        self.get_leader()
    }

    /// The next node for the election service.
    pub fn get_any_election(&mut self) -> (r: Option<(String, usize)>)
        ensures
            picks(r, old(self)@, old(self)@.next_in_turn()),
            final(self)@ == old(self)@.turned(),
            final(self).patience() == old(self).patience(),
            final(self).security() == old(self).security(),
    {
        self.get_any()
    }

    /// The leader, or else the next node, for the barrier service.
    pub fn get_leader_barrier(&mut self) -> (r: Option<(String, usize)>)
        ensures
            picks(r, old(self)@, old(self)@.leader_or_next()),
            final(self)@ == old(self)@.leader_asked(),
            final(self).patience() == old(self).patience(),
            final(self).security() == old(self).security(),
    {
        self.get_leader()
    }

    /// The next node for the barrier service.
    pub fn get_any_barrier(&mut self) -> (r: Option<(String, usize)>)
        ensures
            picks(r, old(self)@, old(self)@.next_in_turn()),
            final(self)@ == old(self)@.turned(),
            final(self).patience() == old(self).patience(),
            final(self).security() == old(self).security(),
    {
        self.get_any()
    }

    /// The leader, or else the next node, for the queue service.
    pub fn get_leader_queue(&mut self) -> (r: Option<(String, usize)>)
        ensures
            picks(r, old(self)@, old(self)@.leader_or_next()),
            final(self)@ == old(self)@.leader_asked(),
            final(self).patience() == old(self).patience(),
            final(self).security() == old(self).security(),
    {
        self.get_leader()
    }

    /// The next node for the queue service.
    pub fn get_any_queue(&mut self) -> (r: Option<(String, usize)>)
        ensures
            picks(r, old(self)@, old(self)@.next_in_turn()),
            final(self)@ == old(self)@.turned(),
            final(self).patience() == old(self).patience(),
            final(self).security() == old(self).security(),
    {
        self.get_any()
    }

    /// The leader, or else the next node, for the session service.
    pub fn get_leader_session(&mut self) -> (r: Option<(String, usize)>)
        ensures
            picks(r, old(self)@, old(self)@.leader_or_next()),
            final(self)@ == old(self)@.leader_asked(),
            final(self).patience() == old(self).patience(),
            final(self).security() == old(self).security(),
    {
        self.get_leader()
    }

    /// The next node for the session service.
    pub fn get_any_session(&mut self) -> (r: Option<(String, usize)>)
        ensures
            picks(r, old(self)@, old(self)@.next_in_turn()),
            final(self)@ == old(self)@.turned(),
            final(self).patience() == old(self).patience(),
            final(self).security() == old(self).security(),
    {
        self.get_any()
    }
}

/// A backend that was named as the leader is asked when the leader is wanted.
pub proof fn named_leader_is_asked(pool: Backends, addr: Seq<char>)
    requires
        pool.addrs.contains(addr),
    ensures
        ({
            let place = pool.led_by(addr).leader_or_next();
            place is Some && 0 <= place->Some_0 < pool.addrs.len() && pool.addrs[place->Some_0]
                == addr
        }),
        pool.led_by(addr).leader_asked() == pool.led_by(addr),
{
    let i = choose|i: int| 0 <= i < pool.addrs.len() && pool.addrs[i] == addr;
    last_place_found(pool.addrs, addr, pool.addrs.len() as int, i);
}

proof fn last_place_found(addrs: Seq<Seq<char>>, addr: Seq<char>, n: int, i: int)
    requires
        0 <= i < n <= addrs.len(),
        addrs[i] == addr,
    ensures
        last_place(addrs, addr, n) matches Some(k) && i <= k < n && addrs[k] == addr,
    decreases n,
{
    if addrs[n - 1] != addr {
        last_place_found(addrs, addr, n - 1, i);
    }
}

/// A node that joined as the leader is asked when the leader is wanted, and naming
/// it again changes nothing.
pub proof fn joined_leader_is_asked(pool: Backends, addr: Seq<char>)
    ensures
        pool.joined_by(addr).leader_or_next() == Some(pool.addrs.len() as int),
        pool.joined_by(addr).addrs[pool.addrs.len() as int] == addr,
        pool.joined_by(addr).led_by(addr) == pool.joined_by(addr),
{
}

/// The pool after a number of turns.
pub open spec fn after_turns(pool: Backends, n: nat) -> Backends
    decreases n,
{
    if n == 0 {
        pool
    } else {
        after_turns(pool, (n - 1) as nat).turned()
    }
}

/// As many turns as there are backends ask each of them once, as long as the count
/// of turns does not wrap.
pub proof fn turns_go_round(pool: Backends, i: nat, j: nat)
    requires
        i < j < pool.addrs.len(),
        pool.turns + pool.addrs.len() <= usize::MAX,
    ensures
        after_turns(pool, i).next_in_turn() is Some,
        after_turns(pool, j).next_in_turn() is Some,
        after_turns(pool, i).next_in_turn() != after_turns(pool, j).next_in_turn(),
{
    turns_counted(pool, i);
    turns_counted(pool, j);
    let n = pool.addrs.len() as int;
    let c = pool.turns as int;
    if (c + i) % n == (c + j) % n {
        vstd::arithmetic::div_mod::lemma_fundamental_div_mod(c + i, n);
        vstd::arithmetic::div_mod::lemma_fundamental_div_mod(c + j, n);
        let (a, b) = ((c + i) / n, (c + j) / n);
        assert(j - i == n * b - n * a);
        assert(n * b - n * a == n * (b - a)) by (nonlinear_arith);
        assert(b - a <= 0 ==> n * (b - a) <= 0) by (nonlinear_arith)
            requires
                n > 0,
        ;
        assert(b - a >= 1 ==> n * (b - a) >= n) by (nonlinear_arith)
            requires
                n > 0,
        ;
    }
}

proof fn turns_counted(pool: Backends, n: nat)
    requires
        pool.addrs.len() > 0,
        pool.turns + n <= usize::MAX,
    ensures
        after_turns(pool, n) == (Backends { turns: (pool.turns + n) as usize, ..pool }),
    decreases n,
{
    if n > 0 {
        turns_counted(pool, (n - 1) as nat);
    }
}

/// Where a node is reached.
pub open spec fn uri_of(secure: bool, addr: Seq<char>) -> Seq<char> {
    (if secure {
        "https"@
    } else {
        "http"@
    }) + "://"@ + addr
}

/// Where a node is reached.
pub fn backend_uri(secure: bool, addr: &str) -> (r: String)
    ensures
        r@ == uri_of(secure, addr@),
{
    let scheme = if secure {
        "https"
    } else {
        "http"
    };
    join3(scheme, "://", addr)
}

/// The place of an address is the last one at which it stands, and it has none if
/// and only if it stands nowhere.
pub proof fn places_are_last(addrs: Seq<Seq<char>>, addr: Seq<char>, n: int)
    requires
        0 <= n <= addrs.len(),
    ensures
        match last_place(addrs, addr, n) {
            Some(i) => 0 <= i < n && addrs[i] == addr && forall|j: int|
                i < j < n ==> addrs[j] != addr,
            None => forall|j: int| 0 <= j < n ==> addrs[j] != addr,
        },
    decreases n,
{
    if n > 0 && addrs[n - 1] != addr {
        places_are_last(addrs, addr, n - 1);
    }
}

/// The nodes of a pool are those that could be connected to, all of them, in the
/// order in which they were given.
pub proof fn reached_are_connected(
    addrs: Seq<Seq<char>>,
    connected: Seq<bool>,
    n: int,
) -> (places: Seq<int>)
    requires
        0 <= n <= addrs.len(),
        n <= connected.len(),
    ensures
        places.len() == reached(addrs, connected, n).len(),
        forall|i: int|
            0 <= i < places.len() ==> 0 <= #[trigger] places[i] < n && connected[places[i]]
                && reached(addrs, connected, n)[i] == addrs[places[i]],
        forall|i: int, j: int|
            0 <= i < j < places.len() ==> #[trigger] places[i] < #[trigger] places[j],
        forall|k: int| 0 <= k < n && #[trigger] connected[k] ==> places.contains(k),
    decreases n,
{
    if n <= 0 {
        Seq::empty()
    } else {
        let before = reached_are_connected(addrs, connected, n - 1);
        if connected[n - 1] {
            let places = before.push(n - 1);
            assert forall|k: int| 0 <= k < n && #[trigger] connected[k] implies places.contains(
                k,
            ) by {
                if k < n - 1 {
                    let i = before.index_of(k);
                    assert(places[i] == k);
                } else {
                    assert(places[places.len() - 1] == k);
                }
            }
            places
        } else {
            before
        }
    }
}

/// The leader that is discovered is the first node that answered.
pub proof fn first_answer_leads(answered: Seq<bool>, from: int)
    requires
        0 <= from <= answered.len(),
    ensures
        match first_true(answered, from) {
            Some(i) => from <= i < answered.len() && answered[i] && forall|j: int|
                from <= j < i ==> !answered[j],
            None => forall|j: int| from <= j < answered.len() ==> !answered[j],
        },
    decreases answered.len() - from,
{
    if from < answered.len() && !answered[from] {
        first_answer_leads(answered, from + 1);
    }
}

/// A known leader is asked without a turn being taken. Otherwise the node whose
/// turn it is is asked, and the next time the one after it. Asking changes neither
/// the nodes nor the leader.
pub proof fn turns_are_taken_without_a_leader(pool: Backends)
    ensures
        ({
            let known = pool.leader is Some && pool.leader->Some_0 < pool.addrs.len();
            &&& known ==> pool.leader_or_next() == pool.leader && pool.leader_asked() == pool
            &&& !known ==> pool.leader_or_next() == pool.next_in_turn() && pool.leader_asked()
                == pool.turned()
        }),
        pool.addrs.len() > 0 ==> {
            &&& pool.next_in_turn() matches Some(i)
            &&& 0 <= i < pool.addrs.len()
            &&& i as int == pool.turns as int % pool.addrs.len() as int
            &&& pool.turns < usize::MAX ==> pool.turned().turns == pool.turns + 1
            &&& pool.turns == usize::MAX ==> pool.turned().turns == 0
        },
        pool.addrs.len() == 0 ==> pool.next_in_turn() is None,
        pool.turned().addrs == pool.addrs,
        pool.turned().leader == pool.leader,
{
    if pool.addrs.len() > 0 {
        let (t, n) = (pool.turns as int, pool.addrs.len() as int);
        vstd::arithmetic::div_mod::lemma_mod_bound(t, n);
    }
}

/// A leader that is not in the pool changes nothing, and one that is changes only
/// who leads. A node that joins stands behind the others, and leads.
pub proof fn leaders_come_from_the_pool(pool: Backends, addr: Seq<char>)
    ensures
        !pool.addrs.contains(addr) ==> pool.led_by(addr) == pool,
        pool.led_by(addr).addrs == pool.addrs,
        pool.led_by(addr).turns == pool.turns,
        pool.joined_by(addr).turns == pool.turns,
        pool.joined_by(addr).addrs.len() == pool.addrs.len() + 1,
        forall|i: int|
            0 <= i < pool.addrs.len() ==> #[trigger] pool.joined_by(addr).addrs[i] == pool.addrs[i],
        pool.joined_by(addr).leader == Some(pool.addrs.len() as int),
{
    places_are_last(pool.addrs, addr, pool.addrs.len() as int);
}

/// A node is reached over a secured connection if and only if one is set up, and
/// at its own address.
pub proof fn secured_if_set_up(secure: bool, addr: Seq<char>)
    ensures
        secure ==> uri_of(secure, addr) == "https"@ + "://"@ + addr,
        !secure ==> uri_of(secure, addr) == "http"@ + "://"@ + addr,
{
}

/// What is picked is the address at the place that is picked, or nothing if there
/// is no place.
pub proof fn picked_stands_at_its_place(
    r: Option<(String, usize)>,
    pool: Backends,
    place: Option<int>,
)
    requires
        picks(r, pool, place),
    ensures
        r is Some <==> place is Some,
        r is Some ==> r->Some_0.1 as int == place->Some_0 && r->Some_0.0@
            == pool.addrs[r->Some_0.1 as int],
{
}

} // verus!
