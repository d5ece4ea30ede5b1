//! Distributed barriers: which barriers are up, by which key and on which lease.

use vstd::prelude::*;
use vstd::string::*;

use crate::bytes::{ascii_bytes, concat};
use crate::names::{find_fault, NameFault};
use crate::registry::{join_value, name_after, Entry, Holdings, Registry};

verus! {

/// Key prefix for barrier keys in storage.
/// Uses the reserved prefix to avoid collision with user keys.
pub const BARRIER_KEY_PREFIX: &'static str = "_aether_barrier/";

/// Maximum allowed barrier name length (1 KB).
pub const MAX_BARRIER_NAME_LEN: usize = 1024;

/// The bytes that every barrier key begins with.
pub open spec fn barrier_prefix() -> Seq<u8> {
    crate::bytes::ascii(BARRIER_KEY_PREFIX@)
}

/// In-memory barrier manager.
///
/// Tracks which barriers are currently held. The barrier data itself is stored under
/// the barrier prefix, as the lease in eight bytes followed by the barrier name.
pub struct BarrierManager {
    registry: Registry,
}

impl View for BarrierManager {
    type V = Holdings;

    closed spec fn view(&self) -> Holdings {
        self.registry@
    }
}

impl Default for BarrierManager {
    fn default() -> (m: Self)
        ensures
            m.wf(),
            m@ == Holdings::empty(),
    {
        Self::new()
    }
}

impl BarrierManager {
    /// The indexes of the manager fit together.
    pub closed spec fn wf(&self) -> bool {
        self.registry.wf()
    }

    /// What `wf` says of the holdings.
    pub proof fn holdings_wf(&self)
        requires
            self.wf(),
        ensures
            self@.wf(),
    {
    }

    /// A manager in which no barrier is held.
    pub fn new() -> (m: Self)
        ensures
            m.wf(),
            m@ == Holdings::empty(),
    {
        BarrierManager { registry: Registry::new() }
    }

    /// Rebuilds the barrier state from what storage holds under the barrier prefix.
    /// Values too short to hold a lease are passed over.
    pub fn restore(&mut self, entries: &Vec<Entry>)
        requires
            old(self).wf(),
        ensures
            final(self).wf(),
            final(self)@ == crate::registry::restored(
                None,
                crate::registry::entry_views(entries@),
            ),
    {
        self.registry = Registry::restore(None, entries);
    }

    /// Encode barrier value with lease_id.
    pub fn encode_value(name: &[u8], lease_id: i64) -> (r: Vec<u8>)
        ensures
            r@ == crate::registry::stored_value(lease_id, name@),
    {
        join_value(lease_id, name)
    }

    /// Create a barrier. Returns the barrier key.
    pub fn create(&mut self, name: Vec<u8>, key: Vec<u8>, lease_id: i64) -> (r: Vec<u8>)
        requires
            old(self).wf(),
        ensures
            final(self).wf(),
            final(self)@ == old(self)@.acquired(name@, key@, lease_id),
            r == key,
    {
        self.registry.acquire(name, key, lease_id)
    }

    /// Release a barrier by key. Returns true if the barrier was found and released.
    pub fn release(&mut self, key: &[u8]) -> (r: bool)
        requires
            old(self).wf(),
        ensures
            final(self).wf(),
            final(self)@ == old(self)@.released(key@),
            r == old(self)@.by_key.contains_key(key@),
    {
        self.registry.release(key)
    }

    /// Release all barriers recorded under a lease.
    /// Returns the barrier keys that were released, in order.
    pub fn release_by_lease(&mut self, lease_id: i64) -> (r: Vec<Vec<u8>>)
        requires
            old(self).wf(),
        ensures
            final(self).wf(),
            final(self)@ == old(self)@.lease_released(lease_id),
            crate::registry::views(r@).to_set() == old(self)@.keys_of(lease_id),
            crate::registry::in_order(crate::registry::views(r@)),
    {
        self.registry.release_by_lease(lease_id)
    }

    /// Check if a barrier is held.
    pub fn is_held(&self, name: &[u8]) -> (r: bool)
        requires
            self.wf(),
        ensures
            r == self@.by_name.contains_key(name@),
    {
        self.registry.key_of(name).is_some()
    }

    /// Get the barrier key for a given barrier name.
    pub fn get_key(&self, name: &[u8]) -> (r: Option<&[u8]>)
        requires
            self.wf(),
        ensures
            match r {
                Some(key) => self@.by_name.contains_key(name@) && key@ == self@.by_name[name@],
                None => !self@.by_name.contains_key(name@),
            },
    {
        self.registry.key_of(name)
    }

    /// Get the lease_id for a given barrier key.
    pub fn get_lease_id(&self, key: &[u8]) -> (r: Option<i64>)
        requires
            self.wf(),
        ensures
            match r {
                Some(lease_id) => self@.leases.contains_key(key@) && lease_id
                    == self@.leases[key@],
                None => !self@.leases.contains_key(key@),
            },
    {
        self.registry.lease_of(key)
    }

    /// Get the number of active barriers.
    pub fn barrier_count(&self) -> (n: usize)
        requires
            self.wf(),
        ensures
            n == self@.by_name.len(),
            self@.by_name.dom().finite(),
    {
        self.registry.count()
    }

    /// Get all barrier keys recorded under a lease, in order, without removing them.
    pub fn get_keys_by_lease(&self, lease_id: i64) -> (r: Vec<Vec<u8>>)
        requires
            self.wf(),
        ensures
            crate::registry::views(r@).to_set() == self@.keys_of(lease_id),
            crate::registry::in_order(crate::registry::views(r@)),
    {
        self.registry.keys_by_lease(lease_id)
    }
}

/// Generate a barrier key for a given barrier name.
pub fn barrier_key(name: &[u8]) -> (r: Vec<u8>)
    ensures
        r@ == barrier_prefix() + name@,
{
    proof {
        reveal_strlit("_aether_barrier/");
    }
    concat(ascii_bytes(BARRIER_KEY_PREFIX).as_slice(), name)
}

/// Extract the barrier name from a barrier key.
pub fn barrier_name(key: &[u8]) -> (r: Option<&[u8]>)
    ensures
        match r {
            Some(name) => key@ == barrier_prefix() + name@,
            None => !barrier_prefix().is_prefix_of(key@),
        },
{
    proof {
        reveal_strlit("_aether_barrier/");
    }
    name_after(key, ascii_bytes(BARRIER_KEY_PREFIX).as_slice())
}

/// The key of a name determines the name, and it is a reserved key.
pub proof fn barrier_key_names_one(a: Seq<u8>, b: Seq<u8>)
    ensures
        barrier_prefix() + a == barrier_prefix() + b ==> a == b,
        barrier_prefix().is_prefix_of(barrier_prefix() + a),
        crate::names::reserved_prefix().is_prefix_of(barrier_prefix() + a),
{
    reveal_strlit("_aether_barrier/");
    reveal_strlit("_aether_");
    let (ka, kb) = (barrier_prefix() + a, barrier_prefix() + b);
    let p = barrier_prefix().len() as int;
    if ka == kb {
        assert(ka.skip(p) =~= a);
        assert(kb.skip(p) =~= b);
    }
    assert(ka.subrange(0, p) =~= barrier_prefix());
    assert(ka.subrange(0, 8) =~= crate::names::reserved_prefix());
}

/// What is said of a barrier name with a fault.
pub open spec fn barrier_name_message(fault: NameFault) -> Seq<char> {
    match fault {
        NameFault::Empty => "barrier name must not be empty"@,
        NameFault::TooLong => "barrier name too long"@,
        NameFault::NullByte => "barrier name must not contain null bytes"@,
        NameFault::Reserved => "barrier name must not start with reserved prefix '_aether_'"@,
    }
}

/// Validate barrier name - must not be empty or too long, must not contain null
/// bytes, and must not start with the reserved prefix.
pub fn validate_barrier_name(name: &[u8]) -> (r: Result<(), &'static str>)
    ensures
        match crate::names::fault(name@, MAX_BARRIER_NAME_LEN as nat) {
            None => r is Ok,
            Some(fault) => r is Err && r->Err_0@ == barrier_name_message(fault),
        },
{
    match find_fault(name, MAX_BARRIER_NAME_LEN) {
        None => Ok(()),
        Some(NameFault::Empty) => Err("barrier name must not be empty"),
        Some(NameFault::TooLong) => Err("barrier name too long"),
        Some(NameFault::NullByte) => Err("barrier name must not contain null bytes"),
        Some(NameFault::Reserved) => Err(
            "barrier name must not start with reserved prefix '_aether_'",
        ),
    }
}

/// A barrier that was created under its own key is held by that key, on the lease
/// if there is one; creating keeps the indexes consistent unless it moves the
/// key from one lease to another.
pub proof fn create_holds(h: Holdings, name: Seq<u8>, lease_id: i64)
    requires
        h.consistent(),
        canonical(h),
        !(lease_id > 0 && h.leases.contains_key(barrier_prefix() + name)
            && h.leases[barrier_prefix() + name] != lease_id),
    ensures
        ({
            let key = barrier_prefix() + name;
            let next = h.acquired(name, key, lease_id);
            &&& next.consistent()
            &&& canonical(next)
            &&& next.by_name.contains_key(name)
            &&& next.by_name[name] == key
            &&& lease_id > 0 ==> next.leases.contains_key(key) && next.leases[key] == lease_id
            &&& lease_id <= 0 ==> !next.leases.contains_key(key)
            &&& !next.released(key).by_name.contains_key(name)
        }),
{
    let key = barrier_prefix() + name;
    if h.by_key.contains_key(key) {
        barrier_key_names_one(h.by_key[key], name);
    }
    if h.by_name.contains_key(name) {
        assert(h.by_key.contains_key(h.by_name[name]));
    }
    h.acquired_consistent(name, key, lease_id);
}

/// Every barrier is held under its own key.
pub open spec fn canonical(h: Holdings) -> bool {
    forall|k: Seq<u8>| #[trigger] h.by_key.contains_key(k) ==> k == barrier_prefix() + h.by_key[k]
}

/// Releasing keeps every barrier under its own key.
pub proof fn release_keeps_canonical(h: Holdings, key: Seq<u8>, lease_id: i64)
    requires
        canonical(h),
    ensures
        canonical(h.released(key)),
        canonical(h.lease_released(lease_id)),
{
}

/// Each fault of a barrier name is told in its own words.
pub proof fn faults_of_barrier_names_are_told(fault: NameFault)
    ensures
        fault is Empty <==> barrier_name_message(fault) == "barrier name must not be empty"@,
        fault is TooLong <==> barrier_name_message(fault) == "barrier name too long"@,
        fault is NullByte <==> barrier_name_message(fault)
            == "barrier name must not contain null bytes"@,
        fault is Reserved <==> barrier_name_message(fault)
            == "barrier name must not start with reserved prefix '_aether_'"@,
{
    reveal_strlit("barrier name must not be empty");
    reveal_strlit("barrier name too long");
    reveal_strlit("barrier name must not contain null bytes");
    reveal_strlit("barrier name must not start with reserved prefix '_aether_'");
    let (empty, long) = ("barrier name must not be empty"@, "barrier name too long"@);
    let null = "barrier name must not contain null bytes"@;
    let reserved = "barrier name must not start with reserved prefix '_aether_'"@;
    assert(long.len() < empty.len() < null.len() < reserved.len());
}

} // verus!
