//! Distributed locks: which locks are held, by which key and on which lease.

use vstd::prelude::*;
use vstd::string::*;

use crate::bytes::{ascii_bytes, concat};
use crate::names::{find_fault, NameFault};
use crate::registry::{join_value, name_after, Entry, Holdings, Registry};

verus! {

/// Key prefix for lock keys in storage.
/// Uses the reserved prefix to avoid collision with user keys.
pub const LOCK_KEY_PREFIX: &'static str = "_aether_lock/";

/// Maximum allowed lock name length (1 KB).
pub const MAX_LOCK_NAME_LEN: usize = 1024;

/// The bytes that every lock key begins with.
pub open spec fn lock_prefix() -> Seq<u8> {
    crate::bytes::ascii(LOCK_KEY_PREFIX@)
}

/// In-memory lock manager.
///
/// Tracks which locks are currently held. The lock data itself is stored under
/// the lock prefix, as the lease in eight bytes followed by the lock name.
pub struct LockManager {
    registry: Registry,
}

impl View for LockManager {
    type V = Holdings;

    closed spec fn view(&self) -> Holdings {
        self.registry@
    }
}

impl Default for LockManager {
    fn default() -> (m: Self)
        ensures
            m.wf(),
            m@ == Holdings::empty(),
    {
        Self::new()
    }
}

impl LockManager {
    /// The indexes of the manager fit together.
    pub closed spec fn wf(&self) -> bool {
        self.registry.wf()
    }

    /// What `wf` says of the holdings.
    pub proof fn holdings_wf(&self)
        requires
            self.wf(),
        ensures
            self@.wf(),
    {
    }

    /// A manager in which no lock is held.
    pub fn new() -> (m: Self)
        ensures
            m.wf(),
            m@ == Holdings::empty(),
    {
        LockManager { registry: Registry::new() }
    }

    /// Rebuilds the lock state from what storage holds under the lock prefix.
    /// Values too short to hold a lease are passed over.
    pub fn restore(&mut self, entries: &Vec<Entry>)
        requires
            old(self).wf(),
        ensures
            final(self).wf(),
            final(self)@ == crate::registry::restored(
                None,
                crate::registry::entry_views(entries@),
            ),
    {
        self.registry = Registry::restore(None, entries);
    }

    /// Encode lock value with lease_id.
    pub fn encode_value(name: &[u8], lease_id: i64) -> (r: Vec<u8>)
        ensures
            r@ == crate::registry::stored_value(lease_id, name@),
    {
        join_value(lease_id, name)
    }

    /// Acquire a lock. Returns the lock key.
    ///
    /// Always updates all mappings: what the key held before, its former lease and
    /// the former key of the lock are forgotten.
    pub fn acquire(&mut self, name: Vec<u8>, key: Vec<u8>, lease_id: i64) -> (r: Vec<u8>)
        requires
            old(self).wf(),
        ensures
            final(self).wf(),
            final(self)@ == old(self)@.taken(name@, key@, lease_id),
            r == key,
    {
        self.registry.take(name, key, lease_id)
    }

    /// Release a lock by key. Returns true if the lock was found and released.
    pub fn release(&mut self, key: &[u8]) -> (r: bool)
        requires
            old(self).wf(),
        ensures
            final(self).wf(),
            final(self)@ == old(self)@.released(key@),
            r == old(self)@.by_key.contains_key(key@),
    {
        self.registry.release(key)
    }

    /// Release all locks recorded under a lease.
    /// Returns the lock keys that were released, in order.
    pub fn release_by_lease(&mut self, lease_id: i64) -> (r: Vec<Vec<u8>>)
        requires
            old(self).wf(),
        ensures
            final(self).wf(),
            final(self)@ == old(self)@.lease_released(lease_id),
            crate::registry::views(r@).to_set() == old(self)@.keys_of(lease_id),
            crate::registry::in_order(crate::registry::views(r@)),
    {
        self.registry.release_by_lease(lease_id)
    }

    /// Check if a lock is held.
    pub fn is_locked(&self, name: &[u8]) -> (r: bool)
        requires
            self.wf(),
        ensures
            r == self@.by_name.contains_key(name@),
    {
        self.registry.key_of(name).is_some()
    }

    /// Get the lock key for a given lock name.
    pub fn get_key(&self, name: &[u8]) -> (r: Option<&[u8]>)
        requires
            self.wf(),
        ensures
            match r {
                Some(key) => self@.by_name.contains_key(name@) && key@ == self@.by_name[name@],
                None => !self@.by_name.contains_key(name@),
            },
    {
        self.registry.key_of(name)
    }

    /// Get the lease_id for a given lock key.
    pub fn get_lease_id(&self, key: &[u8]) -> (r: Option<i64>)
        requires
            self.wf(),
        ensures
            match r {
                Some(lease_id) => self@.leases.contains_key(key@) && lease_id
                    == self@.leases[key@],
                None => !self@.leases.contains_key(key@),
            },
    {
        self.registry.lease_of(key)
    }

    /// Get the number of active locks.
    pub fn lock_count(&self) -> (n: usize)
        requires
            self.wf(),
        ensures
            n == self@.by_name.len(),
            self@.by_name.dom().finite(),
    {
        self.registry.count()
    }

    /// Get all lock keys recorded under a lease, in order, without removing them.
    pub fn get_keys_by_lease(&self, lease_id: i64) -> (r: Vec<Vec<u8>>)
        requires
            self.wf(),
        ensures
            crate::registry::views(r@).to_set() == self@.keys_of(lease_id),
            crate::registry::in_order(crate::registry::views(r@)),
    {
        self.registry.keys_by_lease(lease_id)
    }
}

/// Generate a lock key for a given lock name.
pub fn lock_key(name: &[u8]) -> (r: Vec<u8>)
    ensures
        r@ == lock_prefix() + name@,
{
    proof {
        reveal_strlit("_aether_lock/");
    }
    concat(ascii_bytes(LOCK_KEY_PREFIX).as_slice(), name)
}

/// Extract the lock name from a lock key.
pub fn lock_name(key: &[u8]) -> (r: Option<&[u8]>)
    ensures
        match r {
            Some(name) => key@ == lock_prefix() + name@,
            None => !lock_prefix().is_prefix_of(key@),
        },
{
    proof {
        reveal_strlit("_aether_lock/");
    }
    name_after(key, ascii_bytes(LOCK_KEY_PREFIX).as_slice())
}

/// The key of a name determines the name, and it is a reserved key.
pub proof fn lock_key_names_one(a: Seq<u8>, b: Seq<u8>)
    ensures
        lock_prefix() + a == lock_prefix() + b ==> a == b,
        lock_prefix().is_prefix_of(lock_prefix() + a),
        crate::names::reserved_prefix().is_prefix_of(lock_prefix() + a),
{
    reveal_strlit("_aether_lock/");
    reveal_strlit("_aether_");
    let (ka, kb) = (lock_prefix() + a, lock_prefix() + b);
    let p = lock_prefix().len() as int;
    if ka == kb {
        assert(ka.skip(p) =~= a);
        assert(kb.skip(p) =~= b);
    }
    assert(ka.subrange(0, p) =~= lock_prefix());
    assert(ka.subrange(0, 8) =~= crate::names::reserved_prefix());
}

/// What is said of a lock name with a fault.
pub open spec fn lock_name_message(fault: NameFault) -> Seq<char> {
    match fault {
        NameFault::Empty => "lock name must not be empty"@,
        NameFault::TooLong => "lock name too long"@,
        NameFault::NullByte => "lock name must not contain null bytes"@,
        NameFault::Reserved => "lock name must not start with reserved prefix '_aether_'"@,
    }
}

/// Validate lock name - must not be empty or too long, must not contain null
/// bytes, and must not start with the reserved prefix.
pub fn validate_lock_name(name: &[u8]) -> (r: Result<(), &'static str>)
    ensures
        match crate::names::fault(name@, MAX_LOCK_NAME_LEN as nat) {
            None => r is Ok,
            Some(fault) => r is Err && r->Err_0@ == lock_name_message(fault),
        },
{
    match find_fault(name, MAX_LOCK_NAME_LEN) {
        None => Ok(()),
        Some(NameFault::Empty) => Err("lock name must not be empty"),
        Some(NameFault::TooLong) => Err("lock name too long"),
        Some(NameFault::NullByte) => Err("lock name must not contain null bytes"),
        Some(NameFault::Reserved) => Err(
            "lock name must not start with reserved prefix '_aether_'",
        ),
    }
}

/// A lock that was acquired under its own key is held by that key, on the lease
/// if there is one; acquiring keeps the indexes consistent, also where it moves
/// the key from one lease to another.
pub proof fn acquire_holds(h: Holdings, name: Seq<u8>, lease_id: i64)
    requires
        h.consistent(),
        canonical(h),
    ensures
        ({
            let key = lock_prefix() + name;
            let next = h.taken(name, key, lease_id);
            &&& next.consistent()
            &&& canonical(next)
            &&& next.by_name.contains_key(name)
            &&& next.by_name[name] == key
            &&& lease_id > 0 ==> next.leases.contains_key(key) && next.leases[key] == lease_id
            &&& lease_id <= 0 ==> !next.leases.contains_key(key)
            &&& forall|l: i64| #[trigger] next.keys_of(l).contains(key) <==> lease_id > 0 && l
                == lease_id
            &&& !next.released(key).by_name.contains_key(name)
        }),
{
    let key = lock_prefix() + name;
    h.taken_consistent(name, key, lease_id);
}

/// Every lock is held under its own key.
pub open spec fn canonical(h: Holdings) -> bool {
    forall|k: Seq<u8>| #[trigger] h.by_key.contains_key(k) ==> k == lock_prefix() + h.by_key[k]
}

/// Releasing keeps every lock under its own key.
pub proof fn release_keeps_canonical(h: Holdings, key: Seq<u8>, lease_id: i64)
    requires
        canonical(h),
    ensures
        canonical(h.released(key)),
        canonical(h.lease_released(lease_id)),
{
}

/// Each fault of a lock name is told in its own words.
pub proof fn faults_of_lock_names_are_told(fault: NameFault)
    ensures
        fault is Empty <==> lock_name_message(fault) == "lock name must not be empty"@,
        fault is TooLong <==> lock_name_message(fault) == "lock name too long"@,
        fault is NullByte <==> lock_name_message(fault)
            == "lock name must not contain null bytes"@,
        fault is Reserved <==> lock_name_message(fault)
            == "lock name must not start with reserved prefix '_aether_'"@,
{
    reveal_strlit("lock name must not be empty");
    reveal_strlit("lock name too long");
    reveal_strlit("lock name must not contain null bytes");
    reveal_strlit("lock name must not start with reserved prefix '_aether_'");
    let (empty, long) = ("lock name must not be empty"@, "lock name too long"@);
    let null = "lock name must not contain null bytes"@;
    let reserved = "lock name must not start with reserved prefix '_aether_'"@;
    assert(long.len() < empty.len() < null.len() < reserved.len());
}

} // verus!
