//! Elections: which elections have a leader, under which key and on which lease.

use vstd::prelude::*;
use vstd::string::*;

use crate::bytes::{ascii_bytes, concat};
use crate::names::{find_fault, NameFault};
use crate::registry::{join_value, name_after, Entry, Holdings, Registry};

verus! {

/// Key prefix for election keys in storage.
/// Uses the reserved prefix to avoid collision with user keys.
pub const ELECTION_KEY_PREFIX: &'static str = "_aether_election/";

/// Maximum allowed election name length (1 KB).
pub const MAX_ELECTION_NAME_LEN: usize = 1024;

/// The bytes that every election key begins with.
pub open spec fn election_prefix() -> Seq<u8> {
    crate::bytes::ascii(ELECTION_KEY_PREFIX@)
}

/// In-memory election manager.
///
/// Tracks which elections have active leaders. The leaders themselves are stored
/// under the election prefix, as the lease in eight bytes followed by what the
/// leader proclaims.
pub struct ElectionManager {
    registry: Registry,
}

impl View for ElectionManager {
    type V = Holdings;

    closed spec fn view(&self) -> Holdings {
        self.registry@
    }
}

impl Default for ElectionManager {
    fn default() -> (m: Self)
        ensures
            m.wf(),
            m@ == Holdings::empty(),
    {
        Self::new()
    }
}

impl ElectionManager {
    /// The indexes of the manager fit together.
    pub closed spec fn wf(&self) -> bool {
        self.registry.wf()
    }

    /// What `wf` says of the holdings.
    pub proof fn holdings_wf(&self)
        requires
            self.wf(),
        ensures
            self@.wf(),
    {
    }

    /// A manager in which no election has a leader.
    pub fn new() -> (m: Self)
        ensures
            m.wf(),
            m@ == Holdings::empty(),
    {
        ElectionManager { registry: Registry::new() }
    }

    /// Rebuilds the election state from what storage holds under the election
    /// prefix. Values too short to hold a lease are passed over.
    pub fn restore(&mut self, entries: &Vec<Entry>)
        requires
            old(self).wf(),
        ensures
            final(self).wf(),
            final(self)@ == crate::registry::restored(
                Some(election_prefix()),
                crate::registry::entry_views(entries@),
            ),
    {
        proof {
            reveal_strlit("_aether_election/");
        }
        let prefix: Vec<u8> = ascii_bytes(ELECTION_KEY_PREFIX);
        self.registry = Registry::restore(Some(prefix.as_slice()), entries);
    }

    /// Encode election value with lease_id.
    pub fn encode_value(value: &[u8], lease_id: i64) -> (r: Vec<u8>)
        ensures
            r@ == crate::registry::stored_value(lease_id, value@),
    {
        join_value(lease_id, value)
    }

    /// Set the leader for an election. Returns the leader key. Without a lease the
    /// key keeps the lease that it had.
    pub fn set_leader(&mut self, name: Vec<u8>, key: Vec<u8>, lease_id: i64) -> (r: Vec<u8>)
        requires
            old(self).wf(),
        ensures
            final(self).wf(),
            final(self)@ == old(self)@.recorded(name@, key@, lease_id),
            r == key,
    {
        self.registry.record(name, key, lease_id)
    }

    /// Remove a leader by key. Returns true if found and removed.
    pub fn remove_leader(&mut self, key: &[u8]) -> (r: bool)
        requires
            old(self).wf(),
        ensures
            final(self).wf(),
            final(self)@ == old(self)@.released(key@),
            r == old(self)@.by_key.contains_key(key@),
    {
        self.registry.release(key)
    }

    /// Remove all leaders recorded under a lease.
    /// Returns the leader keys that were removed, in order.
    pub fn remove_by_lease(&mut self, lease_id: i64) -> (r: Vec<Vec<u8>>)
        requires
            old(self).wf(),
        ensures
            final(self).wf(),
            final(self)@ == old(self)@.lease_released(lease_id),
            crate::registry::views(r@).to_set() == old(self)@.keys_of(lease_id),
            crate::registry::in_order(crate::registry::views(r@)),
    {
        self.registry.release_by_lease(lease_id)
    }

    /// Check if an election has a leader.
    pub fn has_leader(&self, name: &[u8]) -> (r: bool)
        requires
            self.wf(),
        ensures
            r == self@.by_name.contains_key(name@),
    {
        self.registry.key_of(name).is_some()
    }

    /// Get the leader key for a given election name.
    pub fn get_leader_key(&self, name: &[u8]) -> (r: Option<&[u8]>)
        requires
            self.wf(),
        ensures
            match r {
                Some(key) => self@.by_name.contains_key(name@) && key@ == self@.by_name[name@],
                None => !self@.by_name.contains_key(name@),
            },
    {
        self.registry.key_of(name)
    }

    /// Check if a leader key exists. Returns the election name if found.
    pub fn get_election_name_by_key(&self, key: &[u8]) -> (r: Option<&[u8]>)
        requires
            self.wf(),
        ensures
            match r {
                Some(name) => self@.by_key.contains_key(key@) && name@ == self@.by_key[key@],
                None => !self@.by_key.contains_key(key@),
            },
    {
        self.registry.name_of(key)
    }

    /// Get the lease_id for a given leader key.
    pub fn get_lease_id(&self, key: &[u8]) -> (r: Option<i64>)
        requires
            self.wf(),
        ensures
            match r {
                Some(lease_id) => self@.leases.contains_key(key@) && lease_id
                    == self@.leases[key@],
                None => !self@.leases.contains_key(key@),
            },
    {
        self.registry.lease_of(key)
    }

    /// Get the number of active elections with leaders.
    pub fn election_count(&self) -> (n: usize)
        requires
            self.wf(),
        ensures
            n == self@.by_name.len(),
            self@.by_name.dom().finite(),
    {
        self.registry.count()
    }

    /// Get all leader keys recorded under a lease, in order, without removing them.
    pub fn get_keys_by_lease(&self, lease_id: i64) -> (r: Vec<Vec<u8>>)
        requires
            self.wf(),
        ensures
            crate::registry::views(r@).to_set() == self@.keys_of(lease_id),
            crate::registry::in_order(crate::registry::views(r@)),
    {
        self.registry.keys_by_lease(lease_id)
    }
}

/// Generate an election key for a given election name.
pub fn election_key(name: &[u8]) -> (r: Vec<u8>)
    ensures
        r@ == election_prefix() + name@,
{
    proof {
        reveal_strlit("_aether_election/");
    }
    concat(ascii_bytes(ELECTION_KEY_PREFIX).as_slice(), name)
}

/// Extract the election name from an election key.
pub fn election_name(key: &[u8]) -> (r: Option<&[u8]>)
    ensures
        match r {
            Some(name) => key@ == election_prefix() + name@,
            None => !election_prefix().is_prefix_of(key@),
        },
{
    proof {
        reveal_strlit("_aether_election/");
    }
    name_after(key, ascii_bytes(ELECTION_KEY_PREFIX).as_slice())
}

/// The key of a name determines the name, and it is a reserved key.
pub proof fn election_key_names_one(a: Seq<u8>, b: Seq<u8>)
    ensures
        election_prefix() + a == election_prefix() + b ==> a == b,
        election_prefix().is_prefix_of(election_prefix() + a),
        crate::names::reserved_prefix().is_prefix_of(election_prefix() + a),
{
    reveal_strlit("_aether_election/");
    reveal_strlit("_aether_");
    let (ka, kb) = (election_prefix() + a, election_prefix() + b);
    let p = election_prefix().len() as int;
    if ka == kb {
        assert(ka.skip(p) =~= a);
        assert(kb.skip(p) =~= b);
    }
    assert(ka.subrange(0, p) =~= election_prefix());
    assert(ka.subrange(0, 8) =~= crate::names::reserved_prefix());
}

/// What is said of an election name with a fault.
pub open spec fn election_name_message(fault: NameFault) -> Seq<char> {
    match fault {
        NameFault::Empty => "election name must not be empty"@,
        NameFault::TooLong => "election name too long"@,
        NameFault::NullByte => "election name must not contain null bytes"@,
        NameFault::Reserved => "election name must not start with reserved prefix '_aether_'"@,
    }
}

/// Validate election name - must not be empty or too long, must not contain null
/// bytes, and must not start with the reserved prefix.
pub fn validate_election_name(name: &[u8]) -> (r: Result<(), &'static str>)
    ensures
        match crate::names::fault(name@, MAX_ELECTION_NAME_LEN as nat) {
            None => r is Ok,
            Some(fault) => r is Err && r->Err_0@ == election_name_message(fault),
        },
{
    match find_fault(name, MAX_ELECTION_NAME_LEN) {
        None => Ok(()),
        Some(NameFault::Empty) => Err("election name must not be empty"),
        Some(NameFault::TooLong) => Err("election name too long"),
        Some(NameFault::NullByte) => Err("election name must not contain null bytes"),
        Some(NameFault::Reserved) => Err(
            "election name must not start with reserved prefix '_aether_'",
        ),
    }
}

/// A leader that was set under the election's own key leads by that key, on the
/// lease if there is one; setting it keeps the indexes consistent unless it moves
/// the key from one lease to another.
pub proof fn set_leader_holds(h: Holdings, name: Seq<u8>, lease_id: i64)
    requires
        h.consistent(),
        canonical(h),
        !(lease_id > 0 && h.leases.contains_key(election_prefix() + name)
            && h.leases[election_prefix() + name] != lease_id),
    ensures
        ({
            let key = election_prefix() + name;
            let next = h.recorded(name, key, lease_id);
            &&& next.consistent()
            &&& canonical(next)
            &&& next.by_name.contains_key(name)
            &&& next.by_name[name] == key
            &&& next.lease_or_zero(key) == if lease_id > 0 {
                lease_id
            } else {
                h.lease_or_zero(key)
            }
            &&& !next.released(key).by_name.contains_key(name)
        }),
{
    let key = election_prefix() + name;
    if h.by_key.contains_key(key) {
        election_key_names_one(h.by_key[key], name);
    }
    if h.by_name.contains_key(name) {
        assert(h.by_key.contains_key(h.by_name[name]));
    }
    let next = h.recorded(name, key, lease_id);
    if lease_id > 0 {
        h.acquired_consistent(name, key, lease_id);
    } else {
        h.operations_keep_wf(name, key, lease_id);
        assert forall|l: i64, k: Seq<u8>| #[trigger] next.keys_of(l).contains(k) implies
            next.leases.contains_key(k) && next.leases[k] == l by {
            assert(h.keys_of(l).contains(k));
        }
    }
}

/// Every leader leads under the election's own key.
pub open spec fn canonical(h: Holdings) -> bool {
    forall|k: Seq<u8>| #[trigger] h.by_key.contains_key(k) ==> k == election_prefix() + h.by_key[k]
}

/// Removing leaders keeps every other leader under its election's own key.
pub proof fn release_keeps_canonical(h: Holdings, key: Seq<u8>, lease_id: i64)
    requires
        canonical(h),
    ensures
        canonical(h.released(key)),
        canonical(h.lease_released(lease_id)),
{
}

/// Restoring what is stored of every leader, in whatever order and whatever the
/// leaders proclaim, gives the same holdings.
pub proof fn restore_rebuilds(
    h: Holdings,
    keys: Seq<Seq<u8>>,
    proclaimed: Seq<Seq<u8>>,
    entries: Seq<(Seq<u8>, Seq<u8>)>,
)
    requires
        h.consistent(),
        canonical(h),
        keys.no_duplicates(),
        keys.to_set() == h.by_key.dom(),
        proclaimed.len() == keys.len() == entries.len(),
        forall|i: int|
            0 <= i < keys.len() ==> #[trigger] entries[i] == (
                keys[i],
                crate::registry::stored_value(h.lease_or_zero(keys[i]), proclaimed[i]),
            ),
    ensures
        crate::registry::restored(Some(election_prefix()), entries) == h,
{
    let prefix = Some(election_prefix());
    assert forall|i: int| 0 <= i < entries.len() implies {
        let key = (#[trigger] entries[i]).0;
        &&& h.by_key.contains_key(key)
        &&& crate::registry::entry_says(prefix, entries[i]) == Some(
            (h.lease_or_zero(key), h.by_key[key]),
        )
    } by {
        let key = keys[i];
        assert(keys.to_set().contains(key));
        crate::registry::named_by_key(
            election_prefix(),
            h.by_key[key],
            h.lease_or_zero(key),
            proclaimed[i],
        );
    }
    assert forall|k: Seq<u8>| #[trigger] h.by_key.contains_key(k) implies exists|i: int|
        0 <= i < entries.len() && (#[trigger] entries[i]).0 == k by {
        assert(keys.to_set().contains(k));
        let i = keys.index_of(k);
        assert(entries[i].0 == k);
    }
    crate::registry::restore_rebuilds(prefix, entries, h);
}

/// Each fault of a election name is told in its own words.
pub proof fn faults_of_election_names_are_told(fault: NameFault)
    ensures
        fault is Empty <==> election_name_message(fault) == "election name must not be empty"@,
        fault is TooLong <==> election_name_message(fault) == "election name too long"@,
        fault is NullByte <==> election_name_message(fault)
            == "election name must not contain null bytes"@,
        fault is Reserved <==> election_name_message(fault)
            == "election name must not start with reserved prefix '_aether_'"@,
{
    reveal_strlit("election name must not be empty");
    reveal_strlit("election name too long");
    reveal_strlit("election name must not contain null bytes");
    reveal_strlit("election name must not start with reserved prefix '_aether_'");
    let (empty, long) = ("election name must not be empty"@, "election name too long"@);
    let null = "election name must not contain null bytes"@;
    let reserved = "election name must not start with reserved prefix '_aether_'"@;
    assert(long.len() < empty.len() < null.len() < reserved.len());
}

} // verus!
