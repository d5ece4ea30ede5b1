//! Distributed queues: sequence numbers and the keys of queue items.

use vstd::prelude::*;
use vstd::slice::slice_subrange;
use vstd::string::*;

use crate::bytes::{
    ascii_bytes, concat, contains_byte, copy_bytes, decode_u64, encode_u64, starts_with,
};
use crate::names::is_reserved;
use crate::registry::Entry;
use crate::sorted::SortedMap;

verus! {

/// Key prefix for queue item keys in storage. Items are stored under the prefix,
/// the queue name, a slash and the sequence number in eight bytes.
pub const QUEUE_KEY_PREFIX: &'static str = "_aether_queue/";

/// Key prefix for queue metadata (next sequence number).
pub const QUEUE_META_PREFIX: &'static str = "_aether_queue_meta/";

/// Maximum allowed queue name length (1 KB).
pub const MAX_QUEUE_NAME_LEN: usize = 1024;

/// The byte that ends a queue name in an item key.
pub const SLASH: u8 = 47;

/// The bytes that every item key begins with.
pub open spec fn item_prefix() -> Seq<u8> {
    crate::bytes::ascii(QUEUE_KEY_PREFIX@)
}

/// The bytes that every metadata key begins with.
pub open spec fn meta_prefix() -> Seq<u8> {
    crate::bytes::ascii(QUEUE_META_PREFIX@)
}

/// The bytes that every item key of a queue begins with.
pub open spec fn scan_prefix(name: Seq<u8>) -> Seq<u8> {
    (item_prefix() + name).push(SLASH)
}

/// The key of an item.
pub open spec fn item_key(name: Seq<u8>, seq: u64) -> Seq<u8> {
    scan_prefix(name) + crate::bytes::be_u64(seq)
}

/// The next sequence number of a queue; a queue that is not known begins at 1.
pub open spec fn next_of(next: Map<Seq<u8>, u64>, name: Seq<u8>) -> u64 {
    if next.contains_key(name) {
        next[name]
    } else {
        1
    }
}

/// The sequence numbers after reading stored metadata: the name from the key and
/// the number from the first eight bytes of the value. Keys of another prefix and
/// shorter values are passed over.
pub open spec fn restored(entries: Seq<(Seq<u8>, Seq<u8>)>) -> Map<Seq<u8>, u64>
    decreases entries.len(),
{
    if entries.len() == 0 {
        Map::empty()
    } else {
        let before = restored(entries.drop_last());
        let (key, value) = entries.last();
        if meta_prefix().is_prefix_of(key) && value.len() >= 8 {
            before.insert(key.skip(meta_prefix().len() as int), crate::bytes::read_u64(value))
        } else {
            before
        }
    }
}

/// In-memory queue manager.
///
/// Tracks queue metadata (next sequence number per queue). The queue items
/// themselves are stored under sequential keys.
pub struct QueueManager {
    next_seq: SortedMap<Vec<u8>, u64>,
}

impl View for QueueManager {
    type V = Map<Seq<u8>, u64>;

    closed spec fn view(&self) -> Map<Seq<u8>, u64> {
        self.next_seq@
    }
}

impl Default for QueueManager {
    fn default() -> (m: Self)
        ensures
            m.wf(),
            m@ == Map::<Seq<u8>, u64>::empty(),
    {
        Self::new()
    }
}

impl QueueManager {
    /// The queues are in order.
    pub closed spec fn wf(&self) -> bool {
        self.next_seq.wf()
    }

    /// A manager that knows no queue.
    pub fn new() -> (m: Self)
        ensures
            m.wf(),
            m@ == Map::<Seq<u8>, u64>::empty(),
    {
        QueueManager { next_seq: SortedMap::new() }
    }

    /// Rebuilds the sequence counters from what storage holds under the metadata
    /// prefix.
    pub fn restore(&mut self, entries: &Vec<Entry>)
        requires
            old(self).wf(),
        ensures
            final(self).wf(),
            final(self)@ == restored(crate::registry::entry_views(entries@)),
    {
        let ghost all = crate::registry::entry_views(entries@);
        self.next_seq = SortedMap::new();
        let mut i: usize = 0;
        assert(all.take(0) =~= Seq::empty());
        while i < entries.len()
            invariant
                i <= entries.len(),
                all == crate::registry::entry_views(entries@),
                self.wf(),
                self@ == restored(all.take(i as int)),
            decreases entries.len() - i,
        {
            let entry = &entries[i];
            proof {
                assert(all.take(i + 1).drop_last() =~= all.take(i as int));
                assert(all.take(i + 1).last() == entry@);
            }
            if let Some(name) = queue_meta_name(entry.key.as_slice()) {
                proof {
                    let p = meta_prefix();
                    assert(entry.key@.subrange(0, p.len() as int) =~= p);
                    assert(entry.key@.skip(p.len() as int) =~= name@);
                }
                if entry.value.len() >= 8 {
                    let seq: u64 = decode_u64(entry.value.as_slice());
                    self.next_seq.insert(copy_bytes(name), seq);
                }
            }
            i = i + 1;
        }
        assert(all.take(i as int) =~= all);
    }

    /// Get and increment the next sequence number for a queue.
    /// Returns the current sequence number.
    pub fn next_seq(&mut self, name: &[u8]) -> (seq: u64)
        requires
            old(self).wf(),
            next_of(old(self)@, name@) < u64::MAX,
        ensures
            final(self).wf(),
            seq == next_of(old(self)@, name@),
            final(self)@ == old(self)@.insert(name@, (seq + 1) as u64),
    {
        let seq: u64 = self.peek_seq(name);
        self.next_seq.insert(copy_bytes(name), seq + 1);
        seq
    }

    /// Get the current sequence number without incrementing.
    pub fn peek_seq(&self, name: &[u8]) -> (seq: u64)
        requires
            self.wf(),
        ensures
            seq == next_of(self@, name@),
    {
        match self.next_seq.get(name) {
            Some(seq) => *seq,
            None => 1,
        }
    }

    /// Get the number of tracked queues.
    pub fn queue_count(&self) -> (n: usize)
        requires
            self.wf(),
        ensures
            n == self@.len(),
            self@.dom().finite(),
    {
        self.next_seq.len()
    }
}

/// Generate a queue item key: prefix, name, slash and the sequence number in
/// eight bytes.
pub fn queue_item_key(name: &[u8], seq: u64) -> (r: Vec<u8>)
    ensures
        r@ == item_key(name@, seq),
{
    concat(queue_scan_prefix(name).as_slice(), encode_u64(seq).as_slice())
}

/// Generate the prefix for scanning all items in a queue: prefix, name and slash.
pub fn queue_scan_prefix(name: &[u8]) -> (r: Vec<u8>)
    ensures
        r@ == scan_prefix(name@),
{
    proof {
        reveal_strlit("_aether_queue/");
    }
    let mut prefix: Vec<u8> = concat(ascii_bytes(QUEUE_KEY_PREFIX).as_slice(), name);
    prefix.push(SLASH);
    prefix
}

/// Generate the meta key for a queue: metadata prefix and name.
pub fn queue_meta_key(name: &[u8]) -> (r: Vec<u8>)
    ensures
        r@ == meta_prefix() + name@,
{
    proof {
        reveal_strlit("_aether_queue_meta/");
    }
    concat(ascii_bytes(QUEUE_META_PREFIX).as_slice(), name)
}

/// Extract the queue name from a meta key.
pub fn queue_meta_name(key: &[u8]) -> (r: Option<&[u8]>)
    ensures
        match r {
            Some(name) => key@ == meta_prefix() + name@,
            None => !meta_prefix().is_prefix_of(key@),
        },
{
    proof {
        reveal_strlit("_aether_queue_meta/");
    }
    let prefix: Vec<u8> = ascii_bytes(QUEUE_META_PREFIX);
    if starts_with(key, prefix.as_slice()) {
        let name = slice_subrange(key, prefix.len(), key.len());
        assert(key@ =~= prefix@ + name@);
        Some(name)
    } else {
        None
    }
}

/// What is wrong with a queue name, if anything: the first rule that it breaks.
pub open spec fn queue_name_message(name: Seq<u8>) -> Option<Seq<char>> {
    if name.len() == 0 {
        Some("queue name must not be empty"@)
    } else if name.len() > MAX_QUEUE_NAME_LEN {
        Some("queue name too long"@)
    } else if name.contains(0u8) {
        Some("queue name must not contain null bytes"@)
    } else if name.contains(SLASH) {
        Some("queue name must not contain '/'"@)
    } else if crate::names::reserved_prefix().is_prefix_of(name) {
        Some("queue name must not start with reserved prefix '_aether_'"@)
    } else {
        None
    }
}

/// Validate queue name.
pub fn validate_queue_name(name: &[u8]) -> (r: Result<(), &'static str>)
    ensures
        match queue_name_message(name@) {
            None => r is Ok,
            Some(message) => r is Err && r->Err_0@ == message,
        },
{
    if name.len() == 0 {
        return Err("queue name must not be empty");
    }
    if name.len() > MAX_QUEUE_NAME_LEN {
        return Err("queue name too long");
    }
    if contains_byte(name, 0) {
        return Err("queue name must not contain null bytes");
    }
    if contains_byte(name, SLASH) {
        return Err("queue name must not contain '/'");
    }
    if is_reserved(name) {
        return Err("queue name must not start with reserved prefix '_aether_'");
    }
    Ok(())
}

/// The items of a queue are stored in the order of their sequence numbers.
pub proof fn item_keys_ordered(name: Seq<u8>, a: u64, b: u64)
    requires
        a < b,
    ensures
        crate::bytes::lex_lt(item_key(name, a), item_key(name, b)),
{
    crate::bytes::u64_ordered(a, b);
    crate::bytes::lex_prefix(
        scan_prefix(name),
        crate::bytes::be_u64(a),
        crate::bytes::be_u64(b),
    );
}

/// An item key is found by the scan of its own queue, and by the scan of no other
/// queue whose name is without a slash.
pub proof fn scans_are_disjoint(a: Seq<u8>, b: Seq<u8>, seq: u64)
    requires
        !a.contains(SLASH),
        !b.contains(SLASH),
    ensures
        scan_prefix(a).is_prefix_of(item_key(b, seq)) <==> a == b,
{
    let (pa, pb) = (scan_prefix(a), scan_prefix(b));
    let key = item_key(b, seq);
    let p = item_prefix().len() as int;
    if a == b {
        assert(key.subrange(0, pa.len() as int) =~= pa);
    } else if pa.is_prefix_of(key) {
        assert forall|i: int| 0 <= i < pa.len() implies pa[i] == key[i] by {
            assert(pa[i] == key.subrange(0, pa.len() as int)[i]);
        }
        assert(forall|i: int| 0 <= i < b.len() ==> key[p + i] == b[i]);
        assert(forall|i: int| 0 <= i < a.len() ==> pa[p + i] == a[i]);
        assert(pa[p + a.len()] == SLASH);
        assert(key[p + b.len()] == SLASH);
        if a.len() < b.len() {
            assert(b[a.len() as int] == SLASH);
        } else if b.len() < a.len() {
            assert(a[b.len() as int] == pa[p + b.len()]);
            assert(a[b.len() as int] == SLASH);
        } else {
            assert forall|i: int| 0 <= i < a.len() implies a[i] == b[i] by {
                assert(pa[p + i] == key[p + i]);
            }
            assert(a =~= b);
        }
    }
}

/// Taking a sequence number moves that queue on by one and no other queue.
pub proof fn next_seq_advances(next: Map<Seq<u8>, u64>, name: Seq<u8>, other: Seq<u8>)
    requires
        next_of(next, name) < u64::MAX,
    ensures
        ({
            let after = next.insert(name, (next_of(next, name) + 1) as u64);
            &&& next_of(after, name) == next_of(next, name) + 1
            &&& other != name ==> next_of(after, other) == next_of(next, other)
        }),
{
}

/// What is stored of a sequence number: its metadata key and its eight bytes.
pub open spec fn image(name: Seq<u8>, seq: u64) -> (Seq<u8>, Seq<u8>) {
    (meta_prefix() + name, crate::bytes::be_u64(seq))
}

/// Reading back a stored sequence number makes it the next one of its queue.
pub proof fn restore_reads_back(entries: Seq<(Seq<u8>, Seq<u8>)>, name: Seq<u8>, seq: u64)
    ensures
        restored(entries.push(image(name, seq))) == restored(entries).insert(name, seq),
{
    let (key, value) = image(name, seq);
    assert(entries.push((key, value)).drop_last() =~= entries);
    assert(key.subrange(0, meta_prefix().len() as int) =~= meta_prefix());
    assert(key.skip(meta_prefix().len() as int) =~= name);
    crate::bytes::u64_round_trip(seq, Seq::empty());
    assert(value + Seq::<u8>::empty() =~= value);
}

/// A queue name is accepted if and only if it has from 1 to 1024 bytes, none of
/// them zero or a slash, and does not begin with the reserved prefix.
pub proof fn accepted_queue_names(name: Seq<u8>)
    ensures
        queue_name_message(name) is None <==> {
            &&& 0 < name.len() <= 1024
            &&& forall|i: int| 0 <= i < name.len() ==> name[i] != 0 && name[i] != 47
            &&& !crate::names::begins_reserved(name)
        },
{
    crate::names::faults_are_there(name, 1024);
    if name.len() > 0 && name.len() <= 1024 && !name.contains(0u8) {
        assert(forall|i: int| 0 <= i < name.len() ==> name[i] != 0);
    }
    if crate::names::reserved_prefix().is_prefix_of(name) && 0 < name.len() <= 1024
        && !name.contains(0u8) {
        assert(crate::names::fault(name, 1024) == Some(crate::names::NameFault::Reserved));
    }
}

/// The first item of a queue that nothing is known of gets the number 1, and that
/// of a known queue the number that is recorded.
pub proof fn queues_begin_at_one(next: Map<Seq<u8>, u64>, name: Seq<u8>)
    ensures
        !next.contains_key(name) ==> next_of(next, name) == 1,
        next.contains_key(name) ==> next_of(next, name) == next[name],
{
}

/// What is stored under another prefix, or is too short for a number, says nothing
/// of any queue when it is read back.
pub proof fn restore_passes_over_the_rest(
    entries: Seq<(Seq<u8>, Seq<u8>)>,
    key: Seq<u8>,
    value: Seq<u8>,
)
    requires
        value.len() < 8 || !(exists|name: Seq<u8>| key == #[trigger] (meta_prefix() + name)),
    ensures
        restored(entries.push((key, value))) == restored(entries),
        restored(Seq::<(Seq<u8>, Seq<u8>)>::empty()) == Map::<Seq<u8>, u64>::empty(),
{
    assert(entries.push((key, value)).drop_last() =~= entries);
    if meta_prefix().is_prefix_of(key) {
        let p = meta_prefix().len() as int;
        assert(key =~= meta_prefix() + key.skip(p)) by {
            assert(key.subrange(0, p) == meta_prefix());
            assert(key =~= key.subrange(0, p) + key.skip(p));
        }
    }
}

/// The first rule that a queue name breaks is told: that it is empty, then that it
/// is too long, then what it holds, and then how it begins.
pub proof fn faults_of_queue_names_are_told(name: Seq<u8>)
    ensures
        name.len() == 0 ==> queue_name_message(name) == Some("queue name must not be empty"@),
        name.len() > 1024 ==> queue_name_message(name) == Some("queue name too long"@),
        0 < name.len() <= 1024 && name.contains(0u8) ==> queue_name_message(name) == Some(
            "queue name must not contain null bytes"@,
        ),
        0 < name.len() <= 1024 && !name.contains(0u8) && name.contains(47u8)
            ==> queue_name_message(name) == Some("queue name must not contain '/'"@),
{
}

} // verus!
