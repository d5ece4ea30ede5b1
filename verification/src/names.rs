//! Names that clients give to locks, barriers, elections and queues.

use vstd::prelude::*;
use vstd::string::*;

use crate::bytes::{ascii_bytes, contains_byte, starts_with};

verus! {

/// Reserved prefix for system use.
pub const RESERVED_PREFIX: &'static str = "_aether_";

/// The bytes of the reserved prefix.
pub open spec fn reserved_prefix() -> Seq<u8> {
    crate::bytes::ascii(RESERVED_PREFIX@)
}

/// What can be wrong with a name.
#[derive(Clone, Copy, PartialEq, Eq, Structural, Debug)]
pub enum NameFault {
    Empty,
    TooLong,
    NullByte,
    Reserved,
}

/// The first thing that is wrong with a name of at most `max_len` bytes.
pub open spec fn fault(name: Seq<u8>, max_len: nat) -> Option<NameFault> {
    if name.len() == 0 {
        Some(NameFault::Empty)
    } else if name.len() > max_len {
        Some(NameFault::TooLong)
    } else if name.contains(0u8) {
        Some(NameFault::NullByte)
    } else if reserved_prefix().is_prefix_of(name) {
        Some(NameFault::Reserved)
    } else {
        None
    }
}

/// Whether the key begins with the reserved prefix.
pub fn is_reserved(key: &[u8]) -> (r: bool)
    ensures
        r == reserved_prefix().is_prefix_of(key@),
{
    proof {
        reveal_strlit("_aether_");
    }
    let prefix: Vec<u8> = ascii_bytes(RESERVED_PREFIX);
    starts_with(key, prefix.as_slice())
}

/// The first thing that is wrong with a name of at most `max_len` bytes.
pub fn find_fault(name: &[u8], max_len: usize) -> (r: Option<NameFault>)
    ensures
        r == fault(name@, max_len as nat),
{
    if name.len() == 0 {
        return Some(NameFault::Empty);
    }
    if name.len() > max_len {
        return Some(NameFault::TooLong);
    }
    if contains_byte(name, 0) {
        return Some(NameFault::NullByte);
    }
    if is_reserved(name) {
        return Some(NameFault::Reserved);
    }
    None
}

/// A name is without fault if and only if it has from one to the maximal number of
/// bytes, none of them zero, and does not begin with the reserved prefix. Each
/// fault is found only where it is.
pub proof fn faults_are_there(name: Seq<u8>, max_len: nat)
    ensures
        fault(name, max_len) is None <==> {
            &&& 0 < name.len() <= max_len
            &&& forall|i: int| 0 <= i < name.len() ==> name[i] != 0
            &&& !begins_reserved(name)
        },
        fault(name, max_len) == Some(NameFault::Empty) <==> name.len() == 0,
        fault(name, max_len) == Some(NameFault::TooLong) <==> name.len() > 0 && name.len() > max_len,
        fault(name, max_len) == Some(NameFault::NullByte) ==> name.contains(0u8),
        fault(name, max_len) == Some(NameFault::Reserved) ==> begins_reserved(name)
            && !name.contains(0u8),
{
    reveal_strlit("_aether_");
    let p = reserved_prefix();
    if begins_reserved(name) {
        assert(name.subrange(0, 8) =~= p);
    }
    if p.is_prefix_of(name) {
        assert(name.subrange(0, 8) == p);
        assert(forall|i: int| 0 <= i < 8 ==> name[i] == name.subrange(0, 8)[i]);
    }
}

/// The eight characters that reserved names begin with.
pub open spec fn begins_reserved(name: Seq<u8>) -> bool {
    &&& name.len() >= 8
    &&& name[0] == '_' as u8
    &&& name[1] == 'a' as u8
    &&& name[2] == 'e' as u8
    &&& name[3] == 't' as u8
    &&& name[4] == 'h' as u8
    &&& name[5] == 'e' as u8
    &&& name[6] == 'r' as u8
    &&& name[7] == '_' as u8
}

/// No key of a lock, a barrier, an election or a queue is a key of another of
/// these, and all of them are reserved.
pub proof fn kinds_of_keys_stay_apart(key: Seq<u8>)
    ensures
        ({
            let lock = crate::lock::lock_prefix().is_prefix_of(key);
            let barrier = crate::barrier::barrier_prefix().is_prefix_of(key);
            let election = crate::election::election_prefix().is_prefix_of(key);
            let item = crate::queue::item_prefix().is_prefix_of(key);
            let meta = crate::queue::meta_prefix().is_prefix_of(key);
            &&& lock ==> !barrier && !election && !item && !meta
            &&& barrier ==> !election && !item && !meta
            &&& election ==> !item && !meta
            &&& item ==> !meta
            &&& lock || barrier || election || item || meta ==> begins_reserved(key)
        }),
{
    reveal_strlit("_aether_lock/");
    reveal_strlit("_aether_barrier/");
    reveal_strlit("_aether_election/");
    reveal_strlit("_aether_queue/");
    reveal_strlit("_aether_queue_meta/");
    prefix_bytes(crate::lock::lock_prefix(), key);
    prefix_bytes(crate::barrier::barrier_prefix(), key);
    prefix_bytes(crate::election::election_prefix(), key);
    prefix_bytes(crate::queue::item_prefix(), key);
    prefix_bytes(crate::queue::meta_prefix(), key);
    assert(crate::lock::lock_prefix()[8] == 'l' as u8);
    assert(crate::barrier::barrier_prefix()[8] == 'b' as u8);
    assert(crate::election::election_prefix()[8] == 'e' as u8);
    assert(crate::queue::item_prefix()[8] == 'q' as u8);
    assert(crate::queue::meta_prefix()[8] == 'q' as u8);
    assert(crate::queue::item_prefix()[13] == '/' as u8);
    assert(crate::queue::meta_prefix()[13] == '_' as u8);
}

proof fn prefix_bytes(prefix: Seq<u8>, key: Seq<u8>)
    ensures
        prefix.is_prefix_of(key) ==> prefix.len() <= key.len() && forall|i: int|
            0 <= i < prefix.len() ==> key[i] == #[trigger] prefix[i],
        prefix.is_prefix_of(key) && begins_reserved(prefix) ==> begins_reserved(key),
{
    if prefix.is_prefix_of(key) {
        assert forall|i: int| 0 <= i < prefix.len() implies key[i] == #[trigger] prefix[i] by {
            assert(key.subrange(0, prefix.len() as int)[i] == prefix[i]);
        }
    }
}

} // verus!
