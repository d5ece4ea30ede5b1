//! How a node is set up: its signing key, its peers, and what it remembers from
//! before it was stopped.

use std::collections::HashMap;

use vstd::prelude::*;
use vstd::string::*;

use crate::config::AetherConfig;
use crate::random::random_bytes;
use crate::text::{text, to_hex, trim};

verus! {

broadcast use vstd::std_specs::hash::group_hash_axioms;

/// How many random bytes a signing key is made of.
pub const SIGNING_KEY_SIZE: usize = 32;

/// Where the key that signs tokens comes from.
#[derive(Debug, Clone, PartialEq, Eq)]
pub enum KeySource {
    /// The configuration.
    Configured(String),
    /// The key file, which is read.
    File,
    /// A new key, which is written to the key file.
    Fresh,
}

/// Where the signing key comes from: the configured key if there is one, the key
/// file if it exists, and a new key otherwise.
pub fn signing_key_source(configured: &str, file_exists: bool) -> (r: KeySource)
    ensures
        if configured@.len() > 0 {
            r is Configured && r->Configured_0@ == configured@
        } else if file_exists {
            r is File
        } else {
            r is Fresh
        },
{
    if configured.unicode_len() > 0 {
        KeySource::Configured(text(configured))
    } else if file_exists {
        KeySource::File
    } else {
        KeySource::Fresh
    }
}

/// The text is that of a random signing key.
pub open spec fn is_fresh_key(key: Seq<char>) -> bool {
    exists|bytes: Seq<u8>| bytes.len() == SIGNING_KEY_SIZE && key == #[trigger] crate::text::hex(
        bytes,
    )
}

/// A new signing key: random bytes in hexadecimal digits.
pub fn fresh_signing_key() -> (r: String)
    ensures
        is_fresh_key(r@),
        r@.len() == 64,
{
    let bytes = random_bytes(SIGNING_KEY_SIZE);
    proof {
        hex_len(bytes@);
    }
    to_hex(&bytes)
}

proof fn hex_len(bytes: Seq<u8>)
    ensures
        crate::text::hex(bytes).len() == 2 * bytes.len(),
    decreases bytes.len(),
{
    if bytes.len() > 0 {
        hex_len(bytes.drop_last());
    }
}

/// The signing key in what was read from the key file; nothing was read if that
/// failed. White space around the key does not count.
pub fn stored_signing_key(content: Option<&str>) -> (r: String)
    ensures
        r@ == match content {
            Some(s) => crate::text::trimmed(s@),
            None => Seq::empty(),
        },
{
    match content {
        Some(s) => text(trim(s)),
        None => String::new(),
    }
}

/// The signing key, which must not be empty.
pub fn checked_signing_key(key: String) -> (r: Result<String, String>)
    ensures
        if key@.len() == 0 {
            r is Err && r->Err_0@
                == "JWT signing key is empty; configure auth.signing_key or ensure data directory is writable"@
        } else {
            r == Ok::<String, String>(key)
        },
{
    if key.as_str().unicode_len() == 0 {
        Err(
            text(
                "JWT signing key is empty; configure auth.signing_key or ensure data directory is writable",
            ),
        )
    } else {
        Ok(key)
    }
}

/// The members that a node starts with: itself, and its peers in order.
pub open spec fn members(config: AetherConfig) -> Seq<(u64, Seq<char>)> {
    seq![(config.node_id, config.addr@)] + config.cluster.peers@.map_values(
        |p: crate::config::PeerConfig| (p.node_id, p.addr@),
    )
}

/// What is known of a list of members.
pub open spec fn member_views(list: Seq<(u64, String)>) -> Seq<(u64, Seq<char>)> {
    list.map_values(|m: (u64, String)| (m.0, m.1@))
}

/// The members that a node starts with: itself, and its peers in order.
pub fn initial_peers(config: &AetherConfig) -> (r: Vec<(u64, String)>)
    ensures
        member_views(r@) == members(*config),
{
    let mut list: Vec<(u64, String)> = Vec::new();
    list.push((config.node_id, text(config.addr.as_str())));
    let peers = &config.cluster.peers;
    let mut i: usize = 0;
    assert(member_views(list@) =~= members(*config).take(1));
    while i < peers.len()
        invariant
            i <= peers@.len(),
            peers == &config.cluster.peers,
            member_views(list@) == members(*config).take(i + 1),
        decreases peers@.len() - i,
    {
        let ghost before = member_views(list@);
        list.push((peers[i].node_id, text(peers[i].addr.as_str())));
        proof {
            assert(member_views(list@) =~= before.push((peers@[i as int].node_id, peers@[i as int].addr@)));
            assert(member_views(list@) =~= members(*config).take(i + 2));
        }
        i = i + 1;
    }
    assert(members(*config).take(i + 1) =~= members(*config));
    list
}

/// The address of a member: the last one that is given for it.
pub open spec fn address_of(list: Seq<(u64, Seq<char>)>, id: u64) -> Option<Seq<char>>
    decreases list.len(),
{
    if list.len() == 0 {
        None
    } else if list.last().0 == id {
        Some(list.last().1)
    } else {
        address_of(list.drop_last(), id)
    }
}

/// The map holds the addresses of the members.
pub open spec fn maps_addresses(map: Map<u64, String>, list: Seq<(u64, Seq<char>)>) -> bool {
    forall|id: u64|
        match address_of(list, id) {
            Some(addr) => #[trigger] map.contains_key(id) && map[id]@ == addr,
            None => !map.contains_key(id),
        }
}

/// The addresses of the members that a node starts with.
pub fn node_addrs(config: &AetherConfig) -> (r: HashMap<u64, String>)
    ensures
        maps_addresses(r@, members(*config)),
{
    let list = initial_peers(config);
    let ghost all = members(*config);
    let mut map: HashMap<u64, String> = HashMap::new();
    let mut i: usize = 0;
    while i < list.len()
        invariant
            i <= list@.len(),
            all == member_views(list@),
            maps_addresses(map@, all.take(i as int)),
        decreases list@.len() - i,
    {
        map.insert(list[i].0, text(list[i].1.as_str()));
        proof {
            let next = all.take(i + 1);
            assert(next.drop_last() =~= all.take(i as int));
            assert(next.last() == (list@[i as int].0, list@[i as int].1@));
        }
        i = i + 1;
    }
    assert(all.take(i as int) =~= all);
    map
}

/// How the consensus layer of a node runs.
#[derive(Debug, Clone, Copy, PartialEq, Eq)]
pub struct RaftSettings {
    pub id: u64,
    /// How many ticks, of a tenth of a second each, pass before an election.
    pub election_tick: usize,
    /// How many ticks pass between heartbeats.
    pub heartbeat_tick: usize,
    pub max_size_per_msg: u64,
    pub max_inflight_msgs: usize,
}

/// How the consensus layer of a node runs.
pub fn raft_settings(node_id: u64) -> (r: RaftSettings)
    ensures
        r == (RaftSettings {
            id: node_id,
            election_tick: 10,
            heartbeat_tick: 1,
            max_size_per_msg: (1024 * 1024) as u64,
            max_inflight_msgs: 256,
        }),
{
    RaftSettings {
        id: node_id,
        election_tick: 10,
        heartbeat_tick: 1,
        max_size_per_msg: 1024 * 1024,
        max_inflight_msgs: 256,
    }
}

/// Whether access control is on when a node starts: it is configured, or it was on
/// before. The flag in storage is absent if it cannot be read.
pub fn auth_enabled_at_start(configured: bool, stored: Result<Option<Vec<u8>>, String>) -> (r:
    bool)
    ensures
        r == (configured || stored_flag(stored)),
{
    configured || is_stored(stored)
}

/// A flag is on if it is in storage, whatever it holds.
pub open spec fn stored_flag(stored: Result<Option<Vec<u8>>, String>) -> bool {
    stored is Ok && stored->Ok_0 is Some
}

/// Whether a flag is in storage; it is not if it cannot be read.
pub fn is_stored(stored: Result<Option<Vec<u8>>, String>) -> (r: bool)
    ensures
        r == stored_flag(stored),
{
    match stored {
        Ok(value) => value.is_some(),
        Err(_) => false,
    }
}

/// The members at the start are the node itself and then its peers, in order.
pub proof fn members_at_the_start(config: AetherConfig, i: int)
    ensures
        members(config).len() == config.cluster.peers@.len() + 1,
        members(config)[0] == (config.node_id, config.addr@),
        0 <= i < config.cluster.peers@.len() ==> members(config)[i + 1] == (
            config.cluster.peers@[i].node_id,
            config.cluster.peers@[i].addr@,
        ),
{
}

/// The address of a node is that of its last entry, and it has none if and only if
/// it has no entry.
pub proof fn last_addresses_count(list: Seq<(u64, Seq<char>)>, id: u64)
    ensures
        match address_of(list, id) {
            Some(addr) => exists|i: int|
                {
                    &&& 0 <= i < list.len()
                    &&& #[trigger] list[i] == (id, addr)
                    &&& forall|j: int| i < j < list.len() ==> (#[trigger] list[j]).0 != id
                },
            None => forall|i: int| 0 <= i < list.len() ==> (#[trigger] list[i]).0 != id,
        },
    decreases list.len(),
{
    if list.len() > 0 {
        let rest = list.drop_last();
        assert(list[list.len() - 1] == list.last());
        if list.last().0 != id {
            last_addresses_count(rest, id);
            match address_of(rest, id) {
                Some(addr) => {
                    let i = choose|i: int|
                        {
                            &&& 0 <= i < rest.len()
                            &&& #[trigger] rest[i] == (id, addr)
                            &&& forall|j: int| i < j < rest.len() ==> (#[trigger] rest[j]).0 != id
                        };
                    assert(list[i] == (id, addr));
                    assert forall|j: int| i < j < list.len() implies (#[trigger] list[j]).0
                        != id by {
                        if j < rest.len() {
                            assert(rest[j] == list[j]);
                        }
                    }
                },
                None => {
                    assert forall|i: int| 0 <= i < list.len() implies (#[trigger] list[i]).0
                        != id by {
                        if i < rest.len() {
                            assert(rest[i] == list[i]);
                        }
                    }
                },
            }
        }
    }
}

/// A node is mapped if and only if it has an address, and to that address.
pub proof fn addresses_are_mapped(
    map: Map<u64, String>,
    list: Seq<(u64, Seq<char>)>,
    id: u64,
)
    requires
        maps_addresses(map, list),
    ensures
        map.contains_key(id) <==> exists|i: int|
            0 <= i < list.len() && (#[trigger] list[i]).0 == id,
        map.contains_key(id) ==> list.contains((id, map[id]@)),
{
    last_addresses_count(list, id);
    let known = map.contains_key(id);
    if address_of(list, id) is Some {
        assert(known && map[id]@ == address_of(list, id)->Some_0);
    } else {
        assert(!known);
    }
}

/// What is stored counts, whatever it is; what is not stored or cannot be read does
/// not.
pub proof fn stored_things_count(stored: Result<Option<Vec<u8>>, String>, value: Vec<u8>, error: String)
    ensures
        stored_flag(Ok(Some(value))),
        !stored_flag(Ok(None)),
        !stored_flag(Err(error)),
{
}

/// A fresh key is made of 64 characters, each a digit or one of the first six
/// letters.
pub proof fn fresh_keys_are_hexadecimal(key: Seq<char>)
    requires
        is_fresh_key(key),
    ensures
        key.len() == 64,
        forall|i: int|
            0 <= i < key.len() ==> ('0' <= #[trigger] key[i] && key[i] <= '9') || ('a' <= key[i]
                && key[i] <= 'f'),
{
    let bytes = choose|bytes: Seq<u8>|
        bytes.len() == SIGNING_KEY_SIZE && key == #[trigger] crate::text::hex(bytes);
    crate::text::hex_tells_the_bytes(bytes, 0);
    assert forall|i: int| 0 <= i < key.len() implies ('0' <= #[trigger] key[i] && key[i] <= '9')
        || ('a' <= key[i] && key[i] <= 'f') by {
        crate::text::hex_tells_the_bytes(bytes, i / 2);
        assert(i == 2 * (i / 2) || i == 2 * (i / 2) + 1);
    }
}

} // verus!
