//! Named holdings: which key holds a name, and on which lease.

use vstd::prelude::*;
use vstd::slice::slice_subrange;

use crate::bytes::{concat, copy_bytes, decode_i64, encode_i64, starts_with};
use crate::sorted::{SortedMap, SortedSet};

verus! {

/// The size of a lease identifier in a stored value.
pub const LEASE_ID_SIZE: usize = 8;

/// A key and its value as they stand in storage.
pub struct Entry {
    pub key: Vec<u8>,
    pub value: Vec<u8>,
}

impl View for Entry {
    type V = (Seq<u8>, Seq<u8>);

    open spec fn view(&self) -> (Seq<u8>, Seq<u8>) {
        (self.key@, self.value@)
    }
}

/// What a list of byte strings holds.
pub open spec fn views(list: Seq<Vec<u8>>) -> Seq<Seq<u8>> {
    list.map_values(|v: Vec<u8>| v@)
}

pub proof fn views_push(list: Seq<Vec<u8>>, v: Vec<u8>)
    ensures
        views(list.push(v)) == views(list).push(v@),
{
    assert(views(list.push(v)) =~= views(list).push(v@));
}

/// What a list of entries holds.
pub open spec fn entry_views(list: Seq<Entry>) -> Seq<(Seq<u8>, Seq<u8>)> {
    list.map_values(|e: Entry| e@)
}

/// Each byte string of the list stands before the next ones.
pub open spec fn in_order(list: Seq<Seq<u8>>) -> bool {
    forall|i: int, j: int|
        0 <= i < j < list.len() ==> crate::bytes::lex_lt(#[trigger] list[i], #[trigger] list[j])
}

/// The lease and the rest of a stored value: eight bytes, then the rest.
pub open spec fn stored(value: Seq<u8>) -> Option<(i64, Seq<u8>)> {
    if value.len() < LEASE_ID_SIZE {
        None
    } else {
        Some((crate::bytes::read_i64(value), value.skip(LEASE_ID_SIZE as int)))
    }
}

/// A value is stored as its lease, in eight bytes, and the rest.
pub open spec fn stored_value(lease_id: i64, rest: Seq<u8>) -> Seq<u8> {
    crate::bytes::be_i64(lease_id) + rest
}

/// Reading a stored value gives back its lease and its rest.
pub proof fn stored_round_trip(lease_id: i64, rest: Seq<u8>)
    ensures
        stored(stored_value(lease_id, rest)) == Some((lease_id, rest)),
{
    crate::bytes::i64_round_trip(lease_id, rest);
    assert(stored_value(lease_id, rest).skip(LEASE_ID_SIZE as int) =~= rest);
}

/// The lease, in eight bytes, followed by the rest.
pub fn join_value(lease_id: i64, rest: &[u8]) -> (r: Vec<u8>)
    ensures
        r@ == stored_value(lease_id, rest@),
{
    concat(encode_i64(lease_id).as_slice(), rest)
}

/// The lease and the rest of a stored value.
pub fn split_value(value: &[u8]) -> (r: Option<(i64, &[u8])>)
    ensures
        match r {
            Some((lease_id, rest)) => stored(value@) == Some((lease_id, rest@)),
            None => stored(value@) is None,
        },
{
    if value.len() < LEASE_ID_SIZE {
        return None;
    }
    let lease_id: i64 = decode_i64(value);
    let rest = slice_subrange(value, LEASE_ID_SIZE, value.len());
    assert(rest@ =~= value@.skip(LEASE_ID_SIZE as int));
    Some((lease_id, rest))
}

/// The bytes of a prefix that may be given.
pub open spec fn prefix_view(prefix: Option<&[u8]>) -> Option<Seq<u8>> {
    match prefix {
        Some(p) => Some(p@),
        None => None,
    }
}

/// What follows the prefix in a key, if the key begins with it.
pub fn name_after<'a>(key: &'a [u8], prefix: &[u8]) -> (r: Option<&'a [u8]>)
    ensures
        match r {
            Some(name) => key@ == prefix@ + name@ && name@ == key@.skip(prefix@.len() as int)
                && prefix@.is_prefix_of(key@),
            None => !prefix@.is_prefix_of(key@),
        },
{
    if starts_with(key, prefix) {
        let name = slice_subrange(key, prefix.len(), key.len());
        proof {
            assert(name@ =~= key@.skip(prefix@.len() as int));
            assert(key@ =~= prefix@ + name@);
        }
        Some(name)
    } else {
        None
    }
}

/// What a registry holds: the key of each held name, the name of each key, the
/// lease of each leased key, and the keys of each lease.
#[verifier::ext_equal]
pub struct Holdings {
    pub by_name: Map<Seq<u8>, Seq<u8>>,
    pub by_key: Map<Seq<u8>, Seq<u8>>,
    pub leases: Map<Seq<u8>, i64>,
    pub lease_keys: Map<i64, Set<Seq<u8>>>,
}

impl Holdings {
    /// Nothing is held.
    pub open spec fn empty() -> Holdings {
        Holdings {
            by_name: Map::empty(),
            by_key: Map::empty(),
            leases: Map::empty(),
            lease_keys: Map::empty(),
        }
    }

    /// The keys recorded under a lease.
    pub open spec fn keys_of(self, lease_id: i64) -> Set<Seq<u8>> {
        if self.lease_keys.contains_key(lease_id) {
            self.lease_keys[lease_id]
        } else {
            Set::empty()
        }
    }

    /// The lease of a key, or 0.
    pub open spec fn lease_or_zero(self, key: Seq<u8>) -> i64 {
        if self.leases.contains_key(key) {
            self.leases[key]
        } else {
            0
        }
    }

    /// The names that the keys in `keys` hold.
    pub open spec fn names_of(self, keys: Set<Seq<u8>>) -> Set<Seq<u8>> {
        Set::new(
            |n: Seq<u8>|
                exists|k: Seq<u8>| #[trigger]
                    keys.contains(k) && self.by_key.contains_key(k) && self.by_key[k] == n,
        )
    }

    /// The key comes under the lease.
    pub open spec fn attached(self, key: Seq<u8>, lease_id: i64) -> Holdings {
        Holdings {
            leases: self.leases.insert(key, lease_id),
            lease_keys: self.lease_keys.insert(lease_id, self.keys_of(lease_id).insert(key)),
            ..self
        }
    }

    /// The key leaves its lease; a lease without keys is forgotten.
    pub open spec fn detached(self, key: Seq<u8>) -> Holdings {
        if self.leases.contains_key(key) {
            let lease_id = self.leases[key];
            let rest = self.keys_of(lease_id).remove(key);
            Holdings {
                leases: self.leases.remove(key),
                lease_keys: if rest == Set::<Seq<u8>>::empty() {
                    self.lease_keys.remove(lease_id)
                } else {
                    self.lease_keys.insert(lease_id, rest)
                },
                ..self
            }
        } else {
            self
        }
    }

    /// The key holds the name.
    pub open spec fn held(self, name: Seq<u8>, key: Seq<u8>) -> Holdings {
        Holdings {
            by_name: self.by_name.insert(name, key),
            by_key: self.by_key.insert(key, name),
            ..self
        }
    }

    /// The key holds the name, on the lease if there is one.
    pub open spec fn acquired(self, name: Seq<u8>, key: Seq<u8>, lease_id: i64) -> Holdings {
        if lease_id > 0 {
            self.attached(key, lease_id).held(name, key)
        } else {
            self.detached(key).held(name, key)
        }
    }

    /// The key holds the name, on the lease if there is one; without one, the
    /// lease that the key had stays.
    pub open spec fn recorded(self, name: Seq<u8>, key: Seq<u8>, lease_id: i64) -> Holdings {
        if lease_id > 0 {
            self.attached(key, lease_id).held(name, key)
        } else {
            self.held(name, key)
        }
    }

    /// The key holds nothing any more.
    pub open spec fn released(self, key: Seq<u8>) -> Holdings {
        if self.by_key.contains_key(key) {
            let rest = self.detached(key);
            Holdings {
                by_name: rest.by_name.remove(self.by_key[key]),
                by_key: rest.by_key.remove(key),
                ..rest
            }
        } else {
            self
        }
    }

    /// The key holds the name, on the lease if there is one, and that is all that
    /// is left of either: the key that held the name holds nothing any more, and
    /// the key has left what it held before.
    pub open spec fn taken(self, name: Seq<u8>, key: Seq<u8>, lease_id: i64) -> Holdings {
        let freed = if self.by_name.contains_key(name) {
            self.released(self.by_name[name])
        } else {
            self
        };
        freed.released(key).acquired(name, key, lease_id)
    }

    /// The keys recorded under the lease hold nothing any more.
    pub open spec fn lease_released(self, lease_id: i64) -> Holdings {
        let keys = self.keys_of(lease_id);
        Holdings {
            by_name: self.by_name.remove_keys(self.names_of(keys)),
            by_key: self.by_key.remove_keys(keys),
            leases: self.leases.remove_keys(keys),
            lease_keys: self.lease_keys.remove(lease_id),
        }
    }

    /// A leased key is recorded under its lease and holds a name; leases are
    /// positive and have keys.
    pub open spec fn wf(self) -> bool {
        &&& forall|k: Seq<u8>| #[trigger]
            self.leases.contains_key(k) ==> {
                &&& self.by_key.contains_key(k)
                &&& self.leases[k] > 0
                &&& self.lease_keys.contains_key(self.leases[k])
                &&& self.lease_keys[self.leases[k]].contains(k)
            }
        &&& forall|l: i64| #[trigger]
            self.lease_keys.contains_key(l) ==> l > 0 && self.lease_keys[l] != Set::<Seq<u8>>::empty()
    }

    /// Names and keys are each other's inverse, and so are the two lease indexes.
    pub open spec fn consistent(self) -> bool {
        &&& self.wf()
        &&& forall|n: Seq<u8>| #[trigger]
            self.by_name.contains_key(n) ==> self.by_key.contains_key(self.by_name[n])
                && self.by_key[self.by_name[n]] == n
        &&& forall|k: Seq<u8>| #[trigger]
            self.by_key.contains_key(k) ==> self.by_name.contains_key(self.by_key[k])
                && self.by_name[self.by_key[k]] == k
        &&& forall|l: i64, k: Seq<u8>| #[trigger]
            self.keys_of(l).contains(k) ==> self.leases.contains_key(k) && self.leases[k] == l
    }

    proof fn one_more_name(self, keys: Set<Seq<u8>>, key: Seq<u8>)
        ensures
            self.by_key.contains_key(key) ==> self.by_name.remove_keys(self.names_of(keys)).remove(
                self.by_key[key],
            ) == self.by_name.remove_keys(self.names_of(keys.insert(key))),
            !self.by_key.contains_key(key) ==> self.by_name.remove_keys(self.names_of(keys))
                == self.by_name.remove_keys(self.names_of(keys.insert(key))),
    {
        let more = keys.insert(key);
        let (names, all) = (self.names_of(keys), self.names_of(more));
        if self.by_key.contains_key(key) {
            assert(all =~= names.insert(self.by_key[key])) by {
                assert forall|n: Seq<u8>| names.contains(n) implies all.contains(n) by {
                    let k = choose|k: Seq<u8>| #[trigger]
                        keys.contains(k) && self.by_key.contains_key(k) && self.by_key[k] == n;
                    assert(more.contains(k));
                }
                assert(more.contains(key));
            }
            assert(self.by_name.remove_keys(names).remove(self.by_key[key])
                =~= self.by_name.remove_keys(all));
        } else {
            assert(all =~= names) by {
                assert forall|n: Seq<u8>| names.contains(n) implies all.contains(n) by {
                    let k = choose|k: Seq<u8>| #[trigger]
                        keys.contains(k) && self.by_key.contains_key(k) && self.by_key[k] == n;
                    assert(more.contains(k));
                }
            }
        }
    }

    /// `wf` holds after every operation.
    pub proof fn operations_keep_wf(self, name: Seq<u8>, key: Seq<u8>, lease_id: i64)
        requires
            self.wf(),
        ensures
            Holdings::empty().wf(),
            self.acquired(name, key, lease_id).wf(),
            self.recorded(name, key, lease_id).wf(),
            self.released(key).wf(),
            self.lease_released(lease_id).wf(),
    {
        let a = self.attached(key, lease_id);
        assert(a.lease_keys[lease_id].contains(key));
        let d = self.detached(key);
        if self.leases.contains_key(key) {
            let l = self.leases[key];
            let rest = self.keys_of(l).remove(key);
            assert forall|k: Seq<u8>| #[trigger] d.leases.contains_key(k) implies d.lease_keys.contains_key(d.leases[k])
                && d.lease_keys[d.leases[k]].contains(k) by {
                assert(self.leases.contains_key(k));
                if self.leases[k] == l {
                    assert(rest.contains(k));
                }
            }
        }
    }
}

impl Holdings {
    /// Letting a key hold a name keeps the indexes consistent, if the name is held
    /// by no other key, the key holds no other name, and the key is not moved from
    /// one lease to another.
    pub proof fn acquired_consistent(self, name: Seq<u8>, key: Seq<u8>, lease_id: i64)
        requires
            self.consistent(),
            self.by_name.contains_key(name) ==> self.by_name[name] == key,
            self.by_key.contains_key(key) ==> self.by_key[key] == name,
            lease_id > 0 && self.leases.contains_key(key) ==> self.leases[key] == lease_id,
        ensures
            self.acquired(name, key, lease_id).consistent(),
    {
        self.operations_keep_wf(name, key, lease_id);
        let next = self.acquired(name, key, lease_id);
        assert forall|l: i64, k: Seq<u8>| #[trigger]
            next.keys_of(l).contains(k) implies next.leases.contains_key(k) && next.leases[k] == l by {
            if k != key {
                assert(self.keys_of(l).contains(k));
            } else if lease_id > 0 {
                if l != lease_id {
                    assert(self.keys_of(l).contains(k));
                }
            } else {
                assert(self.keys_of(l).contains(k));
            }
        }
    }

    /// Taking a name keeps the indexes consistent, whoever held the name before and
    /// whatever the key held. The name is held by the key, on the lease if there is
    /// one and on none otherwise; a lease that the key had before does not list it
    /// any more, and the other keys keep their names and their leases.
    pub proof fn taken_consistent(self, name: Seq<u8>, key: Seq<u8>, lease_id: i64)
        requires
            self.consistent(),
        ensures
            ({
                let next = self.taken(name, key, lease_id);
                &&& next.consistent()
                &&& next.by_name.contains_key(name)
                &&& next.by_name[name] == key
                &&& lease_id > 0 ==> next.leases.contains_key(key) && next.leases[key] == lease_id
                &&& lease_id <= 0 ==> !next.leases.contains_key(key)
                &&& forall|l: i64| #[trigger] next.keys_of(l).contains(key) <==> lease_id > 0 && l
                    == lease_id
                &&& forall|k: Seq<u8>|
                    k != key ==> {
                        &&& #[trigger] next.by_key.contains_key(k) <==> self.by_key.contains_key(k)
                            && self.by_key[k] != name
                        &&& next.by_key.contains_key(k) ==> next.by_key[k] == self.by_key[k]
                            && next.leases.contains_key(k) == self.leases.contains_key(k)
                        &&& next.leases.contains_key(k) ==> next.leases[k] == self.leases[k]
                    }
            }),
    {
        let freed = if self.by_name.contains_key(name) {
            self.released_consistent(self.by_name[name]);
            self.released(self.by_name[name])
        } else {
            self
        };
        freed.released_consistent(key);
        let clear = freed.released(key);
        assert(!clear.by_name.contains_key(name));
        assert(!clear.by_key.contains_key(key));
        clear.acquired_consistent(name, key, lease_id);
        let next = self.taken(name, key, lease_id);
        if lease_id > 0 {
            assert(next.keys_of(lease_id).contains(key));
        }
    }

    /// Ending what a key holds keeps the indexes consistent.
    pub proof fn released_consistent(self, key: Seq<u8>)
        requires
            self.consistent(),
        ensures
            self.released(key).consistent(),
    {
        self.operations_keep_wf(Seq::empty(), key, 0);
        let next = self.released(key);
        assert forall|l: i64, k: Seq<u8>| #[trigger]
            next.keys_of(l).contains(k) implies next.leases.contains_key(k) && next.leases[k] == l by {
            assert(self.keys_of(l).contains(k));
        }
    }

    /// Ending what the keys of a lease hold keeps the indexes consistent.
    pub proof fn lease_released_consistent(self, lease_id: i64)
        requires
            self.consistent(),
        ensures
            self.lease_released(lease_id).consistent(),
    {
        self.operations_keep_wf(Seq::empty(), Seq::empty(), lease_id);
        let next = self.lease_released(lease_id);
        let keys = self.keys_of(lease_id);
        assert forall|n: Seq<u8>| #[trigger] next.by_name.contains_key(n) implies next.by_key.contains_key(
            next.by_name[n],
        ) && next.by_key[next.by_name[n]] == n by {
            assert(self.by_name.contains_key(n));
            assert(!self.names_of(keys).contains(n));
            if keys.contains(self.by_name[n]) {
                assert(self.names_of(keys).contains(n));
            }
        }
        assert forall|k: Seq<u8>| #[trigger] next.by_key.contains_key(k) implies next.by_name.contains_key(
            next.by_key[k],
        ) && next.by_name[next.by_key[k]] == k by {
            assert(self.by_key.contains_key(k));
            let n = self.by_key[k];
            if self.names_of(keys).contains(n) {
                let other = choose|o: Seq<u8>| #[trigger]
                    keys.contains(o) && self.by_key.contains_key(o) && self.by_key[o] == n;
                assert(self.by_name[n] == other);
            }
        }
        assert forall|l: i64, k: Seq<u8>| #[trigger]
            next.keys_of(l).contains(k) implies next.leases.contains_key(k) && next.leases[k] == l by {
            assert(self.keys_of(l).contains(k));
            if keys.contains(k) {
                assert(self.leases[k] == lease_id);
            }
        }
    }

    /// Ending a lease ends what its keys hold and nothing else.
    pub proof fn lease_released_exactly(self, lease_id: i64, name: Seq<u8>)
        requires
            self.consistent(),
        ensures
            self.lease_released(lease_id).by_name.contains_key(name) <==> {
                &&& self.by_name.contains_key(name)
                &&& !(self.leases.contains_key(self.by_name[name])
                    && self.leases[self.by_name[name]] == lease_id)
            },
            self.lease_released(lease_id).by_name.contains_key(name) ==> self.lease_released(
                lease_id,
            ).by_name[name] == self.by_name[name],
            self.lease_released(lease_id).keys_of(lease_id) == Set::<Seq<u8>>::empty(),
    {
        let keys = self.keys_of(lease_id);
        if self.by_name.contains_key(name) {
            let key = self.by_name[name];
            if self.leases.contains_key(key) && self.leases[key] == lease_id {
                assert(keys.contains(key));
                assert(self.names_of(keys).contains(name));
            } else if self.names_of(keys).contains(name) {
                let other = choose|o: Seq<u8>| #[trigger]
                    keys.contains(o) && self.by_key.contains_key(o) && self.by_key[o] == name;
                assert(other == key);
                assert(self.keys_of(lease_id).contains(key));
            }
        }
    }

    /// Ending a holding that was just begun gives back what there was before.
    pub proof fn release_undoes_acquire(self, name: Seq<u8>, key: Seq<u8>, lease_id: i64)
        requires
            self.consistent(),
            !self.by_name.contains_key(name),
            !self.by_key.contains_key(key),
        ensures
            self.acquired(name, key, lease_id).released(key) == self,
            self.taken(name, key, lease_id).released(key) == self,
    {
        let next = self.acquired(name, key, lease_id);
        let back = next.released(key);
        assert(!self.leases.contains_key(key));
        assert(!self.keys_of(lease_id).contains(key));
        assert(back.by_name =~= self.by_name);
        assert(back.by_key =~= self.by_key);
        assert(back.leases =~= self.leases);
        if lease_id > 0 {
            let rest = next.keys_of(lease_id).remove(key);
            assert(rest =~= self.keys_of(lease_id));
            assert(back.lease_keys =~= self.lease_keys);
        }
    }

    /// What of the holdings rests on the keys in `keys`.
    pub open spec fn restricted(self, keys: Set<Seq<u8>>) -> Holdings {
        Holdings {
            by_name: Map::new(
                |n: Seq<u8>| self.by_name.contains_key(n) && keys.contains(self.by_name[n]),
                |n: Seq<u8>| self.by_name[n],
            ),
            by_key: Map::new(
                |k: Seq<u8>| self.by_key.contains_key(k) && keys.contains(k),
                |k: Seq<u8>| self.by_key[k],
            ),
            leases: Map::new(
                |k: Seq<u8>| self.leases.contains_key(k) && keys.contains(k),
                |k: Seq<u8>| self.leases[k],
            ),
            lease_keys: Map::new(
                |l: i64|
                    exists|k: Seq<u8>| #[trigger] self.keys_of(l).contains(k) && keys.contains(k),
                |l: i64| self.keys_of(l).intersect(keys),
            ),
        }
    }

    /// Consistent holdings rest on their keys alone.
    pub proof fn restricted_to_all(self, keys: Set<Seq<u8>>)
        requires
            self.consistent(),
            self.by_key.dom().subset_of(keys),
        ensures
            self.restricted(keys) == self,
    {
        let r = self.restricted(keys);
        assert(r.by_name =~= self.by_name);
        assert(r.by_key =~= self.by_key);
        assert(r.leases =~= self.leases);
        assert forall|l: i64| self.lease_keys.contains_key(l) implies r.lease_keys.contains_key(l) by {
            assert(!(self.lease_keys[l] =~= Set::<Seq<u8>>::empty()));
            let k = choose|k: Seq<u8>| self.lease_keys[l].contains(k);
            assert(self.keys_of(l).contains(k));
        }
        assert forall|l: i64| r.lease_keys.contains_key(l) implies r.lease_keys[l]
            == self.lease_keys[l] by {
            assert(self.keys_of(l).intersect(keys) =~= self.keys_of(l)) by {
                assert forall|k: Seq<u8>| self.keys_of(l).contains(k) implies keys.contains(k) by {
                    assert(self.leases.contains_key(k));
                }
            }
        }
        assert(r.lease_keys =~= self.lease_keys);
    }

    /// Recording one more key with its name and its lease.
    pub proof fn restricted_step(self, keys: Set<Seq<u8>>, key: Seq<u8>)
        requires
            self.consistent(),
            self.by_key.contains_key(key),
            !keys.contains(key),
        ensures
            self.restricted(keys).recorded(
                self.by_key[key],
                key,
                self.lease_or_zero(key),
            ) == self.restricted(keys.insert(key)),
    {
        let l = self.lease_or_zero(key);
        let a = self.restricted(keys).recorded(self.by_key[key], key, l);
        let more = keys.insert(key);
        let b = self.restricted(more);
        assert(a.by_name =~= b.by_name);
        assert(a.by_key =~= b.by_key);
        assert(a.leases =~= b.leases);
        assert forall|x: i64| a.lease_keys.contains_key(x) == b.lease_keys.contains_key(x) by {
            if b.lease_keys.contains_key(x) {
                let k = choose|k: Seq<u8>| #[trigger] self.keys_of(x).contains(k) && more.contains(k);
                if k != key {
                    assert(keys.contains(k));
                }
            }
            if self.restricted(keys).lease_keys.contains_key(x) {
                let k = choose|k: Seq<u8>| #[trigger] self.keys_of(x).contains(k) && keys.contains(k);
                assert(more.contains(k));
            }
            if x == l && l > 0 {
                assert(self.keys_of(l).contains(key));
                assert(more.contains(key));
            }
        }
        assert forall|x: i64| b.lease_keys.contains_key(x) implies a.lease_keys[x]
            == b.lease_keys[x] by {
            if self.keys_of(x).contains(key) {
                assert(self.leases[key] == x);
            }
            assert(a.lease_keys[x] =~= b.lease_keys[x]) by {
                assert forall|k: Seq<u8>| a.lease_keys[x].contains(k)
                    == b.lease_keys[x].contains(k) by {
                    if self.keys_of(x).contains(k) && keys.contains(k) {
                        assert(self.restricted(keys).lease_keys.contains_key(x));
                    }
                }
            }
        }
        assert(a.lease_keys =~= b.lease_keys);
    }
}

/// The lease and the name that a stored entry says. The name is what follows the
/// prefix in the key if there is a prefix, and what follows the lease in the value
/// otherwise. An entry whose value is too short, or whose key has another prefix,
/// says nothing.
pub open spec fn entry_says(prefix: Option<Seq<u8>>, entry: (Seq<u8>, Seq<u8>)) -> Option<
    (i64, Seq<u8>),
> {
    match (stored(entry.1), prefix) {
        (Some((lease_id, rest)), None) => Some((lease_id, rest)),
        (Some((lease_id, _)), Some(p)) => if p.is_prefix_of(entry.0) {
            Some((lease_id, entry.0.skip(p.len() as int)))
        } else {
            None
        },
        (None, _) => None,
    }
}

/// What is held after reading stored entries in order; those that say nothing are
/// passed over.
pub open spec fn restored(
    prefix: Option<Seq<u8>>,
    entries: Seq<(Seq<u8>, Seq<u8>)>,
) -> Holdings
    decreases entries.len(),
{
    if entries.len() == 0 {
        Holdings::empty()
    } else {
        let before = restored(prefix, entries.drop_last());
        match entry_says(prefix, entries.last()) {
            Some((lease_id, name)) => before.recorded(name, entries.last().0, lease_id),
            None => before,
        }
    }
}

/// The entries stand for the holdings: there is one for each key that holds a
/// name, and it says that name and the lease of the key.
pub open spec fn stand_for(
    prefix: Option<Seq<u8>>,
    entries: Seq<(Seq<u8>, Seq<u8>)>,
    h: Holdings,
) -> bool {
    &&& forall|i: int, j: int|
        0 <= i < j < entries.len() ==> (#[trigger] entries[i]).0 != (#[trigger] entries[j]).0
    &&& forall|i: int|
        0 <= i < entries.len() ==> {
            let key = (#[trigger] entries[i]).0;
            &&& h.by_key.contains_key(key)
            &&& entry_says(prefix, entries[i]) == Some((h.lease_or_zero(key), h.by_key[key]))
        }
    &&& forall|k: Seq<u8>| #[trigger]
        h.by_key.contains_key(k) ==> exists|i: int|
            0 <= i < entries.len() && (#[trigger] entries[i]).0 == k
}

/// Reading entries that stand for the holdings, in whatever order, gives the same
/// holdings.
pub proof fn restore_rebuilds(
    prefix: Option<Seq<u8>>,
    entries: Seq<(Seq<u8>, Seq<u8>)>,
    h: Holdings,
)
    requires
        h.consistent(),
        stand_for(prefix, entries, h),
    ensures
        restored(prefix, entries) == h,
{
    let n = entries.len() as int;
    restore_prefix(prefix, entries, h, n);
    let keys = keys_before(entries, n);
    assert(entries.take(n) =~= entries);
    assert(h.by_key.dom().subset_of(keys));
    h.restricted_to_all(keys);
}

spec fn keys_before(entries: Seq<(Seq<u8>, Seq<u8>)>, n: int) -> Set<Seq<u8>> {
    Set::new(|k: Seq<u8>| exists|i: int| 0 <= i < n && (#[trigger] entries[i]).0 == k)
}

proof fn restore_prefix(
    prefix: Option<Seq<u8>>,
    entries: Seq<(Seq<u8>, Seq<u8>)>,
    h: Holdings,
    n: int,
)
    requires
        0 <= n <= entries.len(),
        h.consistent(),
        stand_for(prefix, entries, h),
    ensures
        restored(prefix, entries.take(n)) == h.restricted(keys_before(entries, n)),
    decreases n,
{
    if n == 0 {
        assert(h.restricted(keys_before(entries, 0)) =~= Holdings::empty());
    } else {
        restore_prefix(prefix, entries, h, n - 1);
        let key = entries[n - 1].0;
        let keys = keys_before(entries, n - 1);
        assert(entries.take(n).drop_last() =~= entries.take(n - 1));
        assert(keys_before(entries, n) =~= keys.insert(key));
        assert(!keys.contains(key));
        h.restricted_step(keys, key);
    }
}

/// An entry whose value holds a lease and a name says both.
pub proof fn named_by_value(key: Seq<u8>, lease_id: i64, name: Seq<u8>)
    ensures
        entry_says(None, (key, stored_value(lease_id, name))) == Some((lease_id, name)),
{
    stored_round_trip(lease_id, name);
}

/// An entry under a key of the prefix says the rest of the key as its name,
/// whatever follows the lease in its value.
pub proof fn named_by_key(prefix: Seq<u8>, name: Seq<u8>, lease_id: i64, rest: Seq<u8>)
    ensures
        entry_says(Some(prefix), (prefix + name, stored_value(lease_id, rest))) == Some(
            (lease_id, name),
        ),
{
    stored_round_trip(lease_id, rest);
    let key = prefix + name;
    assert(key.subrange(0, prefix.len() as int) =~= prefix);
    assert(key.skip(prefix.len() as int) =~= name);
}

/// Restoring the stored form of every held name, in whatever order, gives the same
/// holdings: the value of each entry is the lease of its key and the name that the
/// key holds.
pub proof fn stored_names_rebuild(
    h: Holdings,
    keys: Seq<Seq<u8>>,
    entries: Seq<(Seq<u8>, Seq<u8>)>,
)
    requires
        h.consistent(),
        keys.no_duplicates(),
        keys.to_set() == h.by_key.dom(),
        keys.len() == entries.len(),
        forall|i: int|
            0 <= i < keys.len() ==> #[trigger] entries[i] == (
                keys[i],
                stored_value(h.lease_or_zero(keys[i]), h.by_key[keys[i]]),
            ),
    ensures
        restored(None, entries) == h,
{
    assert forall|i: int| 0 <= i < entries.len() implies {
        let key = (#[trigger] entries[i]).0;
        &&& h.by_key.contains_key(key)
        &&& entry_says(None, entries[i]) == Some((h.lease_or_zero(key), h.by_key[key]))
    } by {
        let key = keys[i];
        assert(keys.to_set().contains(key));
        named_by_value(key, h.lease_or_zero(key), h.by_key[key]);
    }
    assert forall|k: Seq<u8>| #[trigger] h.by_key.contains_key(k) implies exists|i: int|
        0 <= i < entries.len() && (#[trigger] entries[i]).0 == k by {
        assert(keys.to_set().contains(k));
        let i = keys.index_of(k);
        assert(entries[i].0 == k);
    }
    restore_rebuilds(None, entries, h);
}

/// A registry of named holdings with its indexes.
pub struct Registry {
    by_name: SortedMap<Vec<u8>, Vec<u8>>,
    by_key: SortedMap<Vec<u8>, Vec<u8>>,
    leases: SortedMap<Vec<u8>, i64>,
    lease_keys: SortedMap<i64, SortedSet<Vec<u8>>>,
}

impl View for Registry {
    type V = Holdings;

    closed spec fn view(&self) -> Holdings {
        Holdings {
            by_name: self.by_name@,
            by_key: self.by_key@,
            leases: self.leases@,
            lease_keys: self.lease_keys@,
        }
    }
}

impl Registry {
    /// The indexes are in order.
    pub closed spec fn sound(&self) -> bool {
        &&& self.by_name.wf()
        &&& self.by_key.wf()
        &&& self.leases.wf()
        &&& self.lease_keys.wf()
        &&& forall|s: SortedSet<Vec<u8>>| #[trigger]
            self.lease_keys.values().contains(s) ==> s.wf()
    }

    /// The indexes are in order and fit together.
    pub open spec fn wf(&self) -> bool {
        self.sound() && self@.wf()
    }

    /// A registry in which nothing is held.
    pub fn new() -> (r: Registry)
        ensures
            r.wf(),
            r@ == Holdings::empty(),
    {
        let r = Registry {
            by_name: SortedMap::new(),
            by_key: SortedMap::new(),
            leases: SortedMap::new(),
            lease_keys: SortedMap::new(),
        };
        proof {
            r.lease_keys.entries_in_view();
            assert(r.lease_keys.keys().len() == 0);
        }
        r
    }

    /// A registry of what stored entries say. The names are read off the keys if a
    /// prefix is given, and off the values otherwise.
    pub fn restore(prefix: Option<&[u8]>, entries: &Vec<Entry>) -> (r: Registry)
        ensures
            r.wf(),
            r@ == restored(prefix_view(prefix), entry_views(entries@)),
    {
        let ghost all = entry_views(entries@);
        let ghost p = prefix_view(prefix);
        let mut r = Registry::new();
        let mut i: usize = 0;
        assert(all.take(0) =~= Seq::empty());
        while i < entries.len()
            invariant
                i <= entries.len(),
                all == entry_views(entries@),
                p == prefix_view(prefix),
                r.wf(),
                r@ == restored(p, all.take(i as int)),
            decreases entries.len() - i,
        {
            let entry = &entries[i];
            proof {
                assert(all.take(i + 1).drop_last() =~= all.take(i as int));
                assert(all.take(i + 1).last() == entry@);
            }
            if let Some((lease_id, rest)) = split_value(entry.value.as_slice()) {
                let name = match prefix {
                    None => Some(rest),
                    Some(prefix) => name_after(entry.key.as_slice(), prefix),
                };
                if let Some(name) = name {
                    r.record(copy_bytes(name), copy_bytes(entry.key.as_slice()), lease_id);
                }
            }
            i = i + 1;
        }
        assert(all.take(i as int) =~= all);
        r
    }

    fn attach(&mut self, key: &Vec<u8>, lease_id: i64)
        requires
            old(self).sound(),
        ensures
            final(self).sound(),
            final(self)@ == old(self)@.attached(key@, lease_id),
    {
        self.leases.insert(copy_bytes(key.as_slice()), lease_id);
        let mut keys = match self.lease_keys.remove(&lease_id) {
            Some(keys) => keys,
            None => SortedSet::new(),
        };
        keys.insert(copy_bytes(key.as_slice()));
        self.lease_keys.insert(lease_id, keys);
        assert(self@ =~= old(self)@.attached(key@, lease_id));
    }

    fn detach(&mut self, key: &[u8])
        requires
            old(self).sound(),
            old(self)@.leases.contains_key(key@) ==> old(self)@.lease_keys.contains_key(
                old(self)@.leases[key@],
            ),
        ensures
            final(self).sound(),
            final(self)@ == old(self)@.detached(key@),
    {
        if let Some(lease_id) = self.leases.remove(key) {
            if let Some(found) = self.lease_keys.remove(&lease_id) {
                let mut keys = found;
                keys.remove(key);
                let ghost rest = keys@;
                if keys.len() > 0 {
                    assert(rest != Set::<Seq<u8>>::empty());
                    self.lease_keys.insert(lease_id, keys);
                    assert(self@ =~= old(self)@.detached(key@));
                } else {
                    proof {
                        keys.members_in_view();
                        assert(rest =~= Set::<Seq<u8>>::empty());
                    }
                    assert(self@ =~= old(self)@.detached(key@));
                }
            }
        }
    }

    fn hold(&mut self, name: Vec<u8>, key: &Vec<u8>)
        requires
            old(self).sound(),
        ensures
            final(self).sound(),
            final(self)@ == old(self)@.held(name@, key@),
    {
        self.by_key.insert(copy_bytes(key.as_slice()), copy_bytes(name.as_slice()));
        self.by_name.insert(name, copy_bytes(key.as_slice()));
        assert(self@ =~= old(self)@.held(name@, key@));
    }

    /// Lets the key hold the name. A positive lease takes the key; without one
    /// the key leaves the lease that it had.
    pub fn acquire(&mut self, name: Vec<u8>, key: Vec<u8>, lease_id: i64) -> (r: Vec<u8>)
        requires
            old(self).wf(),
        ensures
            final(self).wf(),
            final(self)@ == old(self)@.acquired(name@, key@, lease_id),
            r == key,
    {
        proof {
            self@.operations_keep_wf(name@, key@, lease_id);
        }
        if lease_id > 0 {
            self.attach(&key, lease_id);
        } else {
            self.detach(key.as_slice());
        }
        self.hold(name, &key);
        key
    }

    /// Lets the key hold the name. A positive lease takes the key; without one
    /// the key keeps the lease that it had.
    pub fn record(&mut self, name: Vec<u8>, key: Vec<u8>, lease_id: i64) -> (r: Vec<u8>)
        requires
            old(self).wf(),
        ensures
            final(self).wf(),
            final(self)@ == old(self)@.recorded(name@, key@, lease_id),
            r == key,
    {
        proof {
            self@.operations_keep_wf(name@, key@, lease_id);
        }
        if lease_id > 0 {
            self.attach(&key, lease_id);
        }
        self.hold(name, &key);
        key
    }

    /// Ends what the key holds. Says whether it held anything.
    pub fn release(&mut self, key: &[u8]) -> (r: bool)
        requires
            old(self).wf(),
        ensures
            final(self).wf(),
            final(self)@ == old(self)@.released(key@),
            r == old(self)@.by_key.contains_key(key@),
    {
        proof {
            self@.operations_keep_wf(Seq::empty(), key@, 0);
        }
        match self.by_key.remove(key) {
            Some(name) => {
                self.by_name.remove(name.as_slice());
                self.detach(key);
                assert(self@ =~= old(self)@.released(key@));
                true
            },
            None => {
                assert(self@ =~= old(self)@);
                false
            },
        }
    }

    /// Lets the key hold the name, and nothing else hold either. A positive lease
    /// takes the key; without one the key leaves the lease that it had.
    pub fn take(&mut self, name: Vec<u8>, key: Vec<u8>, lease_id: i64) -> (r: Vec<u8>)
        requires
            old(self).wf(),
        ensures
            final(self).wf(),
            final(self)@ == old(self)@.taken(name@, key@, lease_id),
            r == key,
    {
        let holder = match self.key_of(name.as_slice()) {
            Some(k) => Some(copy_bytes(k)),
            None => None,
        };
        if let Some(k) = holder {
            self.release(k.as_slice());
        }
        self.release(key.as_slice());
        self.acquire(name, key, lease_id)
    }

    /// Ends what the keys recorded under the lease hold. Gives those keys, in order.
    pub fn release_by_lease(&mut self, lease_id: i64) -> (r: Vec<Vec<u8>>)
        requires
            old(self).wf(),
        ensures
            final(self).wf(),
            final(self)@ == old(self)@.lease_released(lease_id),
            views(r@).to_set() == old(self)@.keys_of(lease_id),
            in_order(views(r@)),
    {
        let ghost before = self@;
        proof {
            self@.operations_keep_wf(Seq::empty(), Seq::empty(), lease_id);
        }
        let mut released: Vec<Vec<u8>> = Vec::new();
        match self.lease_keys.remove(&lease_id) {
            Some(keys) => {
                proof {
                    keys.members_in_view();
                }
                let n: usize = keys.len();
                let mut i: usize = 0;
                let ghost gone = keys.keys().take(0).to_set();
                proof {
                    assert(gone =~= Set::<Seq<u8>>::empty());
                    assert(before.by_key.remove_keys(gone) =~= before.by_key);
                    assert(before.names_of(gone) =~= Set::<Seq<u8>>::empty());
                    assert(before.by_name.remove_keys(before.names_of(gone)) =~= before.by_name);
                    assert(before.leases.remove_keys(gone) =~= before.leases);
                    assert(views(released@) =~= keys.keys().take(0));
                }
                while i < n
                    invariant
                        i <= n == keys.keys().len(),
                        keys.wf(),
                        keys.keys().no_duplicates(),
                        self.sound(),
                        gone == keys.keys().take(i as int).to_set(),
                        self@.lease_keys == before.lease_keys.remove(lease_id),
                        self@.by_key == before.by_key.remove_keys(gone),
                        self@.by_name == before.by_name.remove_keys(before.names_of(gone)),
                        self@.leases == before.leases.remove_keys(gone),
                        views(released@) == keys.keys().take(i as int),
                    decreases n - i,
                {
                    let key = keys.key_at(i);
                    let ghost held = self@;
                    proof {
                        let more = gone.insert(key@);
                        assert(keys.keys().take(i + 1).to_set() =~= more) by {
                            assert(keys.keys().take(i + 1) =~= keys.keys().take(i as int).push(key@));
                            keys.keys().take(i as int).lemma_push_to_set_commute(key@);
                        }
                        assert(!gone.contains(key@));
                        before.one_more_name(gone, key@);
                        assert(before.by_key.remove_keys(gone).remove(key@)
                            =~= before.by_key.remove_keys(more));
                        assert(before.leases.remove_keys(gone).remove(key@)
                            =~= before.leases.remove_keys(more));
                    }
                    if let Some(name) = self.by_key.remove(key.as_slice()) {
                        self.by_name.remove(name.as_slice());
                    }
                    self.leases.remove(key.as_slice());
                    proof {
                        assert(held.by_key.contains_key(key@) == before.by_key.contains_key(key@));
                        gone = gone.insert(key@);
                    }
                    let copy = copy_bytes(key.as_slice());
                    proof {
                        views_push(released@, copy);
                        assert(keys.keys().take(i + 1) =~= keys.keys().take(i as int).push(copy@));
                    }
                    released.push(copy);
                    i = i + 1;
                }
                proof {
                    assert(keys.keys().take(n as int) =~= keys.keys());
                    assert(self@ =~= before.lease_released(lease_id));
                    keys.members_in_view();
                }
                released
            },
            None => {
                proof {
                    let none = Set::<Seq<u8>>::empty();
                    assert(before.names_of(none) =~= none);
                    assert(self@ =~= before.lease_released(lease_id));
                    assert(views(released@).to_set() =~= none);
                }
                released
            },
        }
    }

    /// The keys recorded under the lease, in order.
    pub fn keys_by_lease(&self, lease_id: i64) -> (r: Vec<Vec<u8>>)
        requires
            self.wf(),
        ensures
            views(r@).to_set() == self@.keys_of(lease_id),
            in_order(views(r@)),
    {
        let mut found: Vec<Vec<u8>> = Vec::new();
        match self.lease_keys.get(&lease_id) {
            Some(keys) => {
                proof {
                    keys.members_in_view();
                    assert(views(found@) =~= keys.keys().take(0));
                }
                let n: usize = keys.len();
                let mut i: usize = 0;
                while i < n
                    invariant
                        i <= n == keys.keys().len(),
                        keys.wf(),
                        views(found@) == keys.keys().take(i as int),
                    decreases n - i,
                {
                    let copy = copy_bytes(keys.key_at(i).as_slice());
                    proof {
                        views_push(found@, copy);
                        assert(keys.keys().take(i + 1) =~= keys.keys().take(i as int).push(copy@));
                    }
                    found.push(copy);
                    i = i + 1;
                }
                proof {
                    assert(keys.keys().take(n as int) =~= keys.keys());
                }
                found
            },
            None => {
                proof {
                    assert(views(found@).to_set() =~= Set::<Seq<u8>>::empty());
                }
                found
            },
        }
    }

    /// The key that holds the name.
    pub fn key_of(&self, name: &[u8]) -> (r: Option<&[u8]>)
        requires
            self.wf(),
        ensures
            match r {
                Some(key) => self@.by_name.contains_key(name@) && key@ == self@.by_name[name@],
                None => !self@.by_name.contains_key(name@),
            },
    {
        match self.by_name.get(name) {
            Some(key) => Some(key.as_slice()),
            None => None,
        }
    }

    /// The name that the key holds.
    pub fn name_of(&self, key: &[u8]) -> (r: Option<&[u8]>)
        requires
            self.wf(),
        ensures
            match r {
                Some(name) => self@.by_key.contains_key(key@) && name@ == self@.by_key[key@],
                None => !self@.by_key.contains_key(key@),
            },
    {
        match self.by_key.get(key) {
            Some(name) => Some(name.as_slice()),
            None => None,
        }
    }

    /// The lease of the key.
    pub fn lease_of(&self, key: &[u8]) -> (r: Option<i64>)
        requires
            self.wf(),
        ensures
            match r {
                Some(lease_id) => self@.leases.contains_key(key@) && lease_id
                    == self@.leases[key@],
                None => !self@.leases.contains_key(key@),
            },
    {
        match self.leases.get(key) {
            Some(lease_id) => Some(*lease_id),
            None => None,
        }
    }

    /// The number of names that are held.
    pub fn count(&self) -> (n: usize)
        requires
            self.wf(),
        ensures
            n == self@.by_name.len(),
            self@.by_name.dom().finite(),
    {
        self.by_name.len()
    }
}

impl Holdings {
    /// Recording that a key holds a name makes that key the holder of that name,
    /// on the lease if there is one; without one the key's lease stays. All other
    /// names and keys are as they were.
    pub proof fn recording_changes_one_name(
        self,
        name: Seq<u8>,
        key: Seq<u8>,
        lease_id: i64,
        other_name: Seq<u8>,
        other_key: Seq<u8>,
        other_lease: i64,
    )
        ensures
            ({
                let next = self.recorded(name, key, lease_id);
                &&& next.by_name.contains_key(name) && next.by_name[name] == key
                &&& next.by_key.contains_key(key) && next.by_key[key] == name
                &&& lease_id > 0 ==> {
                    &&& next.leases.contains_key(key) && next.leases[key] == lease_id
                    &&& next.lease_keys.contains_key(lease_id)
                    &&& next.lease_keys[lease_id].contains(key)
                }
                &&& lease_id <= 0 ==> next.leases == self.leases && next.lease_keys
                    == self.lease_keys
                &&& other_name != name ==> {
                    &&& next.by_name.contains_key(other_name) == self.by_name.contains_key(
                        other_name,
                    )
                    &&& next.by_name[other_name] == self.by_name[other_name]
                }
                &&& other_key != key ==> {
                    &&& next.by_key.contains_key(other_key) == self.by_key.contains_key(other_key)
                    &&& next.by_key[other_key] == self.by_key[other_key]
                    &&& next.leases.contains_key(other_key) == self.leases.contains_key(other_key)
                    &&& next.leases[other_key] == self.leases[other_key]
                    &&& next.keys_of(other_lease).contains(other_key) == self.keys_of(
                        other_lease,
                    ).contains(other_key)
                }
                &&& other_lease != lease_id ==> next.lease_keys.contains_key(other_lease)
                    == self.lease_keys.contains_key(other_lease) && next.lease_keys[other_lease]
                    == self.lease_keys[other_lease]
            }),
    {
    }

    /// Releasing a key takes away its name and its lease, and nothing of the other
    /// keys; a key that holds nothing is released without effect.
    pub proof fn releasing_changes_one_key(
        self,
        key: Seq<u8>,
        other_name: Seq<u8>,
        other_key: Seq<u8>,
        lease_id: i64,
    )
        requires
            self.wf(),
        ensures
            ({
                let next = self.released(key);
                &&& !next.by_key.contains_key(key)
                &&& !next.leases.contains_key(key)
                &&& !self.by_key.contains_key(key) ==> next == self
                &&& self.by_key.contains_key(key) ==> {
                    &&& !next.by_name.contains_key(self.by_key[key])
                    &&& other_name != self.by_key[key] ==> next.by_name.contains_key(other_name)
                        == self.by_name.contains_key(other_name) && next.by_name[other_name]
                        == self.by_name[other_name]
                    &&& self.leases.contains_key(key) ==> !next.keys_of(
                        self.leases[key],
                    ).contains(key)
                }
                &&& other_key != key ==> {
                    &&& next.by_key.contains_key(other_key) == self.by_key.contains_key(other_key)
                    &&& next.by_key[other_key] == self.by_key[other_key]
                    &&& next.leases.contains_key(other_key) == self.leases.contains_key(other_key)
                    &&& next.leases[other_key] == self.leases[other_key]
                    &&& next.keys_of(lease_id).contains(other_key) == self.keys_of(
                        lease_id,
                    ).contains(other_key)
                }
            }),
    {
        if self.leases.contains_key(key) {
            let l = self.leases[key];
            let rest = self.keys_of(l).remove(key);
            assert(rest.contains(other_key) == (self.keys_of(l).contains(other_key) && other_key
                != key));
            if rest == Set::<Seq<u8>>::empty() {
                assert(!rest.contains(other_key));
            }
        }
    }

    /// Ending a lease takes away what the keys recorded under it hold, and leaves
    /// every other key and every other lease as it was.
    pub proof fn ending_a_lease_frees_its_keys(
        self,
        lease_id: i64,
        key: Seq<u8>,
        other_lease: i64,
    )
        ensures
            ({
                let next = self.lease_released(lease_id);
                let under = self.lease_keys.contains_key(lease_id)
                    && self.lease_keys[lease_id].contains(key);
                &&& next.by_key.contains_key(key) <==> self.by_key.contains_key(key) && !under
                &&& next.by_key.contains_key(key) ==> next.by_key[key] == self.by_key[key]
                &&& next.leases.contains_key(key) <==> self.leases.contains_key(key) && !under
                &&& next.leases.contains_key(key) ==> next.leases[key] == self.leases[key]
                &&& !next.lease_keys.contains_key(lease_id)
                &&& other_lease != lease_id ==> next.lease_keys.contains_key(other_lease)
                    == self.lease_keys.contains_key(other_lease) && next.lease_keys[other_lease]
                    == self.lease_keys[other_lease]
            }),
    {
    }
}

/// Reading one more entry changes nothing if its value is shorter than a lease or
/// its key has another prefix; otherwise its key holds the name that it says, on
/// the lease that its first eight bytes denote.
pub proof fn restoring_one_more(
    prefix: Option<Seq<u8>>,
    entries: Seq<(Seq<u8>, Seq<u8>)>,
    key: Seq<u8>,
    value: Seq<u8>,
    lease_id: i64,
    name: Seq<u8>,
    rest: Seq<u8>,
)
    ensures
        ({
            let before = restored(prefix, entries);
            let after = restored(prefix, entries.push((key, value)));
            &&& value.len() < 8 ==> after == before
            &&& prefix is Some && !(exists|n: Seq<u8>| key == #[trigger] (prefix->Some_0 + n))
                ==> after == before
            &&& value == crate::bytes::be_i64(lease_id) + rest && (prefix is None ==> name == rest)
                && (prefix is Some ==> key == prefix->Some_0 + name) ==> {
                &&& after.by_name.contains_key(name) && after.by_name[name] == key
                &&& after.by_key.contains_key(key) && after.by_key[key] == name
                &&& lease_id > 0 ==> after.leases.contains_key(key) && after.leases[key] == lease_id
                &&& lease_id <= 0 ==> after.leases == before.leases
                &&& forall|k: Seq<u8>|
                    k != key ==> (#[trigger] after.by_key.contains_key(k)
                        == before.by_key.contains_key(k)) && after.by_key[k] == before.by_key[k]
            }
        }),
        restored(prefix, Seq::<(Seq<u8>, Seq<u8>)>::empty()) == Holdings::empty(),
{
    assert(entries.push((key, value)).drop_last() =~= entries);
    if let Some(p) = prefix {
        if p.is_prefix_of(key) {
            let n = p.len() as int;
            assert(key.subrange(0, n) == p);
            assert(key =~= p + key.skip(n));
        }
    }
    if value == crate::bytes::be_i64(lease_id) + rest {
        if prefix is None && name == rest {
            named_by_value(key, lease_id, name);
        }
        if prefix is Some && key == prefix->Some_0 + name {
            named_by_key(prefix->Some_0, name, lease_id, rest);
        }
    }
}

/// Entries and byte strings are seen one for one and as they are.
pub proof fn entries_are_seen_as_they_are(entries: Seq<Entry>, list: Seq<Vec<u8>>, i: int)
    ensures
        entry_views(entries).len() == entries.len(),
        0 <= i < entries.len() ==> entry_views(entries)[i].0 == entries[i].key@
            && entry_views(entries)[i].1 == entries[i].value@,
        views(list).len() == list.len(),
        0 <= i < list.len() ==> views(list)[i] == list[i]@,
{
}

} // verus!
