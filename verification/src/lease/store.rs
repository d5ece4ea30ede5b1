//! How leases stand in storage: key encodings and batches of writes.

use vstd::prelude::*;
use vstd::slice::slice_subrange;

use crate::bytes::{concat, copy_bytes, decode_i64, encode_i64};

verus! {

/// The column families that lease data is stored in.
#[derive(Debug, Clone, Copy, PartialEq, Eq, Structural)]
pub enum ColumnFamily {
    /// The lease of each key.
    KeyLease,
    /// A lease and one of its keys, joined into one key without a value.
    LeaseKeys,
}

/// One write of a batch.
pub enum BatchOp {
    Put { cf: ColumnFamily, key: Vec<u8>, value: Vec<u8> },
    Delete { cf: ColumnFamily, key: Vec<u8> },
}

/// What one write of a batch does.
pub enum Write {
    Put { cf: ColumnFamily, key: Seq<u8>, value: Seq<u8> },
    Delete { cf: ColumnFamily, key: Seq<u8> },
}

impl View for BatchOp {
    type V = Write;

    open spec fn view(&self) -> Write {
        match self {
            BatchOp::Put { cf, key, value } => Write::Put { cf: *cf, key: key@, value: value@ },
            BatchOp::Delete { cf, key } => Write::Delete { cf: *cf, key: key@ },
        }
    }
}

/// What a batch does.
pub open spec fn writes(batch: Seq<BatchOp>) -> Seq<Write> {
    batch.map_values(|op: BatchOp| op@)
}

proof fn writes_push(batch: Seq<BatchOp>, op: BatchOp)
    ensures
        writes(batch.push(op)) == writes(batch).push(op@),
{
    assert(writes(batch.push(op)) =~= writes(batch).push(op@));
}

/// What a list of leases with keys holds.
pub open spec fn pair_views(pairs: Seq<(i64, Vec<u8>)>) -> Seq<(i64, Seq<u8>)> {
    pairs.map_values(|p: (i64, Vec<u8>)| (p.0, p.1@))
}

proof fn pair_views_push(pairs: Seq<(i64, Vec<u8>)>, p: (i64, Vec<u8>))
    ensures
        pair_views(pairs.push(p)) == pair_views(pairs).push((p.0, p.1@)),
{
    assert(pair_views(pairs.push(p)) =~= pair_views(pairs).push((p.0, p.1@)));
}

/// The lease that a stored value of exactly eight bytes names.
pub open spec fn lease_id_of(value: Option<Seq<u8>>) -> Option<i64> {
    match value {
        Some(bytes) => if bytes.len() == 8 {
            Some(crate::bytes::read_i64(bytes))
        } else {
            None
        },
        None => None,
    }
}

/// What an optional byte string holds.
pub open spec fn opt_view(value: Option<Vec<u8>>) -> Option<Seq<u8>> {
    match value {
        Some(bytes) => Some(bytes@),
        None => None,
    }
}

/// The key that a lease and one of its keys are joined into.
pub open spec fn pair_key(lease_id: i64, key: Seq<u8>) -> Seq<u8> {
    crate::bytes::be_i64(lease_id) + key
}

/// The writes that end the associations of the first `n` keys, given what is
/// stored of each key: only positive leases count.
pub open spec fn cleanup_writes(
    keys: Seq<Vec<u8>>,
    found: Seq<Option<Vec<u8>>>,
    n: int,
) -> Seq<Write>
    decreases n,
{
    if n <= 0 {
        Seq::empty()
    } else {
        let before = cleanup_writes(keys, found, n - 1);
        let key = keys[n - 1]@;
        match lease_id_of(opt_view(found[n - 1])) {
            Some(lease_id) => if lease_id > 0 {
                before.push(Write::Delete { cf: ColumnFamily::KeyLease, key }).push(
                    Write::Delete { cf: ColumnFamily::LeaseKeys, key: pair_key(lease_id, key) },
                )
            } else {
                before
            },
            None => before,
        }
    }
}

/// The associations that end for the first `n` keys.
pub open spec fn cleanup_pairs(
    keys: Seq<Vec<u8>>,
    found: Seq<Option<Vec<u8>>>,
    n: int,
) -> Seq<(i64, Seq<u8>)>
    decreases n,
{
    if n <= 0 {
        Seq::empty()
    } else {
        let before = cleanup_pairs(keys, found, n - 1);
        match lease_id_of(opt_view(found[n - 1])) {
            Some(lease_id) => if lease_id > 0 {
                before.push((lease_id, keys[n - 1]@))
            } else {
                before
            },
            None => before,
        }
    }
}

/// The writes that put a key under a lease. The old association is deleted if it
/// is another, positive lease.
pub open spec fn association_writes(
    key: Seq<u8>,
    lease_id: i64,
    old_lease_id: Option<i64>,
) -> Seq<Write> {
    let put = seq![
        Write::Put {
            cf: ColumnFamily::KeyLease,
            key,
            value: crate::bytes::be_i64(lease_id),
        },
        Write::Put {
            cf: ColumnFamily::LeaseKeys,
            key: pair_key(lease_id, key),
            value: Seq::<u8>::empty(),
        },
    ];
    match old_lease_id {
        Some(old_id) => if old_id != lease_id && old_id > 0 {
            seq![
                Write::Delete { cf: ColumnFamily::KeyLease, key },
                Write::Delete { cf: ColumnFamily::LeaseKeys, key: pair_key(old_id, key) },
            ] + put
        } else {
            put
        },
        None => put,
    }
}

/// The leases and keys that joined keys stand for; what is too short for a lease
/// is passed over.
pub open spec fn pairs_of(keys: Seq<Vec<u8>>) -> Seq<(i64, Seq<u8>)>
    decreases keys.len(),
{
    if keys.len() == 0 {
        Seq::empty()
    } else {
        let before = pairs_of(keys.drop_last());
        let key = keys.last()@;
        if key.len() >= 8 {
            before.push((crate::bytes::read_i64(key), key.skip(8)))
        } else {
            before
        }
    }
}

/// Codec of the lease column families.
#[derive(Debug, Clone, Copy)]
pub struct LeaseStore;

impl LeaseStore {
    pub fn new() -> (r: Self)
        ensures
            r == LeaseStore,
    {
        LeaseStore
    }

    /// The key that a lease is stored under.
    pub fn lease_key(&self, id: i64) -> (r: Vec<u8>)
        ensures
            r@ == crate::bytes::be_i64(id),
    {
        encode_i64(id)
    }

    /// The lease of a key, from what the key-lease family holds for the key.
    pub fn get_key_lease_id(&self, stored: &Option<Vec<u8>>) -> (r: Option<i64>)
        ensures
            r == lease_id_of(opt_view(*stored)),
    {
        match stored {
            Some(bytes) => if bytes.len() == 8 {
                Some(decode_i64(bytes.as_slice()))
            } else {
                None
            },
            None => None,
        }
    }

    /// Cleanup of lease associations for multiple keys, given what the key-lease
    /// family holds for each. Adds the deletes to `batch`; returns the
    /// associations that end.
    pub fn batch_lease_cleanup(
        &self,
        keys: &Vec<Vec<u8>>,
        found: &Vec<Option<Vec<u8>>>,
        batch: &mut Vec<BatchOp>,
    ) -> (r: Vec<(i64, Vec<u8>)>)
        requires
            keys.len() == found.len(),
        ensures
            writes(final(batch)@) == writes(old(batch)@) + cleanup_writes(
                keys@,
                found@,
                keys@.len() as int,
            ),
            pair_views(r@) == cleanup_pairs(keys@, found@, keys@.len() as int),
    {
        let mut detached: Vec<(i64, Vec<u8>)> = Vec::new();
        let mut i: usize = 0;
        proof {
            assert(writes(batch@) + cleanup_writes(keys@, found@, 0) =~= writes(batch@));
            assert(pair_views(detached@) =~= cleanup_pairs(keys@, found@, 0));
        }
        while i < keys.len()
            invariant
                i <= keys.len(),
                keys.len() == found.len(),
                writes(batch@) == writes(old(batch)@) + cleanup_writes(keys@, found@, i as int),
                pair_views(detached@) == cleanup_pairs(keys@, found@, i as int),
            decreases keys.len() - i,
        {
            let ghost before = batch@;
            if let Some(lease_id) = self.get_key_lease_id(&found[i]) {
                if lease_id > 0 {
                    let key = &keys[i];
                    let pair = (lease_id, copy_bytes(key.as_slice()));
                    proof {
                        pair_views_push(detached@, pair);
                    }
                    detached.push(pair);
                    let first = BatchOp::Delete {
                        cf: ColumnFamily::KeyLease,
                        key: copy_bytes(key.as_slice()),
                    };
                    let second = BatchOp::Delete {
                        cf: ColumnFamily::LeaseKeys,
                        key: concat(encode_i64(lease_id).as_slice(), key.as_slice()),
                    };
                    proof {
                        writes_push(before, first);
                        writes_push(before.push(first), second);
                        assert(writes(before.push(first).push(second)) =~= writes(old(batch)@)
                            + cleanup_writes(keys@, found@, i as int).push(first@).push(second@));
                    }
                    batch.push(first);
                    batch.push(second);
                }
            }
            i = i + 1;
        }
        detached
    }

    /// Adds the writes that put a key under a lease to `batch`.
    /// Removes the old association if it differs from the new lease.
    pub fn batch_put_lease_association(
        &self,
        key: &[u8],
        lease_id: i64,
        old_lease_id: Option<i64>,
        batch: &mut Vec<BatchOp>,
    )
        ensures
            writes(final(batch)@) == writes(old(batch)@) + association_writes(
                key@,
                lease_id,
                old_lease_id,
            ),
    {
        let ghost start = writes(batch@);
        if let Some(old_id) = old_lease_id {
            if old_id != lease_id && old_id > 0 {
                let first = BatchOp::Delete { cf: ColumnFamily::KeyLease, key: copy_bytes(key) };
                let second = BatchOp::Delete {
                    cf: ColumnFamily::LeaseKeys,
                    key: concat(encode_i64(old_id).as_slice(), key),
                };
                proof {
                    writes_push(batch@, first);
                    writes_push(batch@.push(first), second);
                }
                batch.push(first);
                batch.push(second);
            }
        }
        let third = BatchOp::Put {
            cf: ColumnFamily::KeyLease,
            key: copy_bytes(key),
            value: encode_i64(lease_id),
        };
        let fourth = BatchOp::Put {
            cf: ColumnFamily::LeaseKeys,
            key: concat(encode_i64(lease_id).as_slice(), key),
            value: Vec::new(),
        };
        proof {
            writes_push(batch@, third);
            writes_push(batch@.push(third), fourth);
            assert(fourth@ == (Write::Put {
                cf: ColumnFamily::LeaseKeys,
                key: pair_key(lease_id, key@),
                value: Seq::<u8>::empty(),
            }));
        }
        batch.push(third);
        batch.push(fourth);
        assert(writes(batch@) =~= start + association_writes(key@, lease_id, old_lease_id));
    }

    /// The leases and keys that the keys of the lease-keys family stand for.
    pub fn load_all_lease_key_pairs(&self, keys: &Vec<Vec<u8>>) -> (r: Vec<(i64, Vec<u8>)>)
        ensures
            pair_views(r@) == pairs_of(keys@),
    {
        let mut pairs: Vec<(i64, Vec<u8>)> = Vec::new();
        let mut i: usize = 0;
        proof {
            assert(keys@.take(0) =~= Seq::empty());
            assert(pair_views(pairs@) =~= pairs_of(keys@.take(0)));
        }
        while i < keys.len()
            invariant
                i <= keys.len(),
                pair_views(pairs@) == pairs_of(keys@.take(i as int)),
            decreases keys.len() - i,
        {
            let key = keys[i].as_slice();
            proof {
                assert(keys@.take(i + 1).drop_last() =~= keys@.take(i as int));
                assert(keys@.take(i + 1).last() == keys@[i as int]);
            }
            if key.len() >= 8 {
                let pair = (decode_i64(key), copy_bytes(slice_subrange(key, 8, key.len())));
                proof {
                    assert(pair.1@ =~= key@.skip(8));
                    pair_views_push(pairs@, pair);
                }
                pairs.push(pair);
            }
            i = i + 1;
        }
        assert(keys@.take(i as int) =~= keys@);
        pairs
    }

    /// The lease counter, from what the metadata family holds for it; 0 if there
    /// is none.
    pub fn load_lease_counter(&self, stored: &Option<Vec<u8>>) -> (r: i64)
        ensures
            r == match lease_id_of(opt_view(*stored)) {
                Some(counter) => counter,
                None => 0i64,
            },
    {
        match self.get_key_lease_id(stored) {
            Some(counter) => counter,
            None => 0,
        }
    }
}

/// What the two column families hold.
pub struct Families {
    pub key_lease: Map<Seq<u8>, Seq<u8>>,
    pub lease_keys: Map<Seq<u8>, Seq<u8>>,
}

impl Families {
    /// What the families hold after one write.
    pub open spec fn after(self, write: Write) -> Families {
        match write {
            Write::Put { cf: ColumnFamily::KeyLease, key, value } => Families {
                key_lease: self.key_lease.insert(key, value),
                ..self
            },
            Write::Put { cf: ColumnFamily::LeaseKeys, key, value } => Families {
                lease_keys: self.lease_keys.insert(key, value),
                ..self
            },
            Write::Delete { cf: ColumnFamily::KeyLease, key } => Families {
                key_lease: self.key_lease.remove(key),
                ..self
            },
            Write::Delete { cf: ColumnFamily::LeaseKeys, key } => Families {
                lease_keys: self.lease_keys.remove(key),
                ..self
            },
        }
    }

    /// What the families hold after a batch of writes, done in order.
    pub open spec fn after_all(self, batch: Seq<Write>) -> Families
        decreases batch.len(),
    {
        if batch.len() == 0 {
            self
        } else {
            self.after_all(batch.drop_last()).after(batch.last())
        }
    }

    /// What is stored for a key.
    pub open spec fn stored_for(self, key: Seq<u8>) -> Option<Seq<u8>> {
        if self.key_lease.contains_key(key) {
            Some(self.key_lease[key])
        } else {
            None
        }
    }
}

/// Joined keys are different for different leases and for different keys.
pub proof fn pair_key_injective(a: i64, ka: Seq<u8>, b: i64, kb: Seq<u8>)
    ensures
        pair_key(a, ka) == pair_key(b, kb) ==> a == b && ka == kb,
{
    crate::bytes::i64_round_trip(a, ka);
    crate::bytes::i64_round_trip(b, kb);
    assert(pair_key(a, ka).skip(8) =~= ka);
    assert(pair_key(b, kb).skip(8) =~= kb);
}

/// After a key was put under a lease, the key's lease reads back as that lease,
/// the lease's keys hold the key, and the key is gone from the lease that it was
/// moved from. What is stored of other keys stays.
pub proof fn association_reads_back(
    before: Families,
    key: Seq<u8>,
    lease_id: i64,
    old_lease_id: Option<i64>,
    other: Seq<u8>,
    other_lease: i64,
)
    ensures
        ({
            let after = before.after_all(association_writes(key, lease_id, old_lease_id));
            &&& lease_id_of(after.stored_for(key)) == Some(lease_id)
            &&& after.lease_keys.contains_key(pair_key(lease_id, key))
            &&& old_lease_id matches Some(old_id) ==> old_id > 0 && old_id != lease_id
                ==> !after.lease_keys.contains_key(pair_key(old_id, key))
            &&& other != key ==> after.stored_for(other) == before.stored_for(other)
            &&& other != key ==> after.lease_keys.contains_key(pair_key(other_lease, other))
                == before.lease_keys.contains_key(pair_key(other_lease, other))
        }),
{
    let w = association_writes(key, lease_id, old_lease_id);
    reveal_with_fuel(Families::after_all, 5);
    crate::bytes::i64_round_trip(lease_id, Seq::empty());
    assert(crate::bytes::be_i64(lease_id) + Seq::<u8>::empty() =~= crate::bytes::be_i64(lease_id));
    pair_key_injective(other_lease, other, lease_id, key);
    if let Some(old_id) = old_lease_id {
        pair_key_injective(old_id, key, lease_id, key);
        pair_key_injective(other_lease, other, old_id, key);
        if old_id != lease_id && old_id > 0 {
            let w3 = w.drop_last();
            let w2 = w3.drop_last();
            let w1 = w2.drop_last();
            assert(w.len() == 4 && w3.len() == 3 && w2.len() == 2 && w1.len() == 1);
            assert(w1.drop_last().len() == 0);
            assert(w.last() == w[3] && w3.last() == w[2] && w2.last() == w[1] && w1.last() == w[0]);
        } else {
            assert(w.drop_last().drop_last().len() == 0);
        }
    } else {
        assert(w.drop_last().drop_last().len() == 0);
    }
}

/// A joined key stands for the lease and the key that it was made of.
pub proof fn pair_reads_back(keys: Seq<Vec<u8>>, joined: Vec<u8>, lease_id: i64, key: Seq<u8>)
    requires
        joined@ == pair_key(lease_id, key),
    ensures
        pairs_of(keys.push(joined)) == pairs_of(keys).push((lease_id, key)),
{
    crate::bytes::i64_round_trip(lease_id, key);
    assert(keys.push(joined).drop_last() =~= keys);
    assert(joined@.skip(8) =~= key);
}

/// What is stored of a key names a lease if and only if it is eight bytes long,
/// and what was written of a lease names that lease.
pub proof fn only_eight_bytes_name_a_lease(value: Seq<u8>, lease_id: i64)
    ensures
        lease_id_of(None) is None,
        lease_id_of(Some(value)) is Some <==> value.len() == 8,
        lease_id_of(Some(crate::bytes::be_i64(lease_id))) == Some(lease_id),
        lease_id_of(Some(value)) == Some(lease_id) <==> value == crate::bytes::be_i64(lease_id),
{
    crate::bytes::i64_round_trip(lease_id, Seq::empty());
    assert(crate::bytes::be_i64(lease_id) + Seq::<u8>::empty() =~= crate::bytes::be_i64(lease_id));
    if value.len() == 8 {
        crate::bytes::i64_round_trip_bytes(value);
        assert(value.take(8) =~= value);
    }
}

/// The associations that a cleanup ends are those of the keys of which a positive
/// lease is stored, and no others.
pub proof fn cleanup_ends_what_is_leased(
    keys: Seq<Vec<u8>>,
    found: Seq<Option<Vec<u8>>>,
    n: int,
    lease_id: i64,
    key: Seq<u8>,
)
    requires
        0 <= n <= keys.len(),
        n <= found.len(),
    ensures
        cleanup_pairs(keys, found, n).contains((lease_id, key)) <==> exists|i: int|
            {
                &&& 0 <= i < n
                &&& (#[trigger] keys[i])@ == key
                &&& lease_id > 0
                &&& found[i] is Some
                &&& found[i]->Some_0@ == crate::bytes::be_i64(lease_id)
            },
    decreases n,
{
    if n > 0 {
        cleanup_ends_what_is_leased(keys, found, n - 1, lease_id, key);
        let before = cleanup_pairs(keys, found, n - 1);
        let all = cleanup_pairs(keys, found, n);
        match found[n - 1] {
            Some(bytes) => {
                only_eight_bytes_name_a_lease(bytes@, lease_id);
            },
            None => {},
        }
        if before.contains((lease_id, key)) {
            let j = before.index_of((lease_id, key));
            assert(all[j] == (lease_id, key));
        }
        if all.contains((lease_id, key)) && !before.contains((lease_id, key)) {
            let j = all.index_of((lease_id, key));
            assert(j == all.len() - 1) by {
                if j < before.len() {
                    assert(before[j] == (lease_id, key));
                }
            }
            assert(keys[n - 1]@ == key);
        }
        if keys[n - 1]@ == key && lease_id > 0 && found[n - 1] is Some && found[n - 1]->Some_0@
            == crate::bytes::be_i64(lease_id) {
            assert(all[all.len() - 1] == (lease_id, key));
        }
    }
}

/// After a cleanup, the keys of which a positive lease was stored have no lease
/// any more and stand under none. Everything else is as it was.
pub proof fn cleanup_leaves_the_rest(
    before: Families,
    keys: Seq<Vec<u8>>,
    found: Seq<Option<Vec<u8>>>,
    n: int,
    key: Seq<u8>,
    lease_id: i64,
)
    requires
        0 <= n <= keys.len(),
        n <= found.len(),
    ensures
        ({
            let after = before.after_all(cleanup_writes(keys, found, n));
            &&& after.lease_keys.contains_key(pair_key(lease_id, key)) <==> {
                &&& before.lease_keys.contains_key(pair_key(lease_id, key))
                &&& !cleanup_pairs(keys, found, n).contains((lease_id, key))
            }
            &&& (forall|l: i64| !#[trigger] cleanup_pairs(keys, found, n).contains((l, key)))
                ==> after.stored_for(key) == before.stored_for(key)
            &&& cleanup_pairs(keys, found, n).contains((lease_id, key)) ==> after.stored_for(
                key,
            ) is None
        }),
    decreases n,
{
    reveal_with_fuel(Families::after_all, 3);
    if n > 0 {
        cleanup_leaves_the_rest(before, keys, found, n - 1, key, lease_id);
        let done = cleanup_writes(keys, found, n - 1);
        let all = cleanup_writes(keys, found, n);
        let pairs = cleanup_pairs(keys, found, n - 1);
        let more = cleanup_pairs(keys, found, n);
        match lease_id_of(opt_view(found[n - 1])) {
            Some(id) => if id > 0 {
                assert(all.drop_last().drop_last() =~= done);
                pair_key_injective(lease_id, key, id, keys[n - 1]@);
                assert(more == pairs.push((id, keys[n - 1]@)));
                assert(more[more.len() - 1] == (id, keys[n - 1]@));
                assert forall|l: i64| #[trigger] pairs.contains((l, key)) implies more.contains(
                    (l, key),
                ) by {
                    let j = pairs.index_of((l, key));
                    assert(more[j] == (l, key));
                }
                if more.contains((lease_id, key)) && !pairs.contains((lease_id, key)) {
                    let j = more.index_of((lease_id, key));
                    if j < pairs.len() {
                        assert(pairs[j] == (lease_id, key));
                    }
                    assert((id, keys[n - 1]@) == (lease_id, key));
                }
                if pairs.contains((lease_id, key)) {
                    assert(more.contains((lease_id, key)));
                }
                if forall|l: i64| !#[trigger] more.contains((l, key)) {
                    assert(!more.contains((id, key)));
                    assert(keys[n - 1]@ != key);
                }
            } else {
                assert(all == done && more == pairs);
            },
            None => {
                assert(all == done && more == pairs);
            },
        }
    }
}

/// A lease and a key are read from the joined keys if and only if their joined
/// key is among them.
pub proof fn pairs_are_what_was_joined(keys: Seq<Vec<u8>>, lease_id: i64, key: Seq<u8>)
    ensures
        pairs_of(keys).contains((lease_id, key)) <==> exists|i: int|
            0 <= i < keys.len() && (#[trigger] keys[i])@ == pair_key(lease_id, key),
    decreases keys.len(),
{
    if keys.len() > 0 {
        let rest = keys.drop_last();
        pairs_are_what_was_joined(rest, lease_id, key);
        let (before, all) = (pairs_of(rest), pairs_of(keys));
        let last = keys.last()@;
        crate::bytes::i64_round_trip(lease_id, key);
        if last.len() >= 8 {
            crate::bytes::i64_round_trip_bytes(last);
            assert(last.take(8) + last.skip(8) =~= last);
            assert(pair_key(lease_id, key).skip(8) =~= key);
            assert(all[all.len() - 1] == (crate::bytes::read_i64(last), last.skip(8)));
        }
        if before.contains((lease_id, key)) {
            let j = before.index_of((lease_id, key));
            assert(all[j] == (lease_id, key));
            let i = choose|i: int|
                0 <= i < rest.len() && (#[trigger] rest[i])@ == pair_key(lease_id, key);
            assert(keys[i]@ == pair_key(lease_id, key));
        } else if all.contains((lease_id, key)) {
            let j = all.index_of((lease_id, key));
            if j < before.len() {
                assert(before[j] == (lease_id, key));
            }
            assert(keys[keys.len() - 1]@ == pair_key(lease_id, key));
        } else {
            assert forall|i: int| 0 <= i < keys.len() implies (#[trigger] keys[i])@ != pair_key(
                lease_id,
                key,
            ) by {
                if i < rest.len() {
                    assert(rest[i] == keys[i]);
                }
            }
        }
    }
}

/// Leases with keys, stored values and batches are seen one for one and as they
/// are.
pub proof fn pairs_are_seen_as_they_are(
    pairs: Seq<(i64, Vec<u8>)>,
    value: Option<Vec<u8>>,
    batch: Seq<BatchOp>,
    i: int,
)
    ensures
        pair_views(pairs).len() == pairs.len(),
        0 <= i < pairs.len() ==> pair_views(pairs)[i].0 == pairs[i].0 && pair_views(pairs)[i].1
            == pairs[i].1@,
        opt_view(value) is Some <==> value is Some,
        value is Some ==> opt_view(value)->Some_0 == value->Some_0@,
        writes(batch).len() == batch.len(),
        0 <= i < batch.len() ==> {
            &&& batch[i] matches BatchOp::Put { cf, key, value } ==> writes(batch)[i] == (
            Write::Put { cf, key: key@, value: value@ })
            &&& batch[i] matches BatchOp::Delete { cf, key } ==> writes(batch)[i] == (
            Write::Delete { cf, key: key@ })
        },
{
}

} // verus!
