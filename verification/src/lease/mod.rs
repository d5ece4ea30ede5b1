//! Leases: their expiry and the keys attached to them.

use vstd::prelude::*;

use crate::bytes::copy_bytes;
use crate::clock::unix_millis;
use crate::sorted::{SortedMap, SortedSet};

#[allow(clippy::module_inception)]
pub mod lease;
pub mod store;

pub use self::lease::{Lease, LeaseInfo};
pub use self::store::LeaseStore;

verus! {

/// What a lease manager holds: the active leases, the times at which leases
/// expire, the keys attached to each lease, and the next identifier.
#[verifier::ext_equal]
pub struct LeaseTable {
    pub leases: Map<i64, Lease>,
    pub expiry: Set<(i64, i64)>,
    pub keys: Map<i64, Set<Seq<u8>>>,
    pub next_id: i64,
}

/// The leases in a list that are not expired, by identifier. Of two with one
/// identifier the later stays.
pub open spec fn live_leases(infos: Seq<LeaseInfo>, now_ms: i64) -> Map<i64, Lease>
    decreases infos.len(),
{
    if infos.len() == 0 {
        Map::empty()
    } else {
        let before = live_leases(infos.drop_last(), now_ms);
        let info = infos.last();
        if info.expiry_time <= now_ms {
            before
        } else {
            before.insert(info.id, info.lease())
        }
    }
}

/// The expiry times of the leases in a list that are not expired.
pub open spec fn live_expiry(infos: Seq<LeaseInfo>, now_ms: i64) -> Set<(i64, i64)>
    decreases infos.len(),
{
    if infos.len() == 0 {
        Set::empty()
    } else {
        let before = live_expiry(infos.drop_last(), now_ms);
        let info = infos.last();
        if info.expiry_time <= now_ms {
            before
        } else {
            before.insert((info.expiry_time, info.id))
        }
    }
}

/// The keys attached to a lease.
pub open spec fn keys_of(keys: Map<i64, Set<Seq<u8>>>, id: i64) -> Set<Seq<u8>> {
    if keys.contains_key(id) {
        keys[id]
    } else {
        Set::empty()
    }
}

/// The keys attached to each lease by a list of leases with keys; leases that
/// are not active are passed over.
pub open spec fn attached_keys(
    pairs: Seq<(i64, Seq<u8>)>,
    leases: Map<i64, Lease>,
) -> Map<i64, Set<Seq<u8>>>
    decreases pairs.len(),
{
    if pairs.len() == 0 {
        Map::empty()
    } else {
        let before = attached_keys(pairs.drop_last(), leases);
        let (id, key) = pairs.last();
        if leases.contains_key(id) {
            before.insert(id, keys_of(before, id).insert(key))
        } else {
            before
        }
    }
}

/// `t` is the earliest expiry time, or the latest time there is if no lease
/// expires.
pub open spec fn is_earliest(expiry: Set<(i64, i64)>, t: i64) -> bool {
    if expiry == Set::<(i64, i64)>::empty() {
        t == i64::MAX
    } else {
        &&& exists|id: i64| #[trigger] expiry.contains((t, id))
        &&& forall|e: (i64, i64)| #[trigger] expiry.contains(e) ==> t <= e.0
    }
}

/// Each pair of the list stands before the next ones.
pub open spec fn pairs_in_order(list: Seq<(i64, i64)>) -> bool {
    forall|i: int, j: int|
        0 <= i < j < list.len() ==> {
            let (a, b) = (#[trigger] list[i], #[trigger] list[j]);
            a.0 < b.0 || (a.0 == b.0 && a.1 < b.1)
        }
}

/// `entries` are the expiry entries up to `now_ms`, in order, and `ids` are
/// their leases.
pub open spec fn lists_entries(
    expiry: Set<(i64, i64)>,
    now_ms: i64,
    entries: Seq<(i64, i64)>,
    ids: Seq<i64>,
) -> bool {
    &&& pairs_in_order(entries)
    &&& forall|e: (i64, i64)|
        #![trigger expiry.contains(e)]
        #![trigger entries.contains(e)]
        entries.contains(e) <==> expiry.contains(e) && e.0 <= now_ms
    &&& ids == entries.map_values(|e: (i64, i64)| e.1)
}

/// `ids` are the leases whose expiry time is not after `now_ms`, in the order of
/// expiry times and then of identifiers.
pub open spec fn lists_expired(expiry: Set<(i64, i64)>, now_ms: i64, ids: Seq<i64>) -> bool {
    exists|entries: Seq<(i64, i64)>| lists_entries(expiry, now_ms, entries, ids)
}

/// The answer to which leases are expired: those that are expired at the time, in
/// order, or nothing if there is no time.
pub open spec fn expired_answer(
    expiry: Set<(i64, i64)>,
    now: Option<i64>,
    r: Option<Vec<i64>>,
) -> bool {
    match now {
        Some(now_ms) => r is Some && lists_expired(expiry, now_ms, r->Some_0@),
        None => r is None,
    }
}

impl LeaseTable {
    /// Every active lease stands under its own identifier and has its expiry time
    /// recorded.
    pub open spec fn wf(self) -> bool {
        forall|id: i64| #[trigger]
            self.leases.contains_key(id) ==> self.leases[id].id == id && self.expiry.contains(
                (self.leases[id].expiry_time, id),
            )
    }

    /// The recorded expiry times are those of the active leases and no others.
    pub open spec fn exact(self) -> bool {
        &&& self.wf()
        &&& forall|e: (i64, i64)| #[trigger]
            self.expiry.contains(e) ==> self.leases.contains_key(e.1)
                && self.leases[e.1].expiry_time == e.0
    }

    /// After a lease was granted.
    pub open spec fn granted(self, id: i64, ttl: i64, expiry_time: i64) -> LeaseTable {
        LeaseTable {
            leases: self.leases.insert(id, Lease { id, ttl, granted_ttl: ttl, expiry_time }),
            expiry: self.expiry.insert((expiry_time, id)),
            ..self
        }
    }

    /// After a lease was revoked.
    pub open spec fn revoked(self, id: i64) -> LeaseTable {
        if self.leases.contains_key(id) {
            LeaseTable {
                leases: self.leases.remove(id),
                expiry: self.expiry.remove((self.leases[id].expiry_time, id)),
                keys: self.keys.remove(id),
                ..self
            }
        } else {
            self
        }
    }

    /// After a lease was kept alive.
    pub open spec fn kept_alive(self, id: i64, expiry_time: i64) -> LeaseTable {
        if self.leases.contains_key(id) {
            let lease = self.leases[id];
            LeaseTable {
                leases: self.leases.insert(id, Lease { expiry_time, ..lease }),
                expiry: self.expiry.remove((lease.expiry_time, id)).insert((expiry_time, id)),
                ..self
            }
        } else {
            self
        }
    }

    /// After a key was attached to a lease.
    pub open spec fn attached(self, id: i64, key: Seq<u8>) -> LeaseTable {
        LeaseTable { keys: self.keys.insert(id, keys_of(self.keys, id).insert(key)), ..self }
    }

    /// After a key was detached from a lease; a lease without keys is forgotten.
    pub open spec fn detached(self, id: i64, key: Seq<u8>) -> LeaseTable {
        if self.keys.contains_key(id) {
            let rest = self.keys[id].remove(key);
            LeaseTable {
                keys: if rest == Set::<Seq<u8>>::empty() {
                    self.keys.remove(id)
                } else {
                    self.keys.insert(id, rest)
                },
                ..self
            }
        } else {
            self
        }
    }

    /// After the table was rebuilt from what is stored.
    pub open spec fn restored(
        self,
        counter: i64,
        infos: Seq<LeaseInfo>,
        pairs: Seq<(i64, Seq<u8>)>,
        now_ms: i64,
    ) -> LeaseTable {
        LeaseTable {
            leases: live_leases(infos, now_ms),
            expiry: live_expiry(infos, now_ms),
            keys: attached_keys(pairs, live_leases(infos, now_ms)),
            next_id: if counter > self.next_id {
                counter
            } else {
                self.next_id
            },
        }
    }
}

/// In-memory lease manager.
pub struct LeaseManager {
    /// Active leases indexed by ID
    leases: SortedMap<i64, Lease>,
    /// Expiry ordering (expiry_time, lease_id), earliest first
    expiry: SortedSet<(i64, i64)>,
    /// Reverse mapping: lease_id to set of keys
    lease_keys: SortedMap<i64, SortedSet<Vec<u8>>>,
    /// Next lease ID counter
    next_id: i64,
    /// Max number of leases
    max_leases: usize,
}

impl View for LeaseManager {
    type V = LeaseTable;

    closed spec fn view(&self) -> LeaseTable {
        LeaseTable {
            leases: self.leases@,
            expiry: self.expiry@,
            keys: self.lease_keys@,
            next_id: self.next_id,
        }
    }
}

impl LeaseManager {
    /// The maximal number of leases that was configured.
    pub closed spec fn limit(&self) -> usize {
        self.max_leases
    }

    closed spec fn sound(&self) -> bool {
        &&& self.leases.wf()
        &&& self.expiry.wf()
        &&& self.lease_keys.wf()
        &&& forall|s: SortedSet<Vec<u8>>| #[trigger]
            self.lease_keys.values().contains(s) ==> s.wf()
    }

    /// The indexes are in order and every lease has its expiry time recorded.
    pub closed spec fn wf(&self) -> bool {
        self.sound() && self@.wf()
    }

    /// What `wf` says of the table.
    pub proof fn table_wf(&self)
        requires
            self.wf(),
        ensures
            self@.wf(),
    {
    }

    /// A manager without leases, which hands out identifiers from `next_id` on.
    pub fn new(max_leases: usize, next_id: i64) -> (m: Self)
        ensures
            m.wf(),
            m.limit() == max_leases,
            m@ == (LeaseTable {
                leases: Map::empty(),
                expiry: Set::empty(),
                keys: Map::empty(),
                next_id,
            }),
    {
        let m = LeaseManager {
            leases: SortedMap::new(),
            expiry: SortedSet::new(),
            lease_keys: SortedMap::new(),
            next_id,
            max_leases,
        };
        proof {
            m.lease_keys.entries_in_view();
        }
        m
    }

    /// Rebuild from persisted data: the stored lease counter, the stored leases,
    /// and the stored leases with keys. Leases that are expired at `now_ms` are
    /// passed over, and so are their keys.
    pub fn restore(
        &mut self,
        counter: i64,
        infos: &Vec<LeaseInfo>,
        pairs: &Vec<(i64, Vec<u8>)>,
        now_ms: i64,
    )
        requires
            old(self).wf(),
        ensures
            final(self).wf(),
            final(self).limit() == old(self).limit(),
            final(self)@ == old(self)@.restored(counter, infos@, store::pair_views(pairs@), now_ms),
    {
        self.leases = SortedMap::new();
        self.expiry = SortedSet::new();
        self.lease_keys = SortedMap::new();
        proof {
            self.lease_keys.entries_in_view();
        }
        if counter > self.next_id {
            self.next_id = counter;
        }
        let ghost start = *self;
        let mut i: usize = 0;
        assert(infos@.take(0) =~= Seq::empty());
        while i < infos.len()
            invariant
                i <= infos.len(),
                self.wf(),
                self.limit() == start.limit(),
                self@.next_id == start@.next_id,
                self@.keys == Map::<i64, Set<Seq<u8>>>::empty(),
                self@.leases == live_leases(infos@.take(i as int), now_ms),
                self@.expiry == live_expiry(infos@.take(i as int), now_ms),
            decreases infos.len() - i,
        {
            let info = infos[i];
            proof {
                assert(infos@.take(i + 1).drop_last() =~= infos@.take(i as int));
            }
            if info.expiry_time > now_ms {
                let lease = info.to_lease();
                self.expiry.insert((lease.expiry_time, lease.id));
                self.leases.insert(lease.id, lease);
            }
            i = i + 1;
        }
        assert(infos@.take(i as int) =~= infos@);
        let ghost views = store::pair_views(pairs@);
        let ghost live = self@.leases;
        i = 0;
        assert(views.take(0) =~= Seq::empty());
        while i < pairs.len()
            invariant
                i <= pairs.len(),
                views == store::pair_views(pairs@),
                self.wf(),
                self.limit() == start.limit(),
                self@.next_id == start@.next_id,
                self@.leases == live,
                self@.expiry == live_expiry(infos@, now_ms),
                self@.keys == attached_keys(views.take(i as int), live),
            decreases pairs.len() - i,
        {
            let lease_id = pairs[i].0;
            proof {
                assert(views.take(i + 1).drop_last() =~= views.take(i as int));
                assert(views.take(i + 1).last() == (lease_id, pairs@[i as int].1@));
            }
            if self.leases.contains_key(&lease_id) {
                self.attach_key(lease_id, copy_bytes(pairs[i].1.as_slice()));
            }
            i = i + 1;
        }
        assert(views.take(i as int) =~= views);
    }

    /// Get the next lease ID and increment counter.
    pub fn next_lease_id(&mut self) -> (id: i64)
        requires
            old(self).wf(),
            old(self)@.next_id < i64::MAX,
        ensures
            final(self).wf(),
            final(self).limit() == old(self).limit(),
            id == old(self)@.next_id,
            final(self)@ == (LeaseTable { next_id: (id + 1) as i64, ..old(self)@ }),
    {
        let id: i64 = self.next_id;
        self.next_id = self.next_id + 1;
        id
    }

    /// Grant a new lease. Returns the Lease.
    pub fn grant(&mut self, id: i64, ttl: i64, expiry_time: i64) -> (r: Lease)
        requires
            old(self).wf(),
        ensures
            final(self).wf(),
            final(self).limit() == old(self).limit(),
            r == (Lease { id, ttl, granted_ttl: ttl, expiry_time }),
            final(self)@ == old(self)@.granted(id, ttl, expiry_time),
    {
        let lease = Lease::new(id, ttl, expiry_time);
        self.leases.insert(id, lease);
        self.expiry.insert((expiry_time, id));
        assert(self@ =~= old(self)@.granted(id, ttl, expiry_time));
        lease
    }

    /// Revoke a lease. Returns the lease and the set of keys that were attached.
    pub fn revoke(&mut self, id: i64) -> (r: Option<(Lease, SortedSet<Vec<u8>>)>)
        requires
            old(self).wf(),
        ensures
            final(self).wf(),
            final(self).limit() == old(self).limit(),
            final(self)@ == old(self)@.revoked(id),
            match r {
                Some((lease, keys)) => {
                    &&& old(self)@.leases.contains_key(id)
                    &&& lease == old(self)@.leases[id]
                    &&& keys.wf()
                    &&& keys@ == keys_of(old(self)@.keys, id)
                },
                None => !old(self)@.leases.contains_key(id),
            },
    {
        match self.leases.remove(&id) {
            Some(lease) => {
                self.expiry.remove(&(lease.expiry_time, id));
                let keys = match self.lease_keys.remove(&id) {
                    Some(keys) => keys,
                    None => SortedSet::new(),
                };
                assert(self@ =~= old(self)@.revoked(id));
                Some((lease, keys))
            },
            None => {
                assert(self@ =~= old(self)@);
                None
            },
        }
    }

    /// Keep-alive a lease. Returns the lease if found. Whether it is expired is
    /// not looked at here.
    pub fn keep_alive(&mut self, id: i64, new_expiry_time: i64) -> (r: Option<Lease>)
        requires
            old(self).wf(),
        ensures
            final(self).wf(),
            final(self).limit() == old(self).limit(),
            final(self)@ == old(self)@.kept_alive(id, new_expiry_time),
            match r {
                Some(lease) => old(self)@.leases.contains_key(id) && lease == (Lease {
                    expiry_time: new_expiry_time,
                    ..old(self)@.leases[id]
                }),
                None => !old(self)@.leases.contains_key(id),
            },
    {
        match self.leases.remove(&id) {
            Some(found) => {
                self.expiry.remove(&(found.expiry_time, id));
                let lease = Lease {
                    id: found.id,
                    ttl: found.ttl,
                    granted_ttl: found.granted_ttl,
                    expiry_time: new_expiry_time,
                };
                self.leases.insert(id, lease);
                self.expiry.insert((new_expiry_time, id));
                assert(self@ =~= old(self)@.kept_alive(id, new_expiry_time));
                Some(lease)
            },
            None => {
                assert(self@ =~= old(self)@);
                None
            },
        }
    }

    /// Get a lease by ID.
    pub fn get(&self, id: i64) -> (r: Option<&Lease>)
        requires
            self.wf(),
        ensures
            match r {
                Some(lease) => self@.leases.contains_key(id) && *lease == self@.leases[id],
                None => !self@.leases.contains_key(id),
            },
    {
        self.leases.get(&id)
    }

    /// Whether a lease is to be revoked now: it has expired, or it is gone.
    pub fn still_expired(&self, id: i64, now_ms: i64) -> (r: bool)
        requires
            self.wf(),
        ensures
            r == (!self@.leases.contains_key(id) || self@.leases[id].expiry_time <= now_ms),
    {
        match self.get(id) {
            Some(lease) => lease.expiry_time <= now_ms,
            None => true,
        }
    }

    /// Get keys attached to a lease.
    pub fn get_keys(&self, id: i64) -> (r: Option<&SortedSet<Vec<u8>>>)
        requires
            self.wf(),
        ensures
            match r {
                Some(keys) => self@.keys.contains_key(id) && keys@ == self@.keys[id] && keys.wf(),
                None => !self@.keys.contains_key(id),
            },
    {
        self.lease_keys.get(&id)
    }

    /// List all active lease IDs in order.
    pub fn list(&self) -> (ids: Vec<i64>)
        requires
            self.wf(),
        ensures
            ids@.to_set() == self@.leases.dom(),
            forall|i: int, j: int|
                0 <= i < j < ids@.len() ==> #[trigger] ids@[i] < #[trigger] ids@[j],
    {
        let mut ids: Vec<i64> = Vec::new();
        let n: usize = self.leases.len();
        let mut i: usize = 0;
        while i < n
            invariant
                i <= n == self.leases.keys().len(),
                ids@ == self.leases.keys().take(i as int),
            decreases n - i,
        {
            let id: i64 = *self.leases.key_at(i);
            ids.push(id);
            assert(ids@ =~= self.leases.keys().take(i + 1));
            i = i + 1;
        }
        proof {
            self.leases.entries_in_view();
            assert(ids@ =~= self.leases.keys());
        }
        ids
    }

    /// Number of active leases.
    pub fn lease_count(&self) -> (n: usize)
        requires
            self.wf(),
        ensures
            n == self@.leases.len(),
            self@.leases.dom().finite(),
    {
        self.leases.len()
    }

    /// Attach a key to a lease.
    pub fn attach_key(&mut self, lease_id: i64, key: Vec<u8>)
        requires
            old(self).wf(),
        ensures
            final(self).wf(),
            final(self).limit() == old(self).limit(),
            final(self)@ == old(self)@.attached(lease_id, key@),
    {
        let mut keys = match self.lease_keys.remove(&lease_id) {
            Some(keys) => keys,
            None => SortedSet::new(),
        };
        keys.insert(key);
        self.lease_keys.insert(lease_id, keys);
        assert(self@ =~= old(self)@.attached(lease_id, key@));
    }

    /// Detach a key from a lease.
    pub fn detach_key(&mut self, lease_id: i64, key: &[u8])
        requires
            old(self).wf(),
        ensures
            final(self).wf(),
            final(self).limit() == old(self).limit(),
            final(self)@ == old(self)@.detached(lease_id, key@),
    {
        if let Some(found) = self.lease_keys.remove(&lease_id) {
            let mut keys = found;
            keys.remove(key);
            let ghost rest = keys@;
            if keys.len() > 0 {
                assert(rest != Set::<Seq<u8>>::empty());
                self.lease_keys.insert(lease_id, keys);
            } else {
                proof {
                    keys.members_in_view();
                    assert(rest =~= Set::<Seq<u8>>::empty());
                }
            }
        }
        assert(self@ =~= old(self)@.detached(lease_id, key@));
    }

    /// IDs of the leases that are expired at `now_ms`, in the order in which they
    /// expired, without removing them.
    pub fn expired_ids_at(&self, now_ms: i64) -> (ids: Vec<i64>)
        requires
            self.wf(),
        ensures
            lists_expired(self@.expiry, now_ms, ids@),
    {
        let mut ids: Vec<i64> = Vec::new();
        let n: usize = self.expiry.len();
        let mut i: usize = 0;
        let ghost all = self.expiry.keys();
        proof {
            self.expiry.members_in_view();
            assert(ids@ =~= all.take(0).map_values(|e: (i64, i64)| e.1));
        }
        while i < n && self.expiry.key_at(i).0 <= now_ms
            invariant
                i <= n == all.len(),
                all == self.expiry.keys(),
                forall|j: int| 0 <= j < i ==> (#[trigger] all[j]).0 <= now_ms,
                ids@ == all.take(i as int).map_values(|e: (i64, i64)| e.1),
            decreases n - i,
        {
            let ghost before = ids@;
            let id: i64 = self.expiry.key_at(i).1;
            ids.push(id);
            proof {
                assert(all.take(i + 1) =~= all.take(i as int).push(all[i as int]));
                assert(all.take(i + 1).map_values(|e: (i64, i64)| e.1) =~= before.push(id));
            }
            i = i + 1;
        }
        proof {
            let entries = all.take(i as int);
            assert forall|e: (i64, i64)|
                #![trigger entries.contains(e)]
                entries.contains(e) <==> self@.expiry.contains(e) && e.0 <= now_ms by {
                if self@.expiry.contains(e) && e.0 <= now_ms {
                    let j = all.index_of(e);
                    assert(all[j] == e);
                    if j >= i {
                        assert(i < n);
                        assert(all[i as int].0 > now_ms);
                        assert(j == i || all[i as int].0 <= all[j].0);
                    }
                    assert(entries[j] == e);
                }
                if entries.contains(e) {
                    let j = entries.index_of(e);
                    assert(all[j] == e);
                }
            }
            assert(lists_entries(self@.expiry, now_ms, entries, ids@));
        }
        ids
    }

    /// Get IDs of the leases that are expired at a time, without removing them.
    /// Nothing is given if there is no time.
    pub fn expired_ids_on(&self, now: Option<i64>) -> (r: Option<Vec<i64>>)
        requires
            self.wf(),
        ensures
            expired_answer(self@.expiry, now, r),
    {
        match now {
            Some(now_ms) => Some(self.expired_ids_at(now_ms)),
            None => None,
        }
    }

    /// Get IDs of expired leases without removing them. Nothing is given if the
    /// system clock is before the Unix epoch.
    pub fn expired_ids(&self) -> (r: Option<Vec<i64>>)
        requires
            self.wf(),
        ensures
            exists|reading: Option<u128>|
                crate::clock::is_reading(reading) && #[trigger] expired_answer(
                    self@.expiry,
                    shown_millis(reading),
                    r,
                ),
    {
        let now = now_millis();
        let r = self.expired_ids_on(now);
        proof {
            let reading = choose|reading: Option<u128>|
                crate::clock::is_reading(reading) && now == #[trigger] shown_millis(reading);
            assert(expired_answer(self@.expiry, shown_millis(reading), r));
        }
        r
    }

    /// The maximal number of leases.
    pub fn max_leases(&self) -> (n: usize)
        ensures
            n == self.limit(),
    {
        self.max_leases
    }

    /// Get the current next lease ID counter without incrementing.
    pub fn next_id(&self) -> (id: i64)
        ensures
            id == self@.next_id,
    {
        self.next_id
    }

    /// The earliest expiry time, for which the expiry task is woken; the latest
    /// time there is if no lease expires.
    pub fn earliest_expiry(&self) -> (t: i64)
        requires
            self.wf(),
        ensures
            is_earliest(self@.expiry, t),
    {
        proof {
            self.expiry.members_in_view();
        }
        if self.expiry.len() == 0 {
            assert(self@.expiry =~= Set::<(i64, i64)>::empty());
            i64::MAX
        } else {
            let first = self.expiry.key_at(0);
            proof {
                let all = self.expiry.keys();
                assert(self@.expiry.contains(all[0]));
                assert(self@.expiry.contains((first.0, first.1)));
                assert forall|e: (i64, i64)| #[trigger] self@.expiry.contains(e) implies first.0
                    <= e.0 by {
                    let j = all.index_of(e);
                    assert(all[j] == e);
                    assert(j == 0 || all[0].0 <= all[j].0);
                }
            }
            first.0
        }
    }
}

/// A reading of the clock in 64 bits: the lowest 64 bits of its milliseconds,
/// which are all of them up to the latest time there is.
pub open spec fn shown_millis(reading: Option<u128>) -> Option<i64> {
    match reading {
        Some(ms) => Some(ms as i64),
        None => None,
    }
}

/// A reading of the clock in 64 bits, or nothing if there is none.
pub fn millis_shown(reading: Option<u128>) -> (r: Option<i64>)
    ensures
        r == shown_millis(reading),
        reading matches Some(ms) ==> ms <= i64::MAX ==> r is Some && r->Some_0 == ms,
{
    match reading {
        Some(ms) => Some(
            #[verifier::truncate]
            (ms as i64),
        ),
        None => None,
    }
}

/// Current time in milliseconds since Unix epoch, or nothing if the system clock
/// is before it.
pub fn now_millis() -> (r: Option<i64>)
    ensures
        exists|reading: Option<u128>|
            crate::clock::is_reading(reading) && r == #[trigger] shown_millis(reading),
{
    millis_shown(unix_millis())
}

/// How long the expiry task sleeps: until the earliest expiry time, at least a
/// tenth of a second.
pub open spec fn sleep_of(earliest: i64, now_ms: i64) -> int {
    if earliest - now_ms > 100 {
        earliest - now_ms
    } else {
        100
    }
}

/// How many milliseconds the expiry task sleeps before it looks again.
pub fn expiry_sleep_millis(earliest: i64, now_ms: i64) -> (r: u64)
    ensures
        r == sleep_of(earliest, now_ms),
{
    let gap: i128 = earliest as i128 - now_ms as i128;
    if gap > 100 {
        gap as u64
    } else {
        100
    }
}

/// Granting under a fresh identifier, revoking and keeping alive keep the
/// recorded expiry times exact.
pub proof fn expiry_stays_exact(table: LeaseTable, id: i64, ttl: i64, expiry_time: i64)
    requires
        table.exact(),
    ensures
        !table.leases.contains_key(id) ==> table.granted(id, ttl, expiry_time).exact(),
        table.revoked(id).exact(),
        table.kept_alive(id, expiry_time).exact(),
{
}

/// With exact expiry times a lease is listed as expired if and only if it is
/// active and its expiry time is not after the given time.
pub proof fn expired_are_active(table: LeaseTable, now_ms: i64, ids: Seq<i64>, id: i64)
    requires
        table.exact(),
        lists_expired(table.expiry, now_ms, ids),
    ensures
        ids.contains(id) <==> table.leases.contains_key(id) && table.leases[id].expiry_time
            <= now_ms,
        ids.no_duplicates(),
{
    let entries = choose|entries: Seq<(i64, i64)>|
        lists_entries(table.expiry, now_ms, entries, ids);
    if table.leases.contains_key(id) && table.leases[id].expiry_time <= now_ms {
        let e = (table.leases[id].expiry_time, id);
        assert(table.expiry.contains(e));
        assert(entries.contains(e));
        let j = entries.index_of(e);
        assert(ids[j] == id);
    }
    if ids.contains(id) {
        let j = ids.index_of(id);
        assert(entries.contains(entries[j]));
        assert(table.expiry.contains(entries[j]));
        assert(ids[j] == entries[j].1);
    }
    assert forall|i: int, j: int| 0 <= i < ids.len() && 0 <= j < ids.len() && i != j implies ids[i]
        != ids[j] by {
        assert(entries.contains(entries[i]) && entries.contains(entries[j]));
        assert(table.expiry.contains(entries[i]) && table.expiry.contains(entries[j]));
        assert(ids[i] == entries[i].1 && ids[j] == entries[j].1);
        if ids[i] == ids[j] {
            assert(entries[i] == entries[j]);
            if i < j {
                assert(entries[i].0 < entries[j].0 || entries[i].1 < entries[j].1);
            } else {
                assert(entries[j].0 < entries[i].0 || entries[j].1 < entries[i].1);
            }
        }
    }
}

/// A lease is not listed as expired before its expiry time, is listed from then
/// on, and is gone once revoked.
pub proof fn lease_life(
    table: LeaseTable,
    id: i64,
    ttl: i64,
    expiry_time: i64,
    now_ms: i64,
    ids: Seq<i64>,
)
    requires
        table.exact(),
        !table.leases.contains_key(id),
        lists_expired(table.granted(id, ttl, expiry_time).expiry, now_ms, ids),
    ensures
        ids.contains(id) <==> expiry_time <= now_ms,
        !table.granted(id, ttl, expiry_time).revoked(id).leases.contains_key(id),
        table.granted(id, ttl, expiry_time).revoked(id).leases == table.leases,
        table.granted(id, ttl, expiry_time).revoked(id).expiry == table.expiry,
{
    let next = table.granted(id, ttl, expiry_time);
    expiry_stays_exact(table, id, ttl, expiry_time);
    expired_are_active(next, now_ms, ids, id);
    assert(next.revoked(id).leases =~= table.leases);
    assert(!table.expiry.contains((expiry_time, id)));
    assert(next.revoked(id).expiry =~= table.expiry);
}

/// Rebuilding from leases with different identifiers gives exact expiry times, no
/// lease that is expired, and an identifier counter that never goes back.
pub proof fn restore_is_exact(
    table: LeaseTable,
    counter: i64,
    infos: Seq<LeaseInfo>,
    pairs: Seq<(i64, Seq<u8>)>,
    now_ms: i64,
)
    requires
        forall|i: int, j: int|
            0 <= i < j < infos.len() ==> (#[trigger] infos[i]).id != (#[trigger] infos[j]).id,
    ensures
        table.restored(counter, infos, pairs, now_ms).exact(),
        table.restored(counter, infos, pairs, now_ms).next_id >= table.next_id,
        table.restored(counter, infos, pairs, now_ms).next_id >= counter,
        forall|id: i64| #[trigger]
            table.restored(counter, infos, pairs, now_ms).leases.contains_key(id)
                ==> table.restored(counter, infos, pairs, now_ms).leases[id].expiry_time > now_ms,
        forall|i: int|
            0 <= i < infos.len() && (#[trigger] infos[i]).expiry_time > now_ms ==> {
                let r = table.restored(counter, infos, pairs, now_ms);
                r.leases.contains_key(infos[i].id) && r.leases[infos[i].id] == infos[i].lease()
            },
{
    live_is_exact(infos, now_ms);
}

proof fn live_is_exact(infos: Seq<LeaseInfo>, now_ms: i64)
    requires
        forall|i: int, j: int|
            0 <= i < j < infos.len() ==> (#[trigger] infos[i]).id != (#[trigger] infos[j]).id,
    ensures
        forall|id: i64| #[trigger]
            live_leases(infos, now_ms).contains_key(id) ==> {
                &&& live_leases(infos, now_ms)[id].id == id
                &&& live_leases(infos, now_ms)[id].expiry_time > now_ms
                &&& live_expiry(infos, now_ms).contains(
                    (live_leases(infos, now_ms)[id].expiry_time, id),
                )
                &&& exists|i: int| 0 <= i < infos.len() && (#[trigger] infos[i]).id == id
            },
        forall|e: (i64, i64)| #[trigger]
            live_expiry(infos, now_ms).contains(e) ==> live_leases(infos, now_ms).contains_key(e.1)
                && live_leases(infos, now_ms)[e.1].expiry_time == e.0,
        forall|i: int|
            0 <= i < infos.len() && (#[trigger] infos[i]).expiry_time > now_ms ==> live_leases(
                infos,
                now_ms,
            ).contains_key(infos[i].id) && live_leases(infos, now_ms)[infos[i].id]
                == infos[i].lease(),
    decreases infos.len(),
{
    if infos.len() > 0 {
        let rest = infos.drop_last();
        let last = infos.last();
        assert forall|i: int, j: int| 0 <= i < j < rest.len() implies (#[trigger] rest[i]).id != (
        #[trigger] rest[j]).id by {
            assert(infos[i].id != infos[j].id);
        }
        live_is_exact(rest, now_ms);
        let (a, b) = (live_leases(rest, now_ms), live_leases(infos, now_ms));
        assert(!a.contains_key(last.id)) by {
            if a.contains_key(last.id) {
                let i = choose|i: int| 0 <= i < rest.len() && (#[trigger] rest[i]).id == last.id;
                assert(infos[i].id != infos[infos.len() - 1].id);
            }
        }
        assert forall|id: i64| #[trigger] b.contains_key(id) implies exists|i: int|
            0 <= i < infos.len() && (#[trigger] infos[i]).id == id by {
            if a.contains_key(id) {
                let i = choose|i: int| 0 <= i < rest.len() && (#[trigger] rest[i]).id == id;
                assert(infos[i].id == id);
            } else {
                assert(infos[infos.len() - 1].id == id);
            }
        }
        assert forall|e: (i64, i64)| #[trigger] live_expiry(infos, now_ms).contains(e) implies
            b.contains_key(e.1) && b[e.1].expiry_time == e.0 by {
            if live_expiry(rest, now_ms).contains(e) {
                assert(a.contains_key(e.1));
            } else {
                assert(e == (last.expiry_time, last.id));
            }
        }
        assert forall|i: int| 0 <= i < infos.len() && (#[trigger] infos[i]).expiry_time > now_ms
            implies b.contains_key(infos[i].id) && b[infos[i].id] == infos[i].lease() by {
            if i < rest.len() {
                assert(rest[i] == infos[i]);
            }
        }
    }
}

/// After rebuilding, a key is attached to a lease if and only if the lease is
/// active and the pair of that lease and that key stands anywhere in the stored
/// list, whatever stands before, between or after.
pub proof fn restore_attaches_what_is_stored(
    table: LeaseTable,
    counter: i64,
    infos: Seq<LeaseInfo>,
    pairs: Seq<(i64, Seq<u8>)>,
    now_ms: i64,
    id: i64,
    key: Seq<u8>,
)
    ensures
        ({
            let r = table.restored(counter, infos, pairs, now_ms);
            (r.keys.contains_key(id) && r.keys[id].contains(key)) <==> (r.leases.contains_key(id)
                && pairs.contains((id, key)))
        }),
        ({
            let r = table.restored(counter, infos, pairs, now_ms);
            r.keys.contains_key(id) ==> r.keys[id] != Set::<Seq<u8>>::empty()
        }),
{
    attached_keys_are_stored(pairs, live_leases(infos, now_ms), id, key);
    attached_leases_have_keys(pairs, live_leases(infos, now_ms), id);
}

proof fn attached_keys_are_stored(
    pairs: Seq<(i64, Seq<u8>)>,
    leases: Map<i64, Lease>,
    id: i64,
    key: Seq<u8>,
)
    ensures
        (attached_keys(pairs, leases).contains_key(id) && attached_keys(pairs, leases)[id].contains(
            key,
        )) <==> (leases.contains_key(id) && pairs.contains((id, key))),
    decreases pairs.len(),
{
    if pairs.len() > 0 {
        let rest = pairs.drop_last();
        attached_keys_are_stored(rest, leases, id, key);
        if pairs.contains((id, key)) && pairs.last() != (id, key) {
            let i = pairs.index_of((id, key));
            assert(rest[i] == (id, key));
        }
        if rest.contains((id, key)) {
            let i = rest.index_of((id, key));
            assert(pairs[i] == (id, key));
        }
        if pairs.last() == (id, key) {
            assert(pairs[pairs.len() - 1] == (id, key));
        }
    }
}

proof fn attached_leases_have_keys(
    pairs: Seq<(i64, Seq<u8>)>,
    leases: Map<i64, Lease>,
    id: i64,
)
    ensures
        attached_keys(pairs, leases).contains_key(id) ==> attached_keys(pairs, leases)[id]
            != Set::<Seq<u8>>::empty(),
    decreases pairs.len(),
{
    if pairs.len() > 0 {
        attached_leases_have_keys(pairs.drop_last(), leases, id);
        let all = attached_keys(pairs, leases);
        if all.contains_key(id) && pairs.last().0 == id && leases.contains_key(id) {
            assert(all[id].contains(pairs.last().1));
        }
    }
}

/// After rebuilding, a lease is active if and only if it is stored with an expiry
/// time after the given time, and it then has the times to live and the expiry
/// time of the last such record of it.
pub proof fn restore_keeps_what_is_alive(
    table: LeaseTable,
    counter: i64,
    infos: Seq<LeaseInfo>,
    pairs: Seq<(i64, Seq<u8>)>,
    now_ms: i64,
    id: i64,
)
    ensures
        ({
            let r = table.restored(counter, infos, pairs, now_ms);
            &&& r.leases.contains_key(id) <==> exists|i: int|
                0 <= i < infos.len() && (#[trigger] infos[i]).id == id && infos[i].expiry_time
                    > now_ms
            &&& forall|i: int|
                0 <= i < infos.len() && (#[trigger] infos[i]).id == id && infos[i].expiry_time
                    > now_ms && (forall|j: int|
                    i < j < infos.len() ==> (#[trigger] infos[j]).id != id || infos[j].expiry_time
                        <= now_ms) ==> {
                    &&& r.leases[id].id == id
                    &&& r.leases[id].ttl == infos[i].ttl
                    &&& r.leases[id].granted_ttl == infos[i].granted_ttl
                    &&& r.leases[id].expiry_time == infos[i].expiry_time
                }
            &&& forall|t: i64| #[trigger]
                r.expiry.contains((t, id)) <==> t > now_ms && exists|i: int|
                    0 <= i < infos.len() && (#[trigger] infos[i]).id == id && infos[i].expiry_time
                        == t
            &&& r.next_id == counter || r.next_id == table.next_id
            &&& r.next_id >= counter && r.next_id >= table.next_id
        }),
{
    active_if_stored_alive(infos, now_ms, id);
    assert forall|i: int|
        0 <= i < infos.len() && (#[trigger] infos[i]).id == id && infos[i].expiry_time > now_ms && (
        forall|j: int|
            i < j < infos.len() ==> (#[trigger] infos[j]).id != id || infos[j].expiry_time
                <= now_ms) implies live_leases(infos, now_ms)[id] == infos[i].lease() by {
        last_alive_stays(infos, now_ms, i);
    }
    assert forall|t: i64| #[trigger]
        live_expiry(infos, now_ms).contains((t, id)) <==> t > now_ms && exists|i: int|
            0 <= i < infos.len() && (#[trigger] infos[i]).id == id && infos[i].expiry_time
                == t by {
        recorded_if_stored_alive(infos, now_ms, t, id);
    }
}

proof fn active_if_stored_alive(infos: Seq<LeaseInfo>, now_ms: i64, id: i64)
    ensures
        live_leases(infos, now_ms).contains_key(id) <==> exists|i: int|
            0 <= i < infos.len() && (#[trigger] infos[i]).id == id && infos[i].expiry_time > now_ms,
    decreases infos.len(),
{
    if infos.len() > 0 {
        let rest = infos.drop_last();
        active_if_stored_alive(rest, now_ms, id);
        if live_leases(rest, now_ms).contains_key(id) {
            let i = choose|i: int|
                0 <= i < rest.len() && (#[trigger] rest[i]).id == id && rest[i].expiry_time
                    > now_ms;
            assert(infos[i] == rest[i]);
        } else if live_leases(infos, now_ms).contains_key(id) {
            assert(infos[infos.len() - 1].id == id);
        } else {
            assert forall|i: int| 0 <= i < infos.len() implies !((#[trigger] infos[i]).id == id
                && infos[i].expiry_time > now_ms) by {
                if i < rest.len() {
                    assert(rest[i] == infos[i]);
                }
            }
        }
    }
}

proof fn last_alive_stays(infos: Seq<LeaseInfo>, now_ms: i64, i: int)
    requires
        0 <= i < infos.len(),
        infos[i].expiry_time > now_ms,
        forall|j: int|
            i < j < infos.len() ==> (#[trigger] infos[j]).id != infos[i].id || infos[j].expiry_time
                <= now_ms,
    ensures
        live_leases(infos, now_ms)[infos[i].id] == infos[i].lease(),
    decreases infos.len(),
{
    if i < infos.len() - 1 {
        let rest = infos.drop_last();
        assert forall|j: int| i < j < rest.len() implies (#[trigger] rest[j]).id != rest[i].id
            || rest[j].expiry_time <= now_ms by {
            assert(infos[j] == rest[j]);
        }
        last_alive_stays(rest, now_ms, i);
        assert(infos[infos.len() - 1].id != infos[i].id || infos.last().expiry_time <= now_ms);
    }
}

proof fn recorded_if_stored_alive(infos: Seq<LeaseInfo>, now_ms: i64, t: i64, id: i64)
    ensures
        live_expiry(infos, now_ms).contains((t, id)) <==> t > now_ms && exists|i: int|
            0 <= i < infos.len() && (#[trigger] infos[i]).id == id && infos[i].expiry_time == t,
    decreases infos.len(),
{
    if infos.len() > 0 {
        let rest = infos.drop_last();
        recorded_if_stored_alive(rest, now_ms, t, id);
        if live_expiry(rest, now_ms).contains((t, id)) {
            let i = choose|i: int|
                0 <= i < rest.len() && (#[trigger] rest[i]).id == id && rest[i].expiry_time == t;
            assert(infos[i] == rest[i]);
        } else if live_expiry(infos, now_ms).contains((t, id)) {
            assert(infos[infos.len() - 1].id == id);
        } else if t > now_ms {
            assert forall|i: int| 0 <= i < infos.len() implies !((#[trigger] infos[i]).id == id
                && infos[i].expiry_time == t) by {
                if i < rest.len() {
                    assert(rest[i] == infos[i]);
                }
            }
        }
    }
}

/// What happens to one lease leaves every other lease as it was, with its keys.
pub proof fn leases_are_independent(
    table: LeaseTable,
    id: i64,
    other: i64,
    ttl: i64,
    expiry_time: i64,
    key: Seq<u8>,
)
    requires
        id != other,
    ensures
        forall|next: LeaseTable|
            next == table.granted(id, ttl, expiry_time) || next == table.revoked(id) || next
                == table.kept_alive(id, expiry_time) || next == table.attached(id, key) || next
                == table.detached(id, key) ==> {
                &&& #[trigger] next.leases.contains_key(other) == table.leases.contains_key(other)
                &&& next.leases[other] == table.leases[other]
                &&& next.keys.contains_key(other) == table.keys.contains_key(other)
                &&& next.keys[other] == table.keys[other]
                &&& forall|t: i64| #[trigger]
                    next.expiry.contains((t, other)) == table.expiry.contains((t, other))
                &&& next.next_id == table.next_id
            },
{
}

/// A lease that is granted is active with the time to live that was granted, both
/// as it is now and as it was given, and expires when it was said to. Keys that
/// were attached stay attached.
pub proof fn granting_activates(table: LeaseTable, id: i64, ttl: i64, expiry_time: i64)
    ensures
        ({
            let next = table.granted(id, ttl, expiry_time);
            &&& next.leases.contains_key(id)
            &&& next.leases[id].id == id
            &&& next.leases[id].ttl == ttl
            &&& next.leases[id].granted_ttl == ttl
            &&& next.leases[id].expiry_time == expiry_time
            &&& next.expiry.contains((expiry_time, id))
            &&& forall|t: i64|
                t != expiry_time ==> #[trigger] next.expiry.contains((t, id))
                    == table.expiry.contains((t, id))
            &&& next.keys == table.keys
        }),
{
}

/// Keeping an active lease alive moves its expiry time and nothing else: the times
/// to live and the keys stay. A lease that is not active is not revived.
pub proof fn keeping_alive_moves_the_expiry(table: LeaseTable, id: i64, expiry_time: i64)
    ensures
        ({
            let next = table.kept_alive(id, expiry_time);
            &&& next.keys == table.keys
            &&& next.leases.contains_key(id) == table.leases.contains_key(id)
            &&& table.leases.contains_key(id) ==> {
                &&& next.leases[id].expiry_time == expiry_time
                &&& next.leases[id].id == table.leases[id].id
                &&& next.leases[id].ttl == table.leases[id].ttl
                &&& next.leases[id].granted_ttl == table.leases[id].granted_ttl
                &&& next.expiry.contains((expiry_time, id))
                &&& table.leases[id].expiry_time != expiry_time ==> !next.expiry.contains(
                    (table.leases[id].expiry_time, id),
                )
            }
            &&& !table.leases.contains_key(id) ==> next == table
        }),
{
}

/// Revoking an active lease takes it out with its keys and its recorded expiry
/// time; a second time changes nothing.
pub proof fn revoking_takes_all_out(table: LeaseTable, id: i64)
    ensures
        ({
            let next = table.revoked(id);
            &&& !next.leases.contains_key(id)
            &&& table.leases.contains_key(id) ==> !next.keys.contains_key(id)
                && !next.expiry.contains((table.leases[id].expiry_time, id))
            &&& !table.leases.contains_key(id) ==> next == table
            &&& next.revoked(id) == next
        }),
{
}

/// Attaching a key adds that key to the keys of the lease, and detaching it takes
/// that key out; every other key stays, and so do the leases. A lease from which
/// the last key was detached has no keys recorded.
pub proof fn keys_come_and_go(table: LeaseTable, id: i64, key: Seq<u8>, other: Seq<u8>)
    ensures
        ({
            let next = table.attached(id, key);
            &&& next.keys.contains_key(id) && next.keys[id].contains(key)
            &&& other != key ==> (next.keys[id].contains(other) <==> table.keys.contains_key(id)
                && table.keys[id].contains(other))
            &&& next.leases == table.leases && next.expiry == table.expiry
        }),
        ({
            let next = table.detached(id, key);
            &&& !(next.keys.contains_key(id) && next.keys[id].contains(key))
            &&& other != key ==> ((next.keys.contains_key(id) && next.keys[id].contains(other))
                <==> (table.keys.contains_key(id) && table.keys[id].contains(other)))
            &&& table.keys.contains_key(id) && next.keys.contains_key(id) ==> next.keys[id]
                != Set::<Seq<u8>>::empty()
            &&& next.leases == table.leases && next.expiry == table.expiry
        }),
{
    let next = table.detached(id, key);
    if table.keys.contains_key(id) {
        let rest = table.keys[id].remove(key);
        assert(rest.contains(other) == (table.keys[id].contains(other) && other != key));
        if rest == Set::<Seq<u8>>::empty() {
            assert(!rest.contains(other));
        }
    }
}

/// No lease is expired before the earliest expiry time, and some lease is at it,
/// unless none expires at all.
pub proof fn earliest_is_when_something_expires(
    expiry: Set<(i64, i64)>,
    t: i64,
    now_ms: i64,
    ids: Seq<i64>,
)
    requires
        is_earliest(expiry, t),
        lists_expired(expiry, now_ms, ids),
    ensures
        now_ms < t ==> ids.len() == 0,
        now_ms >= t && !(forall|e: (i64, i64)| !#[trigger] expiry.contains(e)) ==> ids.len() > 0,
        (forall|e: (i64, i64)| !#[trigger] expiry.contains(e)) ==> t == i64::MAX,
{
    let entries = choose|entries: Seq<(i64, i64)>| lists_entries(expiry, now_ms, entries, ids);
    if forall|e: (i64, i64)| !#[trigger] expiry.contains(e) {
        assert(expiry =~= Set::<(i64, i64)>::empty());
    }
    if now_ms < t && ids.len() > 0 {
        assert(entries.contains(entries[0]));
        assert(expiry.contains(entries[0]));
    }
    if now_ms >= t && !(forall|e: (i64, i64)| !#[trigger] expiry.contains(e)) {
        let id = choose|id: i64| #[trigger] expiry.contains((t, id));
        assert(entries.contains((t, id)));
    }
}

/// A lease whose recorded expiry time is not after another's stands before it in
/// the list of expired leases, or at it: the list goes by expiry times, and among
/// equal ones by identifiers, and holds every entry that is due.
pub proof fn expired_in_order(expiry: Set<(i64, i64)>, now_ms: i64, ids: Seq<i64>)
    requires
        lists_expired(expiry, now_ms, ids),
    ensures
        exists|times: Seq<i64>|
            {
                &&& #[trigger] times.len() == ids.len()
                &&& forall|i: int|
                    0 <= i < ids.len() ==> #[trigger] times[i] <= now_ms && expiry.contains(
                        (times[i], ids[i]),
                    )
                &&& forall|i: int, j: int|
                    0 <= i < j < ids.len() ==> {
                        ||| #[trigger] times[i] < #[trigger] times[j]
                        ||| times[i] == times[j] && ids[i] < ids[j]
                    }
                &&& forall|t: i64, id: i64|
                    t <= now_ms && #[trigger] expiry.contains((t, id)) ==> exists|i: int|
                        0 <= i < ids.len() && #[trigger] times[i] == t && ids[i] == id
            },
{
    let entries = choose|entries: Seq<(i64, i64)>| lists_entries(expiry, now_ms, entries, ids);
    let times = entries.map_values(|e: (i64, i64)| e.0);
    assert(times.len() == ids.len());
    assert forall|i: int| 0 <= i < ids.len() implies #[trigger] times[i] <= now_ms
        && expiry.contains((times[i], ids[i])) by {
        assert(entries.contains(entries[i]));
        assert(entries[i] == (times[i], ids[i]));
    }
    assert forall|i: int, j: int| 0 <= i < j < ids.len() implies {
        ||| #[trigger] times[i] < #[trigger] times[j]
        ||| times[i] == times[j] && ids[i] < ids[j]
    } by {
        assert(entries[i] == (times[i], ids[i]));
        assert(entries[j] == (times[j], ids[j]));
    }
    assert forall|t: i64, id: i64| t <= now_ms && #[trigger] expiry.contains((t, id)) implies exists|
        i: int,
    | 0 <= i < ids.len() && #[trigger] times[i] == t && ids[i] == id by {
        assert(entries.contains((t, id)));
        let i = entries.index_of((t, id));
        assert(times[i] == t && ids[i] == id);
    }
}

/// The expiry task sleeps at least a tenth of a second, never wakes before a
/// lease that is further off has expired, and then wakes just when it does.
pub proof fn sleeps_until_something_expires(earliest: i64, now_ms: i64)
    ensures
        sleep_of(earliest, now_ms) >= 100,
        now_ms + sleep_of(earliest, now_ms) >= earliest,
        sleep_of(earliest, now_ms) > 100 ==> now_ms + sleep_of(earliest, now_ms) == earliest,
{
}

/// A reading of the clock is shown if and only if there is one, and as it is up to
/// the latest time there is.
pub proof fn readings_are_shown(reading: Option<u128>)
    ensures
        shown_millis(reading) is Some <==> reading is Some,
        reading matches Some(ms) ==> ms <= i64::MAX ==> shown_millis(reading)->Some_0 as int
            == ms as int,
{
}

/// Without a time it is not said which leases are expired; with one it is.
pub proof fn expiry_needs_a_time(expiry: Set<(i64, i64)>, now: Option<i64>, r: Option<Vec<i64>>)
    requires
        expired_answer(expiry, now, r),
    ensures
        r is Some <==> now is Some,
        r is Some ==> lists_expired(expiry, now->Some_0, r->Some_0@),
{
}

} // verus!
