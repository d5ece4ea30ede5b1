//! Sorted collections: a map and a set over keys with a total order.

use vstd::prelude::*;

use crate::bytes::{lex_order, Order};

verus! {

/// A key with a total order on what it stands for. A key can be looked up by a
/// borrowed form of itself.
pub trait OrdKey: View + Sized {
    type Query: ?Sized;

    /// What a borrowed form stands for.
    spec fn meaning(q: &Self::Query) -> Self::V;

    /// The strict order on what keys stand for.
    spec fn precedes(a: Self::V, b: Self::V) -> bool;

    proof fn irreflexive(a: Self::V)
        ensures
            !Self::precedes(a, a),
    ;

    proof fn transitive(a: Self::V, b: Self::V, c: Self::V)
        requires
            Self::precedes(a, b),
            Self::precedes(b, c),
        ensures
            Self::precedes(a, c),
    ;

    proof fn total(a: Self::V, b: Self::V)
        ensures
            a == b || Self::precedes(a, b) || Self::precedes(b, a),
    ;

    /// The borrowed form of a key.
    fn as_query(&self) -> (q: &Self::Query)
        ensures
            Self::meaning(q) == self@,
    ;

    /// How this key stands to a borrowed one.
    fn order(&self, q: &Self::Query) -> (o: Order)
        ensures
            o == Order::Less <==> Self::precedes(self@, Self::meaning(q)),
            o == Order::Equal <==> self@ == Self::meaning(q),
            o == Order::Greater <==> Self::precedes(Self::meaning(q), self@),
    ;
}

impl OrdKey for Vec<u8> {
    type Query = [u8];

    open spec fn meaning(q: &[u8]) -> Seq<u8> {
        q@
    }

    open spec fn precedes(a: Seq<u8>, b: Seq<u8>) -> bool {
        crate::bytes::lex_lt(a, b)
    }

    proof fn irreflexive(a: Seq<u8>) {
        crate::bytes::lex_irreflexive(a);
    }

    proof fn transitive(a: Seq<u8>, b: Seq<u8>, c: Seq<u8>) {
        crate::bytes::lex_transitive(a, b, c);
    }

    proof fn total(a: Seq<u8>, b: Seq<u8>) {
        crate::bytes::lex_total(a, b);
    }

    fn as_query(&self) -> (q: &[u8]) {
        self.as_slice()
    }

    fn order(&self, q: &[u8]) -> (o: Order) {
        lex_order(self.as_slice(), q)
    }
}

impl OrdKey for i64 {
    type Query = i64;

    open spec fn meaning(q: &i64) -> i64 {
        *q
    }

    open spec fn precedes(a: i64, b: i64) -> bool {
        a < b
    }

    proof fn irreflexive(a: i64) {
    }

    proof fn transitive(a: i64, b: i64, c: i64) {
    }

    proof fn total(a: i64, b: i64) {
    }

    fn as_query(&self) -> (q: &i64) {
        self
    }

    fn order(&self, q: &i64) -> (o: Order) {
        if *self < *q {
            Order::Less
        } else if *self == *q {
            Order::Equal
        } else {
            Order::Greater
        }
    }
}

impl OrdKey for (i64, i64) {
    type Query = (i64, i64);

    open spec fn meaning(q: &(i64, i64)) -> (i64, i64) {
        *q
    }

    open spec fn precedes(a: (i64, i64), b: (i64, i64)) -> bool {
        a.0 < b.0 || (a.0 == b.0 && a.1 < b.1)
    }

    proof fn irreflexive(a: (i64, i64)) {
    }

    proof fn transitive(a: (i64, i64), b: (i64, i64), c: (i64, i64)) {
    }

    proof fn total(a: (i64, i64), b: (i64, i64)) {
    }

    fn as_query(&self) -> (q: &(i64, i64)) {
        self
    }

    fn order(&self, q: &(i64, i64)) -> (o: Order) {
        if self.0 < q.0 || (self.0 == q.0 && self.1 < q.1) {
            Order::Less
        } else if self.0 == q.0 && self.1 == q.1 {
            Order::Equal
        } else {
            Order::Greater
        }
    }
}

impl OrdKey for String {
    type Query = str;

    open spec fn meaning(q: &str) -> Seq<char> {
        q@
    }

    /// Texts are ordered by their UTF-8 bytes.
    open spec fn precedes(a: Seq<char>, b: Seq<char>) -> bool {
        crate::bytes::lex_lt(vstd::utf8::encode_utf8(a), vstd::utf8::encode_utf8(b))
    }

    proof fn irreflexive(a: Seq<char>) {
        crate::bytes::lex_irreflexive(vstd::utf8::encode_utf8(a));
    }

    proof fn transitive(a: Seq<char>, b: Seq<char>, c: Seq<char>) {
        crate::bytes::lex_transitive(
            vstd::utf8::encode_utf8(a),
            vstd::utf8::encode_utf8(b),
            vstd::utf8::encode_utf8(c),
        );
    }

    proof fn total(a: Seq<char>, b: Seq<char>) {
        crate::bytes::lex_total(vstd::utf8::encode_utf8(a), vstd::utf8::encode_utf8(b));
        vstd::utf8::encode_utf8_decode_utf8(a);
        vstd::utf8::encode_utf8_decode_utf8(b);
    }

    fn as_query(&self) -> (q: &str) {
        self.as_str()
    }

    fn order(&self, q: &str) -> (o: Order) {
        proof {
            vstd::utf8::encode_utf8_decode_utf8(self@);
            vstd::utf8::encode_utf8_decode_utf8(q@);
        }
        lex_order(self.as_str().as_bytes(), q.as_bytes())
    }
}

/// A map as a vector of entries in the order of their keys.
pub struct SortedMap<K, W> {
    entries: Vec<(K, W)>,
}

impl<K: OrdKey, W: View> SortedMap<K, W> {
    /// The keys in order.
    pub closed spec fn keys(&self) -> Seq<K::V> {
        Seq::new(self.entries@.len(), |i: int| self.entries@[i].0@)
    }

    /// The values in the order of their keys.
    pub closed spec fn values(&self) -> Seq<W> {
        Seq::new(self.entries@.len(), |i: int| self.entries@[i].1)
    }

    /// The keys are strictly ordered.
    pub open spec fn wf(&self) -> bool {
        forall|i: int, j: int|
            0 <= i < j < self.keys().len() ==> K::precedes(
                #[trigger] self.keys()[i],
                #[trigger] self.keys()[j],
            )
    }
}

impl<K: OrdKey, W: View> View for SortedMap<K, W> {
    type V = Map<K::V, W::V>;

    open spec fn view(&self) -> Map<K::V, W::V> {
        Map::new(
            |k: K::V| self.keys().contains(k),
            |k: K::V| self.values()[self.keys().index_of(k)]@,
        )
    }
}

impl<K: OrdKey, W: View> SortedMap<K, W> {
    /// What the map holds at each place, and how many entries it has.
    pub proof fn entries_in_view(&self)
        requires
            self.wf(),
        ensures
            self.keys().no_duplicates(),
            self.values().len() == self.keys().len(),
            self@.dom() == self.keys().to_set(),
            self@.dom().finite(),
            self@.len() == self.keys().len(),
            forall|i: int|
                0 <= i < self.keys().len() ==> self@.contains_key(#[trigger] self.keys()[i])
                    && self@[self.keys()[i]] == self.values()[i]@,
    {
        let keys = self.keys();
        assert forall|i: int, j: int| 0 <= i < keys.len() && 0 <= j < keys.len() && i != j implies keys[i]
            != keys[j] by {
            K::irreflexive(keys[i]);
            if i < j {
                assert(K::precedes(keys[i], keys[j]));
            } else {
                assert(K::precedes(keys[j], keys[i]));
            }
        }
        assert(self@.dom() =~= keys.to_set());
        keys.unique_seq_to_set();
        assert forall|i: int| 0 <= i < keys.len() implies self@.contains_key(#[trigger] keys[i])
            && self@[keys[i]] == self.values()[i]@ by {
            assert(keys.contains(keys[i]));
            let j = keys.index_of(keys[i]);
            assert(keys[j] == keys[i]);
            assert(i == j);
        }
    }

    /// An empty map.
    pub fn new() -> (m: Self)
        ensures
            m.wf(),
            m@ == Map::<K::V, W::V>::empty(),
    {
        let m = SortedMap { entries: Vec::new() };
        assert(m@ =~= Map::<K::V, W::V>::empty());
        m
    }

    /// The number of entries.
    pub fn len(&self) -> (n: usize)
        requires
            self.wf(),
        ensures
            n == self@.len(),
            n == self.keys().len(),
            self@.dom().finite(),
    {
        proof {
            self.entries_in_view();
        }
        self.entries.len()
    }

    /// The key at a place in the order.
    pub fn key_at(&self, i: usize) -> (k: &K)
        requires
            i < self.keys().len(),
        ensures
            k@ == self.keys()[i as int],
    {
        &self.entries[i].0
    }

    /// The value at a place in the order of keys.
    pub fn value_at(&self, i: usize) -> (w: &W)
        requires
            i < self.keys().len(),
        ensures
            *w == self.values()[i as int],
    {
        &self.entries[i].1
    }

    /// The place of a key, or where it would have to stand.
    fn find(&self, q: &K::Query) -> (r: Result<usize, usize>)
        requires
            self.wf(),
        ensures
            match r {
                Ok(i) => i < self.keys().len() && self.keys()[i as int] == K::meaning(q),
                Err(i) => {
                    &&& i <= self.keys().len()
                    &&& forall|j: int|
                        0 <= j < i ==> K::precedes(#[trigger] self.keys()[j], K::meaning(q))
                    &&& forall|j: int|
                        i <= j < self.keys().len() ==> K::precedes(
                            K::meaning(q),
                            #[trigger] self.keys()[j],
                        )
                },
            },
    {
        let mut lo: usize = 0;
        let mut hi: usize = self.entries.len();
        let ghost k = K::meaning(q);
        while lo < hi
            invariant
                self.wf(),
                k == K::meaning(q),
                lo <= hi <= self.keys().len(),
                self.entries@.len() == self.keys().len(),
                forall|j: int| 0 <= j < lo ==> K::precedes(#[trigger] self.keys()[j], k),
                forall|j: int|
                    hi <= j < self.keys().len() ==> K::precedes(k, #[trigger] self.keys()[j]),
            decreases hi - lo,
        {
            let mid: usize = lo + (hi - lo) / 2;
            let ghost here = self.keys()[mid as int];
            match self.entries[mid].0.order(q) {
                Order::Less => {
                    assert forall|j: int| 0 <= j < mid + 1 implies K::precedes(
                        #[trigger] self.keys()[j],
                        k,
                    ) by {
                        if j < mid {
                            K::transitive(self.keys()[j], here, k);
                        }
                    }
                    lo = mid + 1;
                },
                Order::Equal => {
                    return Ok(mid);
                },
                Order::Greater => {
                    assert forall|j: int| mid <= j < self.keys().len() implies K::precedes(
                        k,
                        #[trigger] self.keys()[j],
                    ) by {
                        if mid < j {
                            K::transitive(k, here, self.keys()[j]);
                        }
                    }
                    hi = mid;
                },
            }
        }
        Err(lo)
    }

    proof fn absent(&self, k: K::V, i: int)
        requires
            self.wf(),
            0 <= i <= self.keys().len(),
            forall|j: int| 0 <= j < i ==> K::precedes(#[trigger] self.keys()[j], k),
            forall|j: int|
                i <= j < self.keys().len() ==> K::precedes(k, #[trigger] self.keys()[j]),
        ensures
            !self.keys().contains(k),
    {
        K::irreflexive(k);
    }

    /// The value of a key.
    pub fn get(&self, q: &K::Query) -> (r: Option<&W>)
        requires
            self.wf(),
        ensures
            match r {
                Some(w) => self@.contains_key(K::meaning(q)) && w@ == self@[K::meaning(q)]
                    && self.values().contains(*w),
                None => !self@.contains_key(K::meaning(q)),
            },
    {
        match self.find(q) {
            Ok(i) => {
                proof {
                    self.entries_in_view();
                    assert(self.values()[i as int] == self.entries@[i as int].1);
                }
                Some(&self.entries[i].1)
            },
            Err(i) => {
                proof {
                    self.absent(K::meaning(q), i as int);
                }
                None
            },
        }
    }

    /// Whether the key has a value.
    pub fn contains_key(&self, q: &K::Query) -> (r: bool)
        requires
            self.wf(),
        ensures
            r == self@.contains_key(K::meaning(q)),
    {
        self.get(q).is_some()
    }

    /// Gives the key a value, and hands back the one that it had.
    pub fn insert(&mut self, k: K, w: W) -> (r: Option<W>)
        requires
            old(self).wf(),
        ensures
            final(self).wf(),
            final(self)@ == old(self)@.insert(k@, w@),
            forall|x: W|
                final(self).values().contains(x) ==> x == w || old(self).values().contains(x),
            match r {
                Some(x) => old(self)@.contains_key(k@) && x@ == old(self)@[k@]
                    && old(self).values().contains(x),
                None => !old(self)@.contains_key(k@),
            },
    {
        let ghost before = *self;
        match self.find(k.as_query()) {
            Ok(i) => {
                let mut slot = (k, w);
                std::mem::swap(&mut self.entries[i], &mut slot);
                proof {
                    let keys = before.keys();
                    before.entries_in_view();
                    assert(self.keys() =~= keys);
                    self.entries_in_view();
                    assert(self.values() =~= before.values().update(i as int, w));
                    assert(before.values()[i as int] == slot.1);
                    let m = before@.insert(k@, w@);
                    assert forall|x: K::V| self@.contains_key(x) == m.contains_key(x) by {}
                    assert forall|x: K::V| self@.contains_key(x) implies self@[x] == m[x] by {
                        let j = keys.index_of(x);
                        assert(keys[j] == x);
                        assert(self@[self.keys()[j]] == self.values()[j]@);
                        assert(before@[keys[j]] == before.values()[j]@);
                        if j == i {
                            assert(x == k@);
                        } else {
                            assert(x != k@);
                        }
                    }
                    assert(self@ =~= m);
                }
                Some(slot.1)
            },
            Err(i) => {
                self.entries.insert(i, (k, w));
                proof {
                    let keys = before.keys();
                    before.absent(k@, i as int);
                    before.entries_in_view();
                    assert(self.keys() =~= keys.insert(i as int, k@));
                    let values = before.values();
                    assert(self.values() =~= values.insert(i as int, w));
                    assert forall|x: W| self.values().contains(x) implies x == w || values.contains(
                        x,
                    ) by {
                        let j = self.values().index_of(x);
                        if j != i {
                            let jj = if j < i { j } else { j - 1 };
                            assert(values[jj] == x);
                        }
                    }
                    assert(self.wf()) by {
                        assert forall|a: int, b: int| 0 <= a < b < self.keys().len() implies K::precedes(
                            #[trigger] self.keys()[a],
                            #[trigger] self.keys()[b],
                        ) by {
                            let oa = if a < i { a } else { a - 1 };
                            let ob = if b < i { b } else { b - 1 };
                            if a == i {
                                assert(self.keys()[b] == keys[ob]);
                            } else if b == i {
                                assert(self.keys()[a] == keys[oa]);
                            } else {
                                assert(self.keys()[a] == keys[oa]);
                                assert(self.keys()[b] == keys[ob]);
                            }
                        }
                    }
                    self.entries_in_view();
                    let m = before@.insert(k@, w@);
                    assert forall|x: K::V| self@.contains_key(x) == m.contains_key(x) by {
                        if keys.contains(x) {
                            let j = keys.index_of(x);
                            let jj = if j < i { j } else { j + 1 };
                            assert(self.keys()[jj] == x);
                        }
                        if x == k@ {
                            assert(self.keys()[i as int] == x);
                        }
                        if self.keys().contains(x) && x != k@ {
                            let j = self.keys().index_of(x);
                            let jj = if j < i { j } else { j - 1 };
                            assert(keys[jj] == x);
                        }
                    }
                    assert forall|x: K::V| self@.contains_key(x) implies self@[x] == m[x] by {
                        let j = self.keys().index_of(x);
                        assert(self.keys()[j] == x);
                        assert(self@[self.keys()[j]] == self.values()[j]@);
                        if j != i {
                            let jj = if j < i { j } else { j - 1 };
                            assert(keys[jj] == x);
                            assert(before@[keys[jj]] == before.values()[jj]@);
                        }
                    }
                    assert(self@ =~= m);
                }
                None
            },
        }
    }

    /// Takes the key out, and hands back the value that it had.
    pub fn remove(&mut self, q: &K::Query) -> (r: Option<W>)
        requires
            old(self).wf(),
        ensures
            final(self).wf(),
            final(self)@ == old(self)@.remove(K::meaning(q)),
            forall|x: W| final(self).values().contains(x) ==> old(self).values().contains(x),
            match r {
                Some(w) => old(self)@.contains_key(K::meaning(q)) && w@ == old(self)@[K::meaning(q)]
                    && old(self).values().contains(w),
                None => !old(self)@.contains_key(K::meaning(q)),
            },
    {
        let ghost before = *self;
        let ghost k = K::meaning(q);
        match self.find(q) {
            Ok(i) => {
                let entry = self.entries.remove(i);
                proof {
                    let keys = before.keys();
                    before.entries_in_view();
                    assert(self.keys() =~= keys.remove(i as int));
                    let values = before.values();
                    assert(self.values() =~= values.remove(i as int));
                    assert(values[i as int] == entry.1);
                    assert forall|x: W| self.values().contains(x) implies values.contains(x) by {
                        let j = self.values().index_of(x);
                        let jj = if j < i { j } else { j + 1 };
                        assert(values[jj] == x);
                    }
                    assert(self.wf()) by {
                        assert forall|a: int, b: int| 0 <= a < b < self.keys().len() implies K::precedes(
                            #[trigger] self.keys()[a],
                            #[trigger] self.keys()[b],
                        ) by {
                            let oa = if a < i { a } else { a + 1 };
                            let ob = if b < i { b } else { b + 1 };
                            assert(self.keys()[a] == keys[oa]);
                            assert(self.keys()[b] == keys[ob]);
                        }
                    }
                    self.entries_in_view();
                    let m = before@.remove(k);
                    assert forall|x: K::V| self@.contains_key(x) == m.contains_key(x) by {
                        if keys.contains(x) && x != k {
                            let j = keys.index_of(x);
                            let jj = if j < i { j } else { j - 1 };
                            assert(self.keys()[jj] == x);
                        }
                        if self.keys().contains(x) {
                            let j = self.keys().index_of(x);
                            let jj = if j < i { j } else { j + 1 };
                            assert(keys[jj] == x);
                        }
                    }
                    assert forall|x: K::V| self@.contains_key(x) implies self@[x] == m[x] by {
                        let j = self.keys().index_of(x);
                        assert(self.keys()[j] == x);
                        assert(self@[self.keys()[j]] == self.values()[j]@);
                        let jj = if j < i { j } else { j + 1 };
                        assert(keys[jj] == x);
                        assert(before@[keys[jj]] == before.values()[jj]@);
                    }
                    assert(self@ =~= m);
                }
                Some(entry.1)
            },
            Err(i) => {
                proof {
                    self.absent(k, i as int);
                    assert(self@.remove(k) =~= self@);
                }
                None
            },
        }
    }
}

/// A set as a vector of members in order.
pub struct SortedSet<K> {
    members: SortedMap<K, ()>,
}

impl<K: OrdKey> SortedSet<K> {
    /// The members in order.
    pub closed spec fn keys(&self) -> Seq<K::V> {
        self.members.keys()
    }

    /// The members are strictly ordered.
    pub closed spec fn wf(&self) -> bool {
        self.members.wf()
    }
}

impl<K: OrdKey> View for SortedSet<K> {
    type V = Set<K::V>;

    open spec fn view(&self) -> Set<K::V> {
        self.keys().to_set()
    }
}

impl<K: OrdKey> SortedSet<K> {
    /// The members stand in order, each once.
    pub proof fn members_in_view(&self)
        requires
            self.wf(),
        ensures
            self.keys().no_duplicates(),
            self@.finite(),
            self@.len() == self.keys().len(),
            forall|i: int, j: int|
                0 <= i < j < self.keys().len() ==> K::precedes(
                    #[trigger] self.keys()[i],
                    #[trigger] self.keys()[j],
                ),
    {
        self.members.entries_in_view();
    }

    /// An empty set.
    pub fn new() -> (s: Self)
        ensures
            s.wf(),
            s@ == Set::<K::V>::empty(),
    {
        let s = SortedSet { members: SortedMap::new() };
        proof {
            s.members.entries_in_view();
        }
        s
    }

    /// The number of members.
    pub fn len(&self) -> (n: usize)
        requires
            self.wf(),
        ensures
            n == self@.len(),
            n == self.keys().len(),
            self@.finite(),
    {
        proof {
            self.members.entries_in_view();
        }
        self.members.len()
    }

    /// The member at a place in the order.
    pub fn key_at(&self, i: usize) -> (k: &K)
        requires
            i < self.keys().len(),
        ensures
            k@ == self.keys()[i as int],
    {
        self.members.key_at(i)
    }

    /// Whether the key is a member.
    pub fn contains(&self, q: &K::Query) -> (r: bool)
        requires
            self.wf(),
        ensures
            r == self@.contains(K::meaning(q)),
    {
        proof {
            self.members.entries_in_view();
        }
        self.members.contains_key(q)
    }

    /// Makes the key a member.
    pub fn insert(&mut self, k: K)
        requires
            old(self).wf(),
        ensures
            final(self).wf(),
            final(self)@ == old(self)@.insert(k@),
    {
        proof {
            self.members.entries_in_view();
        }
        self.members.insert(k, ());
        proof {
            self.members.entries_in_view();
            assert(self@ =~= old(self)@.insert(k@));
        }
    }

    /// Takes the key out. Says whether it was a member.
    pub fn remove(&mut self, q: &K::Query) -> (r: bool)
        requires
            old(self).wf(),
        ensures
            final(self).wf(),
            final(self)@ == old(self)@.remove(K::meaning(q)),
            r == old(self)@.contains(K::meaning(q)),
    {
        proof {
            self.members.entries_in_view();
        }
        let r = self.members.remove(q);
        proof {
            self.members.entries_in_view();
            assert(self@ =~= old(self)@.remove(K::meaning(q)));
        }
        r.is_some()
    }
}

} // verus!
