//! A map that keeps its keys in order, as the account state needs it: what
//! it holds comes out in increasing order of the keys.

use crate::address::{lemma_address_value_injective, Address};
use crate::word::{lemma_value_injective, Word};
use vstd::prelude::*;

verus! {

/// A key with a total order, given by a number that tells keys apart.
pub trait Key: Copy {
    /// The number by which keys are ordered.
    spec fn rank(self) -> nat;

    /// Keys with the same number are the same key.
    proof fn lemma_rank_injective(a: Self, b: Self)
        requires
            a.rank() == b.rank(),
        ensures
            a == b,
    ;

    /// Whether `self` comes before `other`.
    fn precedes(&self, other: &Self) -> (r: bool)
        ensures
            r == (self.rank() < other.rank()),
    ;

    /// Whether the two keys are the same.
    fn same(&self, other: &Self) -> (r: bool)
        ensures
            r == (*self == *other),
    ;
}

impl Key for Address {
    open spec fn rank(self) -> nat {
        self.value()
    }

    proof fn lemma_rank_injective(a: Self, b: Self) {
        lemma_address_value_injective(a, b);
    }

    fn precedes(&self, other: &Self) -> (r: bool) {
        self.lt(other)
    }

    fn same(&self, other: &Self) -> (r: bool) {
        *self == *other
    }
}

impl Key for Word {
    open spec fn rank(self) -> nat {
        self.value()
    }

    proof fn lemma_rank_injective(a: Self, b: Self) {
        lemma_value_injective(a, b);
    }

    fn precedes(&self, other: &Self) -> (r: bool) {
        self.lt(other)
    }

    fn same(&self, other: &Self) -> (r: bool) {
        *self == *other
    }
}

impl View for Word {
    type V = Word;

    open spec fn view(&self) -> Word {
        *self
    }
}

impl View for Address {
    type V = Address;

    open spec fn view(&self) -> Address {
        *self
    }
}

/// Whether the keys come in strictly increasing order.
pub open spec fn increasing<K: Key>(keys: Seq<K>) -> bool {
    forall|i: int, j: int| 0 <= i < j < keys.len() ==> keys[i].rank() < keys[j].rank()
}

/// A place where `keys` holds `k`.
pub open spec fn place_of<K: Key>(keys: Seq<K>, k: K) -> int {
    choose|i: int| 0 <= i < keys.len() && keys[i] == k
}

/// Among increasing keys each key stands at one place only.
pub proof fn lemma_place_of<K: Key>(keys: Seq<K>, i: int)
    requires
        increasing(keys),
        0 <= i < keys.len(),
    ensures
        keys.contains(keys[i]),
        place_of(keys, keys[i]) == i,
{
    let j = place_of(keys, keys[i]);
    assert(0 <= j < keys.len() && keys[j] == keys[i]);
    if j < i {
        assert(keys[j].rank() < keys[i].rank());
    } else if i < j {
        assert(keys[i].rank() < keys[j].rank());
    }
}

/// Whether `keys` holds `q` at place `from` or later.
pub open spec fn holds_from<K: Key>(keys: Seq<K>, from: int, q: K) -> bool {
    exists|i: int| from <= i < keys.len() && keys[i] == q
}

/// Whether `keys` holds `q` at a place before `n`.
pub open spec fn holds_before<K: Key>(keys: Seq<K>, n: int, q: K) -> bool {
    exists|i: int| 0 <= i < n && i < keys.len() && keys[i] == q
}

/// A place before `n` where `keys` holds `q`.
pub proof fn lemma_place_before<K: Key>(keys: Seq<K>, n: int, q: K) -> (j: int)
    requires
        holds_before(keys, n, q),
    ensures
        0 <= j < n,
        j < keys.len(),
        keys[j] == q,
{
    choose|i: int| 0 <= i < n && i < keys.len() && keys[i] == q
}

/// The keys of a sequence of entries.
pub open spec fn keys_of<K: Key, V>(entries: Seq<(K, V)>) -> Seq<K> {
    Seq::new(entries.len(), |i: int| entries[i].0)
}

/// Whether `entries` lists what the map holds, in increasing order of the
/// keys.
pub open spec fn lists<K: Key, V>(entries: Seq<(K, V)>, m: Map<K, V>) -> bool {
    &&& increasing(keys_of(entries))
    &&& forall|i: int|
        0 <= i < entries.len() ==> m.contains_key(#[trigger] entries[i].0) && m[entries[i].0]
            == entries[i].1
    &&& forall|k: K| m.contains_key(k) ==> keys_of(entries).contains(k)
}

/// A map from keys to values whose view is a `Map` from the keys to the
/// views of the values. Its keys are always in increasing order.
pub struct SortedMap<K: Key, V: View> {
    entries: Vec<(K, V)>,
}

impl<K: Key, V: View> View for SortedMap<K, V> {
    type V = Map<K, V::V>;

    closed spec fn view(&self) -> Map<K, V::V> {
        Map::new(
            |k: K| keys_of(self.entries@).contains(k),
            |k: K| self.entries@[place_of(keys_of(self.entries@), k)].1@,
        )
    }
}

impl<K: Key, V: View> SortedMap<K, V> {
    #[verifier::type_invariant]
    spec fn ordered(&self) -> bool {
        increasing(keys_of(self.entries@))
    }

    /// The keys of the map, in the order in which the map hands them out.
    pub closed spec fn keys(&self) -> Seq<K> {
        keys_of(self.entries@)
    }

    /// The keys are the keys of the view, each once.
    pub proof fn lemma_keys(&self)
        requires
            increasing(self.keys()),
        ensures
            forall|k: K| self@.contains_key(k) <==> self.keys().contains(k),
            self@.dom().finite(),
            self@.dom().len() == self.keys().len(),
    {
        let keys = keys_of(self.entries@);
        assert forall|k: K| self@.contains_key(k) <==> keys.contains(k) by {}
        Self::lemma_key_set(keys);
        assert(self@.dom() =~= keys.to_set());
    }

    proof fn lemma_key_set(keys: Seq<K>)
        requires
            increasing(keys),
        ensures
            keys.to_set().finite(),
            keys.to_set().len() == keys.len(),
    {
        assert(keys.no_duplicates()) by {
            assert forall|i: int, j: int|
                0 <= i < keys.len() && 0 <= j < keys.len() && i != j implies keys[i] != keys[j] by {
                if i < j {
                    assert(keys[i].rank() < keys[j].rank());
                } else {
                    assert(keys[j].rank() < keys[i].rank());
                }
            }
        }
        keys.unique_seq_to_set();
    }

    /// An empty map.
    pub fn new() -> (r: Self)
        ensures
            r@ == Map::<K, V::V>::empty(),
            r.keys() == Seq::<K>::empty(),
    {
        let r = Self { entries: Vec::new() };
        assert(r@ =~= Map::<K, V::V>::empty());
        assert(r.keys() =~= Seq::<K>::empty());
        r
    }

    /// The number of keys.
    pub fn len(&self) -> (r: usize)
        ensures
            r == self.keys().len(),
            increasing(self.keys()),
    {
        proof {
            use_type_invariant(self);
        }
        self.entries.len()
    }

    /// The key at place `i`.
    pub fn key_at(&self, i: usize) -> (r: K)
        requires
            i < self.keys().len(),
        ensures
            r == self.keys()[i as int],
            self@.contains_key(r),
    {
        proof {
            use_type_invariant(self);
            lemma_place_of(keys_of(self.entries@), i as int);
        }
        self.entries[i].0
    }

    /// The value of the key at place `i`.
    pub fn value_at(&self, i: usize) -> (r: &V)
        requires
            i < self.keys().len(),
        ensures
            self@.contains_key(self.keys()[i as int]),
            r@ == self@[self.keys()[i as int]],
    {
        proof {
            use_type_invariant(self);
            lemma_place_of(keys_of(self.entries@), i as int);
        }
        &self.entries[i].1
    }

    /// The place of `k`, or the place where it belongs.
    fn find(&self, k: &K) -> (r: (usize, bool))
        ensures
            increasing(keys_of(self.entries@)),
            r.0 <= self.entries@.len(),
            r.1 ==> r.0 < self.entries@.len() && self.entries@[r.0 as int].0 == *k,
            r.1 == keys_of(self.entries@).contains(*k),
            forall|j: int| 0 <= j < r.0 ==> self.entries@[j].0.rank() < k.rank(),
            forall|j: int| r.0 <= j < self.entries@.len() && !r.1 ==> k.rank() < self.entries@[j].0.rank(),
    {
        proof {
            use_type_invariant(self);
        }
        let ghost keys = keys_of(self.entries@);
        let n = self.entries.len();
        let mut i: usize = 0;
        while i < n
            invariant
                i <= n,
                n == self.entries@.len(),
                keys == keys_of(self.entries@),
                increasing(keys),
                forall|j: int| 0 <= j < i ==> self.entries@[j].0.rank() < k.rank(),
            decreases n - i,
        {
            let here = self.entries[i].0;
            if here.same(k) {
                assert(keys[i as int] == *k);
                return (i, true);
            }
            if !here.precedes(k) {
                proof {
                    if here.rank() == k.rank() {
                        K::lemma_rank_injective(here, *k);
                    }
                    assert forall|j: int| 0 <= j < n implies keys[j] != *k by {
                        if j < i {
                        } else if j > i {
                            assert(keys[i as int].rank() < keys[j].rank());
                        }
                    }
                    assert forall|j: int| i <= j < n implies k.rank() < self.entries@[j].0.rank() by {
                        if j > i {
                            assert(keys[i as int].rank() < keys[j].rank());
                        }
                    }
                }
                return (i, false);
            }
            i = i + 1;
        }
        (n, false)
    }

    /// Whether the map holds `k`.
    pub fn contains_key(&self, k: &K) -> (r: bool)
        ensures
            r == self@.contains_key(*k),
    {
        self.find(k).1
    }

    /// The value of `k`, if the map holds it.
    pub fn get(&self, k: &K) -> (r: Option<&V>)
        ensures
            r is Some == self@.contains_key(*k),
            r is Some ==> r->0@ == self@[*k],
    {
        let (i, found) = self.find(k);
        if found {
            proof {
                lemma_place_of(keys_of(self.entries@), i as int);
            }
            Some(&self.entries[i].1)
        } else {
            None
        }
    }

    /// Gives `k` the value `v`, whether the map held `k` or not.
    pub fn insert(self, k: K, v: V) -> (r: Self)
        ensures
            r@ == self@.insert(k, v@),
    {
        let (i, found) = self.find(&k);
        let ghost old_keys = keys_of(self.entries@);
        let mut entries = self.entries;
        if found {
            entries[i] = (k, v);
            proof {
                assert(keys_of(entries@) =~= old_keys);
                lemma_place_of(old_keys, i as int);
            }
            let r = Self { entries };
            assert(r@ =~= self@.insert(k, v@));
            r
        } else {
            entries.insert(i, (k, v));
            let ghost new_entries = entries@;
            proof {
                let new_keys = keys_of(entries@);
                assert(new_keys =~= old_keys.insert(i as int, k));
                assert forall|a: int, b: int| 0 <= a < b < new_keys.len() implies new_keys[a].rank()
                    < new_keys[b].rank() by {
                    let a0 = if a < i {
                        a
                    } else {
                        a - 1
                    };
                    let b0 = if b < i {
                        b
                    } else {
                        b - 1
                    };
                    if a != i && b != i {
                        assert(old_keys[a0].rank() < old_keys[b0].rank());
                    }
                }
                assert forall|q: K| #[trigger]
                    new_keys.contains(q) <==> (old_keys.contains(q) || q == k) by {
                    if new_keys.contains(q) {
                        let j = choose|j: int| 0 <= j < new_keys.len() && new_keys[j] == q;
                        if j < i {
                            assert(old_keys[j] == q);
                        } else if j > i {
                            assert(old_keys[j - 1] == q);
                        }
                    }
                    if old_keys.contains(q) {
                        let j = choose|j: int| 0 <= j < old_keys.len() && old_keys[j] == q;
                        if j < i {
                            assert(new_keys[j] == q);
                        } else {
                            assert(new_keys[j + 1] == q);
                        }
                    }
                    if q == k {
                        assert(new_keys[i as int] == q);
                    }
                }
            }
            let r = Self { entries };
            proof {
                let new_keys = keys_of(new_entries);
                assert forall|q: K| #[trigger] new_keys.contains(q) implies r@[q] == self@.insert(
                    k,
                    v@,
                )[q] by {
                    let j = choose|j: int| 0 <= j < new_keys.len() && new_keys[j] == q;
                    lemma_place_of(new_keys, j);
                    if j < i {
                        lemma_place_of(old_keys, j);
                    } else if j > i {
                        lemma_place_of(old_keys, j - 1);
                    }
                }
                assert(r@ =~= self@.insert(k, v@));
            }
            r
        }
    }

    /// Takes `k` and its value out of the map.
    pub fn remove(self, k: &K) -> (r: (Self, Option<V>))
        ensures
            r.0@ == self@.remove(*k),
            r.1 is Some == self@.contains_key(*k),
            r.1 is Some ==> r.1->0@ == self@[*k],
    {
        let (i, found) = self.find(k);
        let ghost old_keys = keys_of(self.entries@);
        if found {
            proof {
                lemma_place_of(old_keys, i as int);
            }
            let mut entries = self.entries;
            let (_, v) = entries.remove(i);
            let ghost new_entries = entries@;
            proof {
                let new_keys = keys_of(entries@);
                assert(new_keys =~= old_keys.remove(i as int));
                assert forall|a: int, b: int| 0 <= a < b < new_keys.len() implies new_keys[a].rank()
                    < new_keys[b].rank() by {
                    let a0 = if a < i {
                        a
                    } else {
                        a + 1
                    };
                    let b0 = if b < i {
                        b
                    } else {
                        b + 1
                    };
                    assert(old_keys[a0].rank() < old_keys[b0].rank());
                }
                assert forall|q: K| #[trigger]
                    new_keys.contains(q) <==> (old_keys.contains(q) && q != *k) by {
                    if new_keys.contains(q) {
                        let j = choose|j: int| 0 <= j < new_keys.len() && new_keys[j] == q;
                        if j < i {
                            assert(old_keys[j] == q);
                            assert(old_keys[j].rank() < old_keys[i as int].rank());
                        } else {
                            assert(old_keys[j + 1] == q);
                            assert(old_keys[i as int].rank() < old_keys[j + 1].rank());
                        }
                    }
                    if old_keys.contains(q) && q != *k {
                        let j = choose|j: int| 0 <= j < old_keys.len() && old_keys[j] == q;
                        if j < i {
                            assert(new_keys[j] == q);
                        } else {
                            assert(new_keys[j - 1] == q);
                        }
                    }
                }
            }
            let r = Self { entries };
            proof {
                let new_keys = keys_of(new_entries);
                assert forall|q: K| #[trigger] new_keys.contains(q) implies r@[q] == self@.remove(
                    *k,
                )[q] by {
                    let j = choose|j: int| 0 <= j < new_keys.len() && new_keys[j] == q;
                    lemma_place_of(new_keys, j);
                    if j < i {
                        lemma_place_of(old_keys, j);
                    } else {
                        lemma_place_of(old_keys, j + 1);
                    }
                }
                assert(r@ =~= self@.remove(*k));
            }
            (r, Some(v))
        } else {
            assert(self@ =~= self@.remove(*k));
            (self, None)
        }
    }

    /// Takes the map apart: its entries, in increasing order of the keys.
    pub fn into_entries(self) -> (r: Vec<(K, V)>)
        ensures
            keys_of(r@) == self.keys(),
            increasing(keys_of(r@)),
            forall|i: int|
                0 <= i < r@.len() ==> self@.contains_key(#[trigger] r@[i].0) && self@[r@[i].0]
                    == r@[i].1@,
            forall|k: K| self@.contains_key(k) <==> keys_of(r@).contains(k),
    {
        proof {
            use_type_invariant(&self);
            assert forall|i: int| 0 <= i < self.entries@.len() implies self@.contains_key(
                #[trigger] self.entries@[i].0,
            ) && self@[self.entries@[i].0] == self.entries@[i].1@ by {
                lemma_place_of(keys_of(self.entries@), i);
            }
        }
        self.entries
    }

    /// The map with everything that `other` holds put into it; where both
    /// hold a key, the value of `other` replaces the one here.
    pub fn absorb(self, other: SortedMap<K, V>) -> (r: Self)
        ensures
            r@ == self@.union_prefer_right(other@),
    {
        let mut entries = other.into_entries();
        let ghost all = entries@;
        let ghost all_keys = keys_of(all);
        let ghost start = self@;
        let mut acc = self;
        while entries.len() > 0
            invariant
                entries@.len() <= all.len(),
                all_keys == keys_of(all),
                increasing(all_keys),
                entries@ == all.subrange(0, entries@.len() as int),
                forall|q: K|
                    acc@.contains_key(q) <==> (start.contains_key(q) || holds_from(
                        all_keys,
                        entries@.len() as int,
                        q,
                    )),
                forall|i: int|
                    entries@.len() <= i < all.len() ==> acc@[#[trigger] all_keys[i]] == all[i].1@,
                forall|q: K|
                    start.contains_key(q) && !holds_from(all_keys, entries@.len() as int, q)
                        ==> acc@[q] == start[q],
            decreases entries@.len(),
        {
            let ghost n = entries@.len() - 1;
            let (k, v) = entries.pop().unwrap();
            acc = acc.insert(k, v);
            proof {
                assert(k == all_keys[n]);
                assert forall|q: K| holds_from(all_keys, n, q) <==> (q == k || holds_from(
                    all_keys,
                    n + 1,
                    q,
                )) by {
                    if q == k {
                        assert(n <= n < all_keys.len() && all_keys[n] == q);
                    }
                    if holds_from(all_keys, n, q) {
                        let i = choose|i: int| n <= i < all_keys.len() && all_keys[i] == q;
                        if i > n {
                            assert(n + 1 <= i < all_keys.len() && all_keys[i] == q);
                        }
                    }
                    if holds_from(all_keys, n + 1, q) {
                        let i = choose|i: int| n + 1 <= i < all_keys.len() && all_keys[i] == q;
                        assert(n <= i < all_keys.len() && all_keys[i] == q);
                    }
                }
                assert forall|i: int| n <= i < all.len() implies acc@[#[trigger] all_keys[i]]
                    == all[i].1@ by {
                    if i > n {
                        assert(all_keys[n].rank() < all_keys[i].rank());
                    }
                }
            }
        }
        proof {
            assert forall|q: K| other@.contains_key(q) <==> holds_from(all_keys, 0, q) by {
                if other@.contains_key(q) {
                    let i = choose|i: int| 0 <= i < all_keys.len() && all_keys[i] == q;
                    assert(0 <= i < all_keys.len() && all_keys[i] == q);
                }
            }
            assert forall|q: K| other@.contains_key(q) implies acc@[q] == other@[q] by {
                let i = choose|i: int| 0 <= i < all_keys.len() && all_keys[i] == q;
                assert(acc@[all_keys[i]] == all[i].1@);
            }
            assert(acc@ =~= start.union_prefer_right(other@));
        }
        acc
    }
}

/// A value that can be copied, the copy having the same view.
pub trait Duplicate: View + Sized {
    /// A copy of the value.
    fn duplicate_value(&self) -> (r: Self)
        ensures
            r@ == self@,
    ;
}

impl Duplicate for Word {
    fn duplicate_value(&self) -> (r: Self) {
        *self
    }
}

impl Duplicate for Vec<u8> {
    fn duplicate_value(&self) -> (r: Self) {
        let mut out: Vec<u8> = Vec::new();
        let n = self.len();
        let mut i: usize = 0;
        while i < n
            invariant
                i <= n,
                n == self@.len(),
                out@ == self@.subrange(0, i as int),
            decreases n - i,
        {
            out.push(self[i]);
            assert(self@.subrange(0, i + 1) =~= self@.subrange(0, i as int).push(self@[i as int]));
            i = i + 1;
        }
        assert(out@ =~= self@);
        out
    }
}

impl<K: Key, V: Duplicate> Duplicate for SortedMap<K, V> {
    fn duplicate_value(&self) -> (r: Self) {
        self.duplicate()
    }
}

impl<K: Key, V: Duplicate> SortedMap<K, V> {
    /// A copy of the map.
    pub fn duplicate(&self) -> (r: Self)
        ensures
            r@ == self@,
            r.keys() == self.keys(),
    {
        proof {
            use_type_invariant(self);
        }
        let mut entries: Vec<(K, V)> = Vec::new();
        let n = self.entries.len();
        let mut i: usize = 0;
        while i < n
            invariant
                i <= n,
                n == self.entries@.len(),
                entries@.len() == i,
                forall|j: int|
                    0 <= j < i ==> (#[trigger] entries@[j]).0 == self.entries@[j].0 && entries@[j].1@
                        == self.entries@[j].1@,
            decreases n - i,
        {
            let k = self.entries[i].0;
            let v = self.entries[i].1.duplicate_value();
            entries.push((k, v));
            i = i + 1;
        }
        assert(keys_of(entries@) =~= keys_of(self.entries@));
        let ghost copied = entries@;
        let r = Self { entries };
        proof {
            assert forall|q: K| keys_of(copied).contains(q) implies r@[q] == self@[q] by {
                let j = place_of(keys_of(copied), q);
                assert(0 <= j < copied.len() && copied[j].0 == q);
            }
            assert(r@ =~= self@);
        }
        r
    }
}

} // verus!
