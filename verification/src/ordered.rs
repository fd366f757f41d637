//! A map that keeps its entries in ascending order of their keys.
//!
//! The view of a map is the sequence of its entries, each a pair of the
//! views of a key and of a value. Keys are ordered by a rank, a sequence of
//! integers compared lexicographically; no two entries have the same key.

use vstd::prelude::*;
use crate::text::{
    code_points, lemma_code_points_injective, lemma_seq_lt_irreflexive, lemma_seq_lt_tagged,
    lemma_seq_lt_total, lemma_seq_lt_transitive, seq_lt, text_precedes, text_same,
};

verus! {

/// A type whose values serve as keys of an ordered map.
pub trait SortKey: View + Sized {
    /// The sequence of integers that a key is ordered by.
    spec fn rank(v: Self::V) -> Seq<int>;

    /// Keys of the same rank are the same key.
    proof fn lemma_rank_injective(a: Self::V, b: Self::V)
        requires
            Self::rank(a) == Self::rank(b),
        ensures
            a == b,
    ;

    /// Whether this key comes before the other.
    fn precedes(&self, other: &Self) -> (r: bool)
        ensures
            r == seq_lt(Self::rank(self@), Self::rank(other@)),
    ;

    /// Whether the two keys are the same.
    fn same(&self, other: &Self) -> (r: bool)
        ensures
            r == (self@ == other@),
    ;
}

/// The key `a` comes before the key `b`.
pub open spec fn key_lt<K: SortKey>(a: K::V, b: K::V) -> bool {
    seq_lt(K::rank(a), K::rank(b))
}

/// The entries stand in strictly ascending order of their keys.
pub open spec fn sorted<K: SortKey, W>(s: Seq<(K::V, W)>) -> bool {
    forall|i: int, j: int| 0 <= i < j < s.len() ==> key_lt::<K>((#[trigger] s[i]).0, (#[trigger] s[j]).0)
}

/// The first place at or behind `i` whose key does not come before `k`.
pub open spec fn slot<K: SortKey, W>(s: Seq<(K::V, W)>, k: K::V, i: int) -> int
    decreases s.len() - i,
{
    if 0 <= i < s.len() && key_lt::<K>(s[i].0, k) {
        slot::<K, W>(s, k, i + 1)
    } else {
        i
    }
}

/// The entries with `k` bound to `v`: in place of the entry of `k` where
/// there is one, else at the place that keeps the order.
pub open spec fn put<K: SortKey, W>(s: Seq<(K::V, W)>, k: K::V, v: W) -> Seq<(K::V, W)> {
    let p = slot::<K, W>(s, k, 0);
    if 0 <= p < s.len() && s[p].0 == k {
        s.update(p, (k, v))
    } else {
        s.insert(p, (k, v))
    }
}

/// The first place at or behind `i` whose key is `k`, if there is one.
pub open spec fn position_from<A, W>(s: Seq<(A, W)>, k: A, i: int) -> Option<int>
    decreases s.len() - i,
{
    if i < 0 || i >= s.len() {
        None
    } else if s[i].0 == k {
        Some(i)
    } else {
        position_from(s, k, i + 1)
    }
}

/// The place of the entry of `k`, if there is one.
pub open spec fn position<A, W>(s: Seq<(A, W)>, k: A) -> Option<int> {
    position_from(s, k, 0)
}

/// Some entry has the key `k`.
pub open spec fn has_key<A, W>(s: Seq<(A, W)>, k: A) -> bool {
    position(s, k) is Some
}

/// The value that `k` is bound to, if any.
pub open spec fn lookup<A, W>(s: Seq<(A, W)>, k: A) -> Option<W> {
    match position(s, k) {
        Some(i) => Some(s[i].1),
        None => None,
    }
}

/// What the place of a key is.
pub proof fn lemma_position_from<A, W>(s: Seq<(A, W)>, k: A, i: int)
    requires
        0 <= i <= s.len(),
    ensures
        match position_from(s, k, i) {
            Some(p) => i <= p < s.len() && s[p].0 == k && forall|j: int|
                i <= j < p ==> (#[trigger] s[j]).0 != k,
            None => forall|j: int| i <= j < s.len() ==> (#[trigger] s[j]).0 != k,
        },
    decreases s.len() - i,
{
    if i < s.len() && s[i].0 != k {
        lemma_position_from(s, k, i + 1);
    }
}

/// What the slot of a key is.
pub proof fn lemma_slot<K: SortKey, W>(s: Seq<(K::V, W)>, k: K::V, i: int)
    requires
        0 <= i <= s.len(),
    ensures
        i <= slot::<K, W>(s, k, i) <= s.len(),
        forall|j: int| i <= j < slot::<K, W>(s, k, i) ==> key_lt::<K>((#[trigger] s[j]).0, k),
        slot::<K, W>(s, k, i) < s.len() ==> !key_lt::<K>(s[slot::<K, W>(s, k, i)].0, k),
    decreases s.len() - i,
{
    if i < s.len() && key_lt::<K>(s[i].0, k) {
        lemma_slot::<K, W>(s, k, i + 1);
    }
}

/// In sorted entries the entry of a key stands at the slot of the key.
pub proof fn lemma_slot_is_position<K: SortKey, W>(s: Seq<(K::V, W)>, k: K::V)
    requires
        sorted::<K, W>(s),
    ensures
        match position(s, k) {
            Some(p) => p == slot::<K, W>(s, k, 0),
            None => slot::<K, W>(s, k, 0) == s.len() || s[slot::<K, W>(s, k, 0)].0 != k,
        },
{
    let p = slot::<K, W>(s, k, 0);
    lemma_slot::<K, W>(s, k, 0);
    lemma_position_from(s, k, 0);
    lemma_seq_lt_irreflexive(K::rank(k));
    match position(s, k) {
        Some(q) => {
            if q < p {
                assert(key_lt::<K>(s[q].0, k));
            } else if p < q {
                assert(key_lt::<K>(s[p].0, s[q].0));
            }
        },
        None => {},
    }
}

/// Binding a key keeps sorted entries sorted, and afterwards the key is
/// bound to the new value and every other key to what it was bound to.
pub proof fn lemma_put<K: SortKey, W>(s: Seq<(K::V, W)>, k: K::V, v: W)
    requires
        sorted::<K, W>(s),
    ensures
        sorted::<K, W>(put::<K, W>(s, k, v)),
        lookup(put::<K, W>(s, k, v), k) == Some(v),
        forall|other: K::V| other != k ==> lookup(put::<K, W>(s, k, v), other) == lookup(s, other),
        put::<K, W>(s, k, v).len() == if has_key(s, k) {
            s.len()
        } else {
            s.len() + 1
        },
{
    let p = slot::<K, W>(s, k, 0);
    let t = put::<K, W>(s, k, v);
    lemma_slot::<K, W>(s, k, 0);
    lemma_slot_is_position::<K, W>(s, k);
    lemma_position_from(s, k, 0);
    if p < s.len() && s[p].0 == k {
        assert forall|i: int, j: int| 0 <= i < j < t.len() implies key_lt::<K>(
            (#[trigger] t[i]).0,
            (#[trigger] t[j]).0,
        ) by {
            assert(t[i].0 == s[i].0 && t[j].0 == s[j].0);
            assert(key_lt::<K>(s[i].0, s[j].0));
        }
    } else {
        assert forall|j: int| p <= j < s.len() implies key_lt::<K>(k, (#[trigger] s[j]).0) by {
            lemma_seq_lt_total(K::rank(k), K::rank(s[p].0));
            if K::rank(k) == K::rank(s[p].0) {
                K::lemma_rank_injective(k, s[p].0);
            }
            if p < j {
                assert(key_lt::<K>(s[p].0, s[j].0));
                lemma_seq_lt_transitive(K::rank(k), K::rank(s[p].0), K::rank(s[j].0));
            }
        }
        assert forall|i: int, j: int| 0 <= i < j < t.len() implies key_lt::<K>(
            (#[trigger] t[i]).0,
            (#[trigger] t[j]).0,
        ) by {
            if j < p {
                assert(t[i] == s[i] && t[j] == s[j]);
                assert(key_lt::<K>(s[i].0, s[j].0));
            } else if j == p {
                assert(t[i] == s[i]);
                assert(key_lt::<K>(s[i].0, k));
            } else if i < p {
                assert(t[i] == s[i] && t[j] == s[j - 1]);
                if p <= j - 1 {
                    assert(key_lt::<K>(k, s[j - 1].0));
                    assert(key_lt::<K>(s[i].0, k));
                    lemma_seq_lt_transitive(K::rank(s[i].0), K::rank(k), K::rank(s[j - 1].0));
                }
            } else if i == p {
                assert(t[j] == s[j - 1]);
                assert(key_lt::<K>(k, s[j - 1].0));
            } else {
                assert(t[i] == s[i - 1] && t[j] == s[j - 1]);
                assert(key_lt::<K>(s[i - 1].0, s[j - 1].0));
            }
        }
    }
    lemma_sorted_lookup::<K, W>(t, p);
    assert forall|other: K::V| other != k implies lookup(t, other) == lookup(s, other) by {
        lemma_position_from(s, other, 0);
        lemma_position_from(t, other, 0);
        match position(s, other) {
            Some(q) => {
                let q2 = if p < s.len() && s[p].0 == k {
                    q
                } else if q < p {
                    q
                } else {
                    q + 1
                };
                assert(t[q2] == s[q]);
                lemma_sorted_lookup::<K, W>(t, q2);
            },
            None => {
                if position(t, other) is Some {
                    let q = position(t, other)->Some_0;
                    if p < s.len() && s[p].0 == k {
                        assert(t[q].0 == s[q].0);
                    } else if q < p {
                        assert(t[q] == s[q]);
                    } else if q > p {
                        assert(t[q] == s[q - 1]);
                    }
                }
            },
        }
    }
}

/// Where an entry is taken out of sorted entries, its key fits in again at
/// the same place.
pub proof fn lemma_fits_back<K: SortKey, W>(s: Seq<(K::V, W)>, i: int)
    requires
        sorted::<K, W>(s),
        0 <= i < s.len(),
    ensures
        forall|j: int| 0 <= j < i ==> key_lt::<K>((#[trigger] s.remove(i)[j]).0, s[i].0),
        forall|j: int|
            i <= j < s.remove(i).len() ==> key_lt::<K>(s[i].0, (#[trigger] s.remove(i)[j]).0),
        forall|v: W| s.remove(i).insert(i, (s[i].0, v)) == s.update(i, (s[i].0, v)),
        s.remove(i).insert(i, s[i]) == s,
{
    let t = s.remove(i);
    assert forall|j: int| 0 <= j < i implies key_lt::<K>((#[trigger] t[j]).0, s[i].0) by {
        assert(t[j] == s[j]);
        assert(key_lt::<K>(s[j].0, s[i].0));
    }
    assert forall|j: int| i <= j < t.len() implies key_lt::<K>(s[i].0, (#[trigger] t[j]).0) by {
        assert(t[j] == s[j + 1]);
        assert(key_lt::<K>(s[i].0, s[j + 1].0));
    }
    assert forall|v: W| t.insert(i, (s[i].0, v)) == s.update(i, (s[i].0, v)) by {
        assert(t.insert(i, (s[i].0, v)) =~= s.update(i, (s[i].0, v)));
    }
    assert(t.insert(i, s[i]) =~= s);
}

/// In sorted entries a key is found at the place where it stands.
pub proof fn lemma_sorted_lookup<K: SortKey, W>(s: Seq<(K::V, W)>, i: int)
    requires
        sorted::<K, W>(s),
        0 <= i < s.len(),
    ensures
        position(s, s[i].0) == Some(i),
{
    lemma_position_from(s, s[i].0, 0);
    let q = position(s, s[i].0)->Some_0;
    lemma_seq_lt_irreflexive(K::rank(s[i].0));
    if q < i {
        assert(key_lt::<K>(s[q].0, s[i].0));
    }
}

/// A kind of value of which a copy with the same view can be made.
pub trait Replicate: View + Sized {
    /// A copy of the value.
    fn replicate(&self) -> (r: Self)
        ensures
            r@ == self@,
    ;
}

/// A map from keys to values whose entries stand in ascending order of the
/// keys, each key once. The keys and the values are held apart, the value
/// of a key at the place of the key.
#[derive(Debug, PartialEq, Eq)]
pub struct OrderedMap<K: SortKey, V: View> {
    keys: Vec<K>,
    values: Vec<V>,
}

/// The entries that keys and values at the same places make.
pub open spec fn zip<K: View, V: View>(keys: Seq<K>, values: Seq<V>) -> Seq<(K::V, V::V)> {
    Seq::new(keys.len(), |i: int| (keys[i]@, values[i]@))
}

impl<K: SortKey, V: View> View for OrderedMap<K, V> {
    type V = Seq<(K::V, V::V)>;

    closed spec fn view(&self) -> Seq<(K::V, V::V)> {
        zip(self.keys@, self.values@)
    }
}

impl<K: SortKey + Replicate, V: Replicate> Clone for OrderedMap<K, V> {
    fn clone(&self) -> (r: Self)
        ensures
            r@ == self@,
    {
        proof {
            use_type_invariant(self);
        }
        let mut keys: Vec<K> = Vec::new();
        let mut values: Vec<V> = Vec::new();
        let mut i: usize = 0;
        while i < self.keys.len()
            invariant
                i <= self.keys.len(),
                self.keys@.len() == self.values@.len(),
                keys@.len() == i,
                values@.len() == i,
                forall|j: int| 0 <= j < i ==> (#[trigger] keys@[j])@ == self.keys@[j]@,
                forall|j: int| 0 <= j < i ==> (#[trigger] values@[j])@ == self.values@[j]@,
            decreases self.keys.len() - i,
        {
            keys.push(self.keys[i].replicate());
            values.push(self.values[i].replicate());
            i = i + 1;
        }
        assert(zip(keys@, values@) =~= self@);
        assert forall|a: int, b: int| 0 <= a < b < keys@.len() implies key_lt::<K>(
            (#[trigger] keys@[a])@,
            (#[trigger] keys@[b])@,
        ) by {
            assert(key_lt::<K>(self.keys@[a]@, self.keys@[b]@));
        }
        OrderedMap { keys, values }
    }
}

impl<K: SortKey, V: View> OrderedMap<K, V> {
    #[verifier::type_invariant]
    spec fn well_formed(self) -> bool {
        &&& self.keys@.len() == self.values@.len()
        &&& forall|i: int, j: int|
            0 <= i < j < self.keys@.len() ==> key_lt::<K>(
                (#[trigger] self.keys@[i])@,
                (#[trigger] self.keys@[j])@,
            )
    }

    /// Keys in ascending order make sorted entries, whatever the values.
    proof fn lemma_zip_sorted(keys: Seq<K>, values: Seq<V>)
        requires
            keys.len() == values.len(),
            forall|i: int, j: int|
                0 <= i < j < keys.len() ==> key_lt::<K>((#[trigger] keys[i])@, (#[trigger] keys[j])@),
        ensures
            sorted::<K, V::V>(zip(keys, values)),
    {
        let s = zip(keys, values);
        assert forall|i: int, j: int| 0 <= i < j < s.len() implies key_lt::<K>(
            (#[trigger] s[i]).0,
            (#[trigger] s[j]).0,
        ) by {
            assert(key_lt::<K>(keys[i]@, keys[j]@));
        }
    }

    /// Sorted entries have their keys in ascending order.
    proof fn lemma_sorted_keys(keys: Seq<K>, values: Seq<V>)
        requires
            keys.len() == values.len(),
            sorted::<K, V::V>(zip(keys, values)),
        ensures
            forall|i: int, j: int|
                0 <= i < j < keys.len() ==> key_lt::<K>((#[trigger] keys[i])@, (#[trigger] keys[j])@),
    {
        let s = zip(keys, values);
        assert forall|i: int, j: int| 0 <= i < j < keys.len() implies key_lt::<K>(
            (#[trigger] keys[i])@,
            (#[trigger] keys[j])@,
        ) by {
            assert(key_lt::<K>(s[i].0, s[j].0));
        }
    }

    /// The map without entries.
    pub fn new() -> (r: Self)
        ensures
            r@ == Seq::<(K::V, V::V)>::empty(),
    {
        let r = OrderedMap { keys: Vec::new(), values: Vec::new() };
        assert(r@ =~= Seq::<(K::V, V::V)>::empty());
        r
    }

    /// The number of entries; they stand in ascending order of their keys.
    pub fn len(&self) -> (n: usize)
        ensures
            n == self@.len(),
            sorted::<K, V::V>(self@),
    {
        proof {
            use_type_invariant(self);
            Self::lemma_zip_sorted(self.keys@, self.values@);
        }
        self.keys.len()
    }

    pub fn is_empty(&self) -> (r: bool)
        ensures
            r == (self@.len() == 0),
    {
        self.keys.len() == 0
    }

    /// The key of the entry at place `i`.
    pub fn key_at(&self, i: usize) -> (k: &K)
        requires
            i < self@.len(),
        ensures
            k@ == self@[i as int].0,
    {
        &self.keys[i]
    }

    /// The value of the entry at place `i`.
    pub fn value_at(&self, i: usize) -> (v: &V)
        requires
            i < self@.len(),
        ensures
            v@ == self@[i as int].1,
    {
        proof {
            use_type_invariant(self);
        }
        &self.values[i]
    }

    /// The value of the entry at place `i`, to be changed in place: the
    /// map is afterwards what it was, with the value as it was left.
    pub fn value_at_mut(&mut self, i: usize) -> (v: &mut V)
        requires
            i < old(self)@.len(),
        ensures
            v@ == old(self)@[i as int].1,
            final(self)@ == old(self)@.update(i as int, (old(self)@[i as int].0, final(v)@)),
    {
        proof {
            use_type_invariant(&*self);
        }
        let ghost keys = self.keys@;
        let ghost values = self.values@;
        let v = &mut self.values[i];
        proof {
            assert(zip(keys, values.update(i as int, *final(v))) =~= zip(keys, values).update(
                i as int,
                (keys[i as int]@, final(v)@),
            ));
        }
        v
    }

    /// The place of the entry of `key`, if there is one.
    pub fn find(&self, key: &K) -> (r: Option<usize>)
        ensures
            match r {
                Some(i) => position(self@, key@) == Some(i as int) && i < self@.len(),
                None => position(self@, key@) is None,
            },
    {
        let mut i: usize = 0;
        while i < self.keys.len()
            invariant
                i <= self.keys.len(),
                self@.len() == self.keys.len(),
                position_from(self@, key@, i as int) == position(self@, key@),
            decreases self.keys.len() - i,
        {
            if self.keys[i].same(key) {
                return Some(i);
            }
            i = i + 1;
        }
        None
    }

    /// The value that `key` is bound to, if any.
    pub fn get(&self, key: &K) -> (r: Option<&V>)
        ensures
            match r {
                Some(v) => lookup(self@, key@) == Some(v@),
                None => lookup(self@, key@) is None,
            },
    {
        proof {
            use_type_invariant(self);
        }
        match self.find(key) {
            Some(i) => Some(&self.values[i]),
            None => None,
        }
    }

    /// The value that `key` is bound to, if any, to be changed in place.
    pub fn get_mut(&mut self, key: &K) -> (r: Option<&mut V>)
        ensures
            match position(old(self)@, key@) {
                Some(i) => r is Some && r->Some_0@ == old(self)@[i].1 && final(self)@ == old(
                    self,
                )@.update(i, (old(self)@[i].0, final(r->Some_0)@)),
                None => r is None && final(self)@ == old(self)@,
            },
    {
        match self.find(key) {
            Some(i) => Some(self.value_at_mut(i)),
            None => None,
        }
    }

    /// Binds `key` to `value` and hands back the value that `key` was bound
    /// to before, if any.
    pub fn insert(&mut self, key: K, value: V) -> (r: Option<V>)
        ensures
            final(self)@ == put::<K, V::V>(old(self)@, key@, value@),
            match r {
                Some(v) => lookup(old(self)@, key@) == Some(v@),
                None => lookup(old(self)@, key@) is None,
            },
    {
        proof {
            use_type_invariant(&*self);
            Self::lemma_zip_sorted(self.keys@, self.values@);
            lemma_slot_is_position::<K, V::V>(self@, key@);
            lemma_put::<K, V::V>(self@, key@, value@);
        }
        let ghost before = self@;
        let mut p: usize = 0;
        while p < self.keys.len() && self.keys[p].precedes(&key)
            invariant
                p <= self.keys.len(),
                self@ == before,
                self@.len() == self.keys.len(),
                slot::<K, V::V>(before, key@, p as int) == slot::<K, V::V>(before, key@, 0),
            decreases self.keys.len() - p,
        {
            p = p + 1;
        }
        let replaces: bool = p < self.keys.len() && self.keys[p].same(&key);
        let mut taken: OrderedMap<K, V> = OrderedMap::new();
        core::mem::swap(self, &mut taken);
        let OrderedMap { keys, values } = taken;
        let mut keys: Vec<K> = keys;
        let mut values: Vec<V> = values;
        if replaces {
            keys.remove(p);
            let old_value = values.remove(p);
            keys.insert(p, key);
            values.insert(p, value);
            assert(zip(keys@, values@) =~= before.update(p as int, (key@, value@)));
            proof {
                Self::lemma_sorted_keys(keys@, values@);
            }
            *self = OrderedMap { keys, values };
            Some(old_value)
        } else {
            keys.insert(p, key);
            values.insert(p, value);
            assert(zip(keys@, values@) =~= before.insert(p as int, (key@, value@)));
            proof {
                Self::lemma_sorted_keys(keys@, values@);
            }
            *self = OrderedMap { keys, values };
            None
        }
    }

    /// Puts an entry at place `i`, where its key fits between the keys
    /// before and behind that place.
    pub fn insert_at(&mut self, i: usize, key: K, value: V)
        requires
            i <= old(self)@.len(),
            forall|j: int| 0 <= j < i ==> key_lt::<K>((#[trigger] old(self)@[j]).0, key@),
            forall|j: int|
                i <= j < old(self)@.len() ==> key_lt::<K>(key@, (#[trigger] old(self)@[j]).0),
        ensures
            final(self)@ == old(self)@.insert(i as int, (key@, value@)),
    {
        proof {
            use_type_invariant(&*self);
            Self::lemma_zip_sorted(self.keys@, self.values@);
        }
        let ghost before = self@;
        let mut taken: OrderedMap<K, V> = OrderedMap::new();
        core::mem::swap(self, &mut taken);
        let OrderedMap { keys, values } = taken;
        let mut keys: Vec<K> = keys;
        let mut values: Vec<V> = values;
        keys.insert(i, key);
        values.insert(i, value);
        let ghost after = zip(keys@, values@);
        assert(after =~= before.insert(i as int, (key@, value@)));
        assert forall|a: int, b: int| 0 <= a < b < after.len() implies key_lt::<K>(
            (#[trigger] after[a]).0,
            (#[trigger] after[b]).0,
        ) by {
            if b < i {
                assert(after[a] == before[a] && after[b] == before[b]);
                assert(key_lt::<K>(before[a].0, before[b].0));
            } else if b == i {
                assert(after[a] == before[a]);
            } else if a < i {
                assert(after[a] == before[a] && after[b] == before[b - 1]);
                assert(key_lt::<K>(before[a].0, key@));
                assert(key_lt::<K>(key@, before[b - 1].0));
                lemma_seq_lt_transitive(K::rank(before[a].0), K::rank(key@), K::rank(before[b - 1].0));
            } else if a == i {
                assert(after[b] == before[b - 1]);
            } else {
                assert(after[a] == before[a - 1] && after[b] == before[b - 1]);
                assert(key_lt::<K>(before[a - 1].0, before[b - 1].0));
            }
        }
        proof {
            Self::lemma_sorted_keys(keys@, values@);
        }
        *self = OrderedMap { keys, values };
    }

    /// Takes the entry at place `i` out of the map.
    pub fn remove_at(&mut self, i: usize) -> (r: (K, V))
        requires
            i < old(self)@.len(),
        ensures
            final(self)@ == old(self)@.remove(i as int),
            r.0@ == old(self)@[i as int].0,
            r.1@ == old(self)@[i as int].1,
    {
        proof {
            use_type_invariant(&*self);
            Self::lemma_zip_sorted(self.keys@, self.values@);
        }
        let ghost before = self@;
        let mut taken: OrderedMap<K, V> = OrderedMap::new();
        core::mem::swap(self, &mut taken);
        let OrderedMap { keys, values } = taken;
        let mut keys: Vec<K> = keys;
        let mut values: Vec<V> = values;
        let key = keys.remove(i);
        let value = values.remove(i);
        let ghost after = zip(keys@, values@);
        assert(after =~= before.remove(i as int));
        assert forall|a: int, b: int| 0 <= a < b < after.len() implies key_lt::<K>(
            (#[trigger] after[a]).0,
            (#[trigger] after[b]).0,
        ) by {
            let a2 = if a < i { a } else { a + 1 };
            let b2 = if b < i { b } else { b + 1 };
            assert(after[a] == before[a2] && after[b] == before[b2]);
            assert(key_lt::<K>(before[a2].0, before[b2].0));
        }
        proof {
            Self::lemma_sorted_keys(keys@, values@);
        }
        *self = OrderedMap { keys, values };
        (key, value)
    }
}

/// A text that serves as a key, ordered by its characters.
#[derive(Debug, PartialEq, Eq)]
pub struct TextKey(pub String);

impl View for TextKey {
    type V = Seq<char>;

    open spec fn view(&self) -> Seq<char> {
        self.0@
    }
}

impl Replicate for TextKey {
    fn replicate(&self) -> (r: Self) {
        TextKey(self.0.clone())
    }
}

impl Replicate for String {
    fn replicate(&self) -> (r: Self) {
        self.clone()
    }
}

impl SortKey for TextKey {
    open spec fn rank(v: Seq<char>) -> Seq<int> {
        code_points(v)
    }

    proof fn lemma_rank_injective(a: Seq<char>, b: Seq<char>) {
        lemma_code_points_injective(a, b);
    }

    fn precedes(&self, other: &Self) -> (r: bool) {
        text_precedes(self.0.as_str(), other.0.as_str())
    }

    fn same(&self, other: &Self) -> (r: bool) {
        text_same(self.0.as_str(), other.0.as_str())
    }
}

impl SortKey for i64 {
    /// Numbers are ordered by their value.
    open spec fn rank(v: i64) -> Seq<int> {
        seq![v as int]
    }

    proof fn lemma_rank_injective(a: i64, b: i64) {
        assert(Self::rank(a)[0] == a as int);
        assert(Self::rank(b)[0] == b as int);
    }

    fn precedes(&self, other: &Self) -> (r: bool) {
        proof {
            lemma_seq_lt_tagged(*self as int, Seq::empty(), *other as int, Seq::empty());
            assert(seq![*self as int] + Seq::<int>::empty() =~= seq![*self as int]);
            assert(seq![*other as int] + Seq::<int>::empty() =~= seq![*other as int]);
            lemma_seq_lt_irreflexive(Seq::<int>::empty());
        }
        *self < *other
    }

    fn same(&self, other: &Self) -> (r: bool) {
        *self == *other
    }
}

} // verus!
