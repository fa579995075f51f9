//! A finite map keyed by address.
//!
//! The entries stand in a vector in the order in which their keys first
//! came; no two entries hold the same address.

use crate::principal::{principal_bytes, same_principal};
use candid::Principal;
use vstd::prelude::*;

verus! {

/// One key and what is filed under it.
pub struct Entry<V> {
    pub key: Principal,
    pub value: V,
}

/// A finite map from addresses to values of `V`.
pub struct Table<V> {
    entries: Vec<Entry<V>>,
}

/// The map that a sequence of keys and a sequence of values of the same
/// length stand for.
pub open spec fn map_of<V>(keys: Seq<Seq<u8>>, values: Seq<V>) -> Map<Seq<u8>, V> {
    Map::new(|k: Seq<u8>| keys.contains(k), |k: Seq<u8>| values[keys.index_of(k)])
}

/// Filing a new key at the end adds it to the map.
pub proof fn lemma_map_of_push<V>(keys: Seq<Seq<u8>>, values: Seq<V>, k: Seq<u8>, v: V)
    requires
        keys.len() == values.len(),
        keys.no_duplicates(),
        !keys.contains(k),
    ensures
        map_of(keys.push(k), values.push(v)) == map_of(keys, values).insert(k, v),
{
    let a = map_of(keys.push(k), values.push(v));
    let b = map_of(keys, values).insert(k, v);
    assert(keys.push(k)[keys.len() as int] == k);
    assert forall|x: Seq<u8>| a.contains_key(x) <==> b.contains_key(x) by {
        if keys.contains(x) {
            let j = keys.index_of(x);
            assert(keys.push(k)[j] == x);
        }
        if keys.push(k).contains(x) && x != k {
            let j = keys.push(k).index_of(x);
            assert(keys[j] == x);
        }
    }
    assert forall|x: Seq<u8>| a.contains_key(x) implies a[x] == b[x] by {
        let j = keys.push(k).index_of(x);
        assert(keys.push(k)[j] == x);
        if x != k {
            assert(keys[j] == x);
            let j2 = keys.index_of(x);
            assert(keys[j2] == x);
            assert(keys.push(k)[j2] == x);
        }
    }
    assert(a =~= b);
}

/// The part of a map that the first `k` of the keys have.
pub open spec fn prefix_map<V>(keys: Seq<Seq<u8>>, m: Map<Seq<u8>, V>, k: int) -> Map<Seq<u8>, V> {
    Map::new(|x: Seq<u8>| keys.take(k).contains(x), |x: Seq<u8>| m[x])
}

/// The part that the first `k` keys have is the part that one key fewer
/// has, with the key at `k - 1` and what the map holds for it.
pub proof fn lemma_prefix_map_step<V>(keys: Seq<Seq<u8>>, m: Map<Seq<u8>, V>, k: int)
    requires
        0 < k <= keys.len(),
    ensures
        prefix_map(keys, m, k) == prefix_map(keys, m, k - 1).insert(keys[k - 1], m[keys[k - 1]]),
{
    let shorter = keys.take(k - 1);
    let longer = keys.take(k);
    let goal = prefix_map(keys, m, k);
    let built = prefix_map(keys, m, k - 1).insert(keys[k - 1], m[keys[k - 1]]);
    assert forall|x: Seq<u8>| #[trigger] goal.contains_key(x) <==> built.contains_key(x) by {
        if longer.contains(x) {
            let j = longer.index_of(x);
            if j < k - 1 {
                assert(shorter[j] == x);
            }
        }
        if shorter.contains(x) {
            let j = shorter.index_of(x);
            assert(longer[j] == x);
        }
        if x == keys[k - 1] {
            assert(longer[k - 1] == x);
        }
    }
    assert(goal =~= built);
}

/// The part that all the keys of a map have is the map.
pub proof fn lemma_prefix_map_all<V>(keys: Seq<Seq<u8>>, m: Map<Seq<u8>, V>)
    requires
        keys.to_set() == m.dom(),
    ensures
        prefix_map(keys, m, keys.len() as int) == m,
{
    assert(keys.take(keys.len() as int) =~= keys);
    assert forall|x: Seq<u8>| #[trigger]
        prefix_map(keys, m, keys.len() as int).contains_key(x) <==> m.contains_key(x) by {
        assert(keys.to_set().contains(x) <==> keys.contains(x));
    }
    assert(prefix_map(keys, m, keys.len() as int) =~= m);
}

impl<V> Table<V> {
    /// The keys, as bytes, in the order of the entries.
    pub closed spec fn keys(&self) -> Seq<Seq<u8>> {
        Seq::new(self.entries@.len(), |i: int| principal_bytes(self.entries@[i].key))
    }

    /// The values, in the order of the entries.
    pub closed spec fn values(&self) -> Seq<V> {
        Seq::new(self.entries@.len(), |i: int| self.entries@[i].value)
    }

    /// No address is filed twice.
    pub open spec fn wf(&self) -> bool {
        &&& self.keys().no_duplicates()
        &&& self.keys().len() == self.values().len()
    }

    /// The table as a map from the bytes of an address to its value.
    pub open spec fn view(&self) -> Map<Seq<u8>, V> {
        map_of(self.keys(), self.values())
    }

    /// In a table without duplicates the entry at `i` is what the map holds
    /// under the key at `i`.
    pub proof fn lemma_entry(&self, i: int)
        requires
            self.wf(),
            0 <= i < self.keys().len(),
        ensures
            self@.contains_key(self.keys()[i]),
            self@[self.keys()[i]] == self.values()[i],
    {
        let k = self.keys()[i];
        assert(self.keys().contains(k));
        let j = self.keys().index_of(k);
        assert(self.keys()[j] == k);
    }

    /// The map has as many keys as the table has entries, and finitely many.
    pub proof fn lemma_finite(&self)
        requires
            self.wf(),
        ensures
            self@.dom().finite(),
            self@.dom().len() == self.keys().len(),
            self@.dom() == self.keys().to_set(),
    {
        assert(self@.dom() =~= self.keys().to_set());
        vstd::seq_lib::seq_to_set_is_finite(self.keys());
        self.keys().unique_seq_to_set();
    }

    /// The empty table.
    pub fn new() -> (t: Self)
        ensures
            t@ == Map::<Seq<u8>, V>::empty(),
            t.keys() == Seq::<Seq<u8>>::empty(),
            t.wf(),
    {
        let t = Table { entries: Vec::new() };
        assert(t.keys() =~= Seq::<Seq<u8>>::empty());
        assert(t@ =~= Map::<Seq<u8>, V>::empty());
        t
    }

    /// The number of entries.
    pub fn len(&self) -> (n: usize)
        ensures
            n == self.keys().len(),
            n == self.values().len(),
    {
        self.entries.len()
    }

    /// The key of the entry at `i`.
    pub fn key_at(&self, i: usize) -> (key: Principal)
        requires
            i < self.keys().len(),
        ensures
            principal_bytes(key) == self.keys()[i as int],
    {
        self.entries[i].key
    }

    /// The value of the entry at `i`.
    pub fn value_at(&self, i: usize) -> (value: &V)
        requires
            self.wf(),
            i < self.keys().len(),
        ensures
            *value == self.values()[i as int],
            self@.contains_key(self.keys()[i as int]),
            self@[self.keys()[i as int]] == *value,
    {
        proof {
            self.lemma_entry(i as int);
        }
        &self.entries[i].value
    }

    /// Where the key stands, if it is filed.
    pub fn position(&self, key: &Principal) -> (at: Option<usize>)
        requires
            self.wf(),
        ensures
            match at {
                Some(i) => i < self.keys().len() && self.keys()[i as int] == principal_bytes(*key)
                    && self@.contains_key(principal_bytes(*key)) && self@[principal_bytes(*key)]
                    == self.values()[i as int],
                None => !self@.contains_key(principal_bytes(*key)),
            },
    {
        let mut i: usize = 0;
        while i < self.entries.len()
            invariant
                i <= self.entries@.len(),
                self.wf(),
                self.keys().len() == self.entries@.len(),
                forall|j: int| 0 <= j < i ==> self.keys()[j] != principal_bytes(*key),
            decreases self.entries@.len() - i,
        {
            if same_principal(&self.entries[i].key, key) {
                proof {
                    self.lemma_entry(i as int);
                }
                return Some(i);
            }
            i += 1;
        }
        None
    }

    /// Whether the key is filed.
    pub fn contains_key(&self, key: &Principal) -> (found: bool)
        requires
            self.wf(),
        ensures
            found == self@.contains_key(principal_bytes(*key)),
    {
        self.position(key).is_some()
    }

    /// The value filed under the key, if any.
    pub fn get(&self, key: &Principal) -> (value: Option<&V>)
        requires
            self.wf(),
        ensures
            match value {
                Some(v) => self@.contains_key(principal_bytes(*key)) && self@[principal_bytes(*key)]
                    == *v,
                None => !self@.contains_key(principal_bytes(*key)),
            },
    {
        match self.position(key) {
            Some(i) => Some(&self.entries[i].value),
            None => None,
        }
    }

    /// Files the value under the key, in place of what was filed there. A
    /// key that is new goes to the end.
    pub fn insert(&mut self, key: Principal, value: V)
        requires
            old(self).wf(),
        ensures
            final(self)@ == old(self)@.insert(principal_bytes(key), value),
            final(self).wf(),
            old(self)@.contains_key(principal_bytes(key)) ==> final(self).keys() == old(self).keys(),
            !old(self)@.contains_key(principal_bytes(key)) ==> final(self).keys() == old(self).keys().push(principal_bytes(key)),
    {
        let ghost before = *self;
        match self.position(&key) {
            Some(i) => {
                self.entries.set(i, Entry { key, value });
                proof {
                    assert(self.keys() =~= before.keys());
                    assert(self.values() =~= before.values().update(i as int, value));
                    assert forall|k: Seq<u8>| #[trigger]
                        self@.contains_key(k) implies self@[k] == before@.insert(
                        principal_bytes(key),
                        value,
                    )[k] by {
                        let j = self.keys().index_of(k);
                        assert(self.keys()[j] == k);
                    }
                    assert(self@ =~= before@.insert(principal_bytes(key), value));
                }
            },
            None => {
                self.entries.push(Entry { key, value });
                proof {
                    let kb = principal_bytes(key);
                    assert(self.keys() =~= before.keys().push(kb));
                    assert(self.values() =~= before.values().push(value));
                    assert(!before.keys().contains(kb));
                    assert(self.keys().no_duplicates());
                    assert forall|k: Seq<u8>|
                        self@.contains_key(k) <==> #[trigger] before@.insert(
                            kb,
                            value,
                        ).contains_key(k) by {
                        if before.keys().contains(k) {
                            let j = before.keys().index_of(k);
                            assert(self.keys()[j] == k);
                        }
                        if self.keys().contains(k) && k != kb {
                            let j = self.keys().index_of(k);
                            assert(self.keys()[j] == k);
                            assert(before.keys()[j] == k);
                        }
                        if k == kb {
                            assert(self.keys()[before.keys().len() as int] == kb);
                        }
                    }
                    assert forall|k: Seq<u8>| #[trigger]
                        self@.contains_key(k) implies self@[k] == before@.insert(kb, value)[k] by {
                        let j = self.keys().index_of(k);
                        assert(self.keys()[j] == k);
                        if k != kb {
                            assert(before.keys()[j] == k);
                            let j2 = before.keys().index_of(k);
                            assert(before.keys()[j2] == k);
                        }
                    }
                    assert(self@ =~= before@.insert(kb, value));
                }
            },
        }
    }

    /// Takes out what is filed under the key, if anything is, and hands it
    /// back. The other entries keep their order.
    pub fn remove(&mut self, key: &Principal) -> (gone: Option<V>)
        requires
            old(self).wf(),
        ensures
            final(self)@ == old(self)@.remove(principal_bytes(*key)),
            final(self).wf(),
            match gone {
                Some(v) => old(self)@.contains_key(principal_bytes(*key))
                    && old(self)@[principal_bytes(*key)] == v
                    && final(self).keys() == old(self).keys().remove(
                    old(self).keys().index_of(principal_bytes(*key)),
                ),
                None => !old(self)@.contains_key(principal_bytes(*key)) && final(self).keys()
                    == old(self).keys(),
            },
    {
        let ghost before = *self;
        let ghost kb = principal_bytes(*key);
        match self.position(key) {
            Some(i) => {
                let gone = self.entries.remove(i);
                proof {
                    assert(gone.value == before.values()[i as int]);
                    assert(before.keys().index_of(kb) == i as int) by {
                        let j = before.keys().index_of(kb);
                        assert(before.keys()[i as int] == kb);
                        assert(before.keys()[j] == kb);
                    }
                    assert(self.keys() =~= before.keys().remove(i as int));
                    assert(self.values() =~= before.values().remove(i as int));
                    assert(self.keys().no_duplicates()) by {
                        assert forall|a: int, b: int|
                            0 <= a < self.keys().len() && 0 <= b < self.keys().len() && a
                                != b implies self.keys()[a] != self.keys()[b] by {
                            let a2 = if a < i { a } else { a + 1 };
                            let b2 = if b < i { b } else { b + 1 };
                            assert(self.keys()[a] == before.keys()[a2]);
                            assert(self.keys()[b] == before.keys()[b2]);
                        }
                    }
                    assert forall|k: Seq<u8>|
                        self@.contains_key(k) <==> #[trigger] before@.remove(kb).contains_key(
                            k,
                        ) by {
                        if self.keys().contains(k) {
                            let j = self.keys().index_of(k);
                            assert(self.keys()[j] == k);
                            let j2 = if j < i { j } else { j + 1 };
                            assert(before.keys()[j2] == k);
                        }
                        if before.keys().contains(k) && k != kb {
                            let j = before.keys().index_of(k);
                            assert(before.keys()[j] == k);
                            let j2 = if j < i { j } else { j - 1 };
                            assert(self.keys()[j2] == k);
                        }
                    }
                    assert forall|k: Seq<u8>| #[trigger]
                        self@.contains_key(k) implies self@[k] == before@.remove(kb)[k] by {
                        let j = self.keys().index_of(k);
                        assert(self.keys()[j] == k);
                        let j2 = if j < i { j } else { j + 1 };
                        assert(before.keys()[j2] == k);
                        let j3 = before.keys().index_of(k);
                        assert(before.keys()[j3] == k);
                    }
                    assert(self@ =~= before@.remove(kb));
                }
                Some(gone.value)
            },
            None => {
                proof {
                    assert(self@ =~= before@.remove(kb));
                }
                None
            },
        }
    }
}

} // verus!
