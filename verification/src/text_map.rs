//! A map from texts to values that is walked in the order of its keys.
use vstd::prelude::*;

use crate::text::{
    sorted_has_no_duplicates, str_eq, str_lt, strictly_sorted, text_lt, text_lt_irreflexive,
    text_lt_total, text_lt_transitive, views,
};

verus! {

/// A map whose keys are texts, kept in strictly increasing order.
#[derive(Debug, PartialEq, Eq)]
pub struct TextMap<V> {
    entries: Vec<(String, V)>,
}

impl<V> TextMap<V> {
    /// The keys, in the order in which the map is walked.
    pub closed spec fn keys(self) -> Seq<Seq<char>> {
        Seq::new(self.entries@.len(), |i: int| self.entries@[i].0@)
    }

    /// The values, in the order of their keys.
    pub closed spec fn values(self) -> Seq<V> {
        Seq::new(self.entries@.len(), |i: int| self.entries@[i].1)
    }

    #[verifier::type_invariant]
    spec fn ordered(self) -> bool {
        strictly_sorted(self.keys())
    }
}

/// The map that pairs keys with the values at their positions.
pub open spec fn paired<V>(keys: Seq<Seq<char>>, values: Seq<V>) -> Map<Seq<char>, V> {
    Map::new(
        |k: Seq<char>| exists|i: int| 0 <= i < keys.len() && #[trigger] keys[i] == k,
        |k: Seq<char>| values[choose|i: int| 0 <= i < keys.len() && #[trigger] keys[i] == k],
    )
}

impl<V> View for TextMap<V> {
    type V = Map<Seq<char>, V>;

    open spec fn view(&self) -> Map<Seq<char>, V> {
        paired(self.keys(), self.values())
    }
}

proof fn paired_at<V>(keys: Seq<Seq<char>>, values: Seq<V>, i: int)
    requires
        strictly_sorted(keys),
        keys.len() == values.len(),
        0 <= i < keys.len(),
    ensures
        paired(keys, values).dom().contains(keys[i]),
        paired(keys, values)[keys[i]] == values[i],
{
    sorted_has_no_duplicates(keys);
    let j = choose|j: int| 0 <= j < keys.len() && #[trigger] keys[j] == keys[i];
    assert(keys[j] == keys[i]);
}

impl<V> TextMap<V> {
    /// The empty map.
    pub fn new() -> (r: Self)
        ensures
            r@ == Map::<Seq<char>, V>::empty(),
            r.keys().len() == 0,
    {
        let r = TextMap { entries: Vec::new() };
        proof {
            assert(r@ =~= Map::<Seq<char>, V>::empty());
        }
        r
    }

    /// The number of entries.
    pub fn len(&self) -> (r: usize)
        ensures
            r == self.keys().len(),
            r == self.values().len(),
            strictly_sorted(self.keys()),
    {
        proof {
            use_type_invariant(self);
        }
        self.entries.len()
    }

    /// Whether the map has no entry.
    pub fn is_empty(&self) -> (r: bool)
        ensures
            r == (self@ == Map::<Seq<char>, V>::empty()),
            r == (self.keys().len() == 0),
    {
        proof {
            use_type_invariant(self);
            if self.entries@.len() == 0 {
                assert(self@ =~= Map::<Seq<char>, V>::empty());
            } else {
                paired_at(self.keys(), self.values(), 0);
            }
        }
        self.entries.len() == 0
    }

    /// The key at a position of the walk.
    pub fn key_at(&self, i: usize) -> (r: &String)
        requires
            i < self.keys().len(),
        ensures
            r@ == self.keys()[i as int],
            self@.dom().contains(r@),
    {
        proof {
            use_type_invariant(self);
            paired_at(self.keys(), self.values(), i as int);
        }
        &self.entries[i].0
    }

    /// The value at a position of the walk.
    pub fn value_at(&self, i: usize) -> (r: &V)
        requires
            i < self.keys().len(),
        ensures
            *r == self.values()[i as int],
            self@.dom().contains(self.keys()[i as int]),
            self@[self.keys()[i as int]] == *r,
    {
        proof {
            use_type_invariant(self);
            paired_at(self.keys(), self.values(), i as int);
        }
        &self.entries[i].1
    }

    /// The keys of the walk are exactly the keys of the map.
    pub proof fn lemma_keys(&self)
        ensures
            forall|k: Seq<char>| #[trigger] self.keys().contains(k) <==> self@.dom().contains(k),
    {
        assert forall|k: Seq<char>| #[trigger]
            self.keys().contains(k) <==> self@.dom().contains(k) by {
            if self.keys().contains(k) {
                let i = choose|i: int| 0 <= i < self.keys().len() && self.keys()[i] == k;
                assert(self.keys()[i] == k);
            }
        }
    }

    /// The first position whose key does not come before the given one.
    fn position(&self, key: &str) -> (r: usize)
        ensures
            r <= self.keys().len(),
            forall|i: int| 0 <= i < r ==> text_lt(#[trigger] self.keys()[i], key@),
            forall|i: int|
                r <= i < self.keys().len() ==> !text_lt(#[trigger] self.keys()[i], key@),
    {
        proof {
            use_type_invariant(self);
        }
        let mut i: usize = 0;
        while i < self.entries.len() && str_lt(self.entries[i].0.as_str(), key)
            invariant
                i <= self.entries.len(),
                self.keys().len() == self.entries.len(),
                forall|k: int| 0 <= k < i ==> text_lt(#[trigger] self.keys()[k], key@),
            decreases self.entries.len() - i,
        {
            i = i + 1;
        }
        proof {
            assert forall|k: int| i <= k < self.keys().len() implies !text_lt(
                #[trigger] self.keys()[k],
                key@,
            ) by {
                if i < k && text_lt(self.keys()[k], key@) {
                    assert(text_lt(self.keys()[i as int], self.keys()[k]));
                    text_lt_transitive(self.keys()[i as int], self.keys()[k], key@);
                }
            }
        }
        i
    }

    /// The value of a key.
    pub fn get(&self, key: &str) -> (r: Option<&V>)
        ensures
            match r {
                Some(v) => self@.dom().contains(key@) && self@[key@] == *v,
                None => !self@.dom().contains(key@),
            },
    {
        proof {
            use_type_invariant(self);
        }
        let i = self.position(key);
        if i < self.entries.len() && str_eq(self.entries[i].0.as_str(), key) {
            proof {
                paired_at(self.keys(), self.values(), i as int);
            }
            Some(&self.entries[i].1)
        } else {
            proof {
                if self@.dom().contains(key@) {
                    let k = choose|k: int| 0 <= k < self.keys().len() && #[trigger] self.keys()[k] == key@;
                    text_lt_irreflexive(key@);
                    if k > i {
                        assert(text_lt(self.keys()[i as int], self.keys()[k]));
                    }
                }
            }
            None
        }
    }

    /// Whether the map has a key.
    pub fn contains_key(&self, key: &str) -> (r: bool)
        ensures
            r == self@.dom().contains(key@),
    {
        self.get(key).is_some()
    }

    /// The map with one more entry, or with another value for a key that it has.
    fn with(self, key: String, value: V) -> (r: Self)
        ensures
            r@ == self@.insert(key@, value),
    {
        proof {
            use_type_invariant(&self);
        }
        let ghost before = self;
        let ghost k = key@;
        let i = self.position(key.as_str());
        let found = i < self.entries.len() && str_eq(self.entries[i].0.as_str(), key.as_str());
        let TextMap { mut entries } = self;
        if found {
            entries.set(i, (key, value));
            let ghost keys = Seq::new(entries@.len(), |i: int| entries@[i].0@);
            proof {
                assert(keys =~= before.keys());
            }
            let r = TextMap { entries };
            proof {
                assert(r.keys() =~= before.keys());
                assert(r.values() =~= before.values().update(i as int, value));
                assert forall|q: Seq<char>| #[trigger]
                    before@.dom().contains(q) && q != k implies r@[q] == before@[q] by {
                    let j = choose|j: int|
                        0 <= j < before.keys().len() && #[trigger] before.keys()[j] == q;
                    paired_at(before.keys(), before.values(), j);
                    paired_at(r.keys(), r.values(), j);
                }
                paired_at(r.keys(), r.values(), i as int);
                paired_at(before.keys(), before.values(), i as int);
                assert(r@ =~= before@.insert(k, value));
            }
            r
        } else {
            proof {
                inserted_is_sorted(before.keys(), i as int, k);
            }
            entries.insert(i, (key, value));
            let ghost keys = Seq::new(entries@.len(), |i: int| entries@[i].0@);
            proof {
                assert(keys =~= before.keys().insert(i as int, k));
            }
            let r = TextMap { entries };
            proof {
                assert(r.keys() =~= before.keys().insert(i as int, k));
                assert(r.values() =~= before.values().insert(i as int, value));
                paired_insert(before.keys(), before.values(), i as int, k, value);
            }
            r
        }
    }

    /// The map without a key, and the value that the key had.
    fn without(self, key: &str) -> (r: (Self, Option<V>))
        ensures
            r.0@ == self@.remove(key@),
            match r.1 {
                Some(v) => self@.dom().contains(key@) && self@[key@] == v,
                None => !self@.dom().contains(key@),
            },
    {
        proof {
            use_type_invariant(&self);
        }
        let ghost before = self;
        let i = self.position(key);
        if i < self.entries.len() && str_eq(self.entries[i].0.as_str(), key) {
            proof {
                removed_is_sorted(before.keys(), i as int);
                paired_at(before.keys(), before.values(), i as int);
            }
            let TextMap { mut entries } = self;
            let (_, v) = entries.remove(i);
            let ghost keys = Seq::new(entries@.len(), |i: int| entries@[i].0@);
            proof {
                assert(keys =~= before.keys().remove(i as int));
            }
            let r = TextMap { entries };
            proof {
                assert(r.keys() =~= before.keys().remove(i as int));
                assert(r.values() =~= before.values().remove(i as int));
                assert(r.keys().insert(i as int, key@) =~= before.keys());
                assert(r.values().insert(i as int, v) =~= before.values());
                paired_insert(r.keys(), r.values(), i as int, key@, v);
                assert(!r@.dom().contains(key@)) by {
                    sorted_has_no_duplicates(before.keys());
                    if r@.dom().contains(key@) {
                        let j = choose|j: int|
                            0 <= j < r.keys().len() && #[trigger] r.keys()[j] == key@;
                        if j < i {
                            assert(before.keys()[j] == key@);
                        } else {
                            assert(before.keys()[j + 1] == key@);
                        }
                    }
                }
                assert(r@ =~= before@.remove(key@));
            }
            (r, Some(v))
        } else {
            proof {
                if before@.dom().contains(key@) {
                    let k = choose|k: int|
                        0 <= k < before.keys().len() && #[trigger] before.keys()[k] == key@;
                    text_lt_irreflexive(key@);
                    if k > i {
                        assert(text_lt(before.keys()[i as int], before.keys()[k]));
                    }
                }
                assert(before@ =~= before@.remove(key@));
            }
            (self, None)
        }
    }

    /// Gives a key a value, in place of the one it has.
    pub fn insert(&mut self, key: String, value: V)
        ensures
            final(self)@ == old(self)@.insert(key@, value),
    {
        let mut taken = TextMap::new();
        core::mem::swap(self, &mut taken);
        *self = taken.with(key, value);
    }

    /// Removes a key and hands back the value it had.
    pub fn remove(&mut self, key: &str) -> (r: Option<V>)
        ensures
            final(self)@ == old(self)@.remove(key@),
            match r {
                Some(v) => old(self)@.dom().contains(key@) && old(self)@[key@] == v,
                None => !old(self)@.dom().contains(key@),
            },
    {
        let mut taken = TextMap::new();
        core::mem::swap(self, &mut taken);
        let (rest, value) = taken.without(key);
        *self = rest;
        value
    }
}

impl TextMap<String> {
    /// A map with the same keys and the same texts.
    pub fn dup(&self) -> (r: Self)
        ensures
            r.keys() == self.keys(),
            views(r.values()) == views(self.values()),
    {
        proof {
            use_type_invariant(self);
        }
        let mut entries: Vec<(String, String)> = Vec::new();
        let mut i: usize = 0;
        while i < self.entries.len()
            invariant
                i <= self.entries.len(),
                entries@.len() == i,
                forall|j: int|
                    0 <= j < i ==> (#[trigger] entries@[j]).0@ == self.entries@[j].0@
                        && entries@[j].1@ == self.entries@[j].1@,
            decreases self.entries.len() - i,
        {
            entries.push((self.entries[i].0.clone(), self.entries[i].1.clone()));
            i = i + 1;
        }
        proof {
            let keys = Seq::new(entries@.len(), |i: int| entries@[i].0@);
            assert(keys =~= self.keys());
        }
        let r = TextMap { entries };
        proof {
            assert(r.keys() =~= self.keys());
            assert(views(r.values()) =~= views(self.values()));
        }
        r
    }
}

proof fn inserted_is_sorted(keys: Seq<Seq<char>>, i: int, k: Seq<char>)
    requires
        strictly_sorted(keys),
        0 <= i <= keys.len(),
        forall|j: int| 0 <= j < i ==> text_lt(#[trigger] keys[j], k),
        forall|j: int| i <= j < keys.len() ==> !text_lt(#[trigger] keys[j], k),
        i < keys.len() ==> keys[i] != k,
    ensures
        strictly_sorted(keys.insert(i, k)),
{
    let after = keys.insert(i, k);
    assert forall|a: int, b: int| 0 <= a < b < after.len() implies text_lt(
        #[trigger] after[a],
        #[trigger] after[b],
    ) by {
        if a == i {
            text_lt_total(keys[b - 1], k);
            if keys[b - 1] == k {
                assert(text_lt(keys[i], keys[b - 1]));
            }
            assert(after[b] == keys[b - 1]);
        } else if b == i {
            assert(after[a] == keys[a]);
        } else {
            let x = if a < i { a } else { a - 1 };
            let y = if b < i { b } else { b - 1 };
            assert(after[a] == keys[x]);
            assert(after[b] == keys[y]);
        }
    }
}

proof fn removed_is_sorted(keys: Seq<Seq<char>>, i: int)
    requires
        strictly_sorted(keys),
        0 <= i < keys.len(),
    ensures
        strictly_sorted(keys.remove(i)),
{
    let after = keys.remove(i);
    assert forall|a: int, b: int| 0 <= a < b < after.len() implies text_lt(
        #[trigger] after[a],
        #[trigger] after[b],
    ) by {
        let x = if a < i { a } else { a + 1 };
        let y = if b < i { b } else { b + 1 };
        assert(after[a] == keys[x]);
        assert(after[b] == keys[y]);
    }
}

proof fn paired_insert<V>(keys: Seq<Seq<char>>, values: Seq<V>, i: int, k: Seq<char>, v: V)
    requires
        keys.len() == values.len(),
        0 <= i <= keys.len(),
        strictly_sorted(keys),
        strictly_sorted(keys.insert(i, k)),
    ensures
        paired(keys.insert(i, k), values.insert(i, v)) == paired(keys, values).insert(k, v),
{
    let keys2 = keys.insert(i, k);
    let values2 = values.insert(i, v);
    let before = paired(keys, values);
    let after = paired(keys2, values2);
    paired_at(keys2, values2, i);
    assert(keys2[i] == k);
    assert forall|q: Seq<char>| #[trigger] before.dom().contains(q) implies after.dom().contains(q)
        && (q != k ==> after[q] == before[q]) by {
        let j = choose|j: int| 0 <= j < keys.len() && #[trigger] keys[j] == q;
        let j2 = if j < i { j } else { j + 1 };
        assert(keys2[j2] == q);
        paired_at(keys, values, j);
        paired_at(keys2, values2, j2);
    }
    assert forall|q: Seq<char>| #[trigger] after.dom().contains(q) && q != k implies before.dom().contains(q) by {
        let j2 = choose|j2: int| 0 <= j2 < keys2.len() && #[trigger] keys2[j2] == q;
        let j = if j2 < i { j2 } else { j2 - 1 };
        assert(keys[j] == q);
    }
    assert(after =~= before.insert(k, v));
}

} // verus!
