//! A map from path keys to values, kept in key order.
//!
//! The entries lie in a vector, strictly ascending by key, so that walking
//! the map yields its keys in the order in which a manifest lists them and a
//! lookup is a binary search.

use vstd::prelude::*;
use crate::text::{compare_keys, key_lt, lemma_key_lt_asymmetric, lemma_key_lt_transitive, KeyOrder};

verus! {

/// Whether every key precedes all the keys after it.
pub open spec fn strictly_sorted(keys: Seq<Seq<char>>) -> bool {
    forall|i: int, j: int| 0 <= i < j < keys.len() ==> key_lt(#[trigger] keys[i], #[trigger] keys[j])
}

/// The map that a sequence of keys and the sequence of their values stand for.
pub open spec fn seq_map<V>(keys: Seq<Seq<char>>, values: Seq<V>) -> Map<Seq<char>, V> {
    Map::new(|k: Seq<char>| keys.contains(k), |k: Seq<char>| values[keys.index_of(k)])
}

/// Whether `p` is the place at which `key`, absent from `keys`, keeps them sorted.
pub open spec fn insertion_point(keys: Seq<Seq<char>>, key: Seq<char>, p: int) -> bool {
    &&& 0 <= p <= keys.len()
    &&& forall|j: int| 0 <= j < p ==> key_lt(#[trigger] keys[j], key)
    &&& forall|j: int| p <= j < keys.len() ==> key_lt(key, #[trigger] keys[j])
}

/// In sorted keys no key occurs twice: each is found at its own index.
pub proof fn lemma_sorted_index(keys: Seq<Seq<char>>, i: int)
    requires
        strictly_sorted(keys),
        0 <= i < keys.len(),
    ensures
        keys.contains(keys[i]),
        keys.index_of(keys[i]) == i,
{
    let j = keys.index_of(keys[i]);
    assert(keys.contains(keys[i]));
    assert(0 <= j < keys.len() && keys[j] == keys[i]);
    if j < i {
        lemma_key_lt_asymmetric(keys[j], keys[i]);
    } else if i < j {
        lemma_key_lt_asymmetric(keys[i], keys[j]);
    }
}

/// The map holds each key with the value at the key's index.
pub proof fn lemma_seq_map_at<V>(keys: Seq<Seq<char>>, values: Seq<V>, i: int)
    requires
        strictly_sorted(keys),
        0 <= i < keys.len(),
    ensures
        seq_map(keys, values).contains_key(keys[i]),
        seq_map(keys, values)[keys[i]] == values[i],
{
    lemma_sorted_index(keys, i);
}

/// A key at an insertion point is not among the keys.
pub proof fn lemma_insertion_point_absent(keys: Seq<Seq<char>>, key: Seq<char>, p: int)
    requires
        insertion_point(keys, key, p),
    ensures
        !keys.contains(key),
{
    if keys.contains(key) {
        let j = keys.index_of(key);
        assert(0 <= j < keys.len() && keys[j] == key);
        if j < p {
            lemma_key_lt_asymmetric(keys[j], key);
        } else {
            lemma_key_lt_asymmetric(key, keys[j]);
        }
    }
}

/// Putting a new key at its insertion point keeps the keys sorted and adds
/// exactly that entry to the map.
pub proof fn lemma_insert_new<V>(keys: Seq<Seq<char>>, values: Seq<V>, p: int, key: Seq<char>, value: V)
    requires
        strictly_sorted(keys),
        keys.len() == values.len(),
        insertion_point(keys, key, p),
    ensures
        strictly_sorted(keys.insert(p, key)),
        seq_map(keys.insert(p, key), values.insert(p, value)) == seq_map(keys, values).insert(
            key,
            value,
        ),
{
    let keys2 = keys.insert(p, key);
    let values2 = values.insert(p, value);
    assert forall|i: int, j: int| 0 <= i < j < keys2.len() implies key_lt(
        #[trigger] keys2[i],
        #[trigger] keys2[j],
    ) by {
        if j < p {
            assert(keys2[i] == keys[i] && keys2[j] == keys[j]);
        } else if j == p {
            assert(keys2[i] == keys[i]);
        } else if i == p {
            assert(keys2[j] == keys[j - 1]);
        } else if i < p {
            assert(keys2[i] == keys[i] && keys2[j] == keys[j - 1]);
        } else {
            assert(keys2[i] == keys[i - 1] && keys2[j] == keys[j - 1]);
        }
    }
    let m2 = seq_map(keys2, values2);
    let m = seq_map(keys, values).insert(key, value);
    assert forall|k: Seq<char>| m2.contains_key(k) <==> m.contains_key(k) by {
        if keys2.contains(k) {
            let i = keys2.index_of(k);
            assert(0 <= i < keys2.len() && keys2[i] == k);
            if i < p {
                assert(keys[i] == k);
            } else if i > p {
                assert(keys[i - 1] == k);
            }
        }
        if keys.contains(k) {
            let i = keys.index_of(k);
            assert(0 <= i < keys.len() && keys[i] == k);
            if i < p {
                assert(keys2[i] == k);
            } else {
                assert(keys2[i + 1] == k);
            }
        }
        if k == key {
            assert(keys2[p] == k);
        }
    }
    assert forall|k: Seq<char>| m2.contains_key(k) implies m2[k] == m[k] by {
        let i = keys2.index_of(k);
        assert(0 <= i < keys2.len() && keys2[i] == k);
        lemma_sorted_index(keys2, i);
        if i < p {
            lemma_sorted_index(keys, i);
            lemma_insertion_point_absent(keys, key, p);
        } else if i > p {
            lemma_sorted_index(keys, i - 1);
            lemma_insertion_point_absent(keys, key, p);
        }
    }
    assert(m2 =~= m);
}

/// Replacing the value at an index replaces the value of that index's key.
pub proof fn lemma_update_value<V>(keys: Seq<Seq<char>>, values: Seq<V>, i: int, value: V)
    requires
        strictly_sorted(keys),
        keys.len() == values.len(),
        0 <= i < keys.len(),
    ensures
        seq_map(keys, values.update(i, value)) == seq_map(keys, values).insert(keys[i], value),
{
    let m2 = seq_map(keys, values.update(i, value));
    let m = seq_map(keys, values).insert(keys[i], value);
    lemma_sorted_index(keys, i);
    assert forall|k: Seq<char>| m2.contains_key(k) implies m2[k] == m[k] by {
        let j = keys.index_of(k);
        assert(0 <= j < keys.len() && keys[j] == k);
        lemma_sorted_index(keys, j);
    }
    assert(m2 =~= m);
}

/// The first `i + 1` keys are the first `i` and the key that follows them.
pub proof fn lemma_take_next(keys: Seq<Seq<char>>, i: int)
    requires
        0 <= i < keys.len(),
    ensures
        keys.take(i + 1) == keys.take(i).push(keys[i]),
        keys.take(i + 1).drop_last() == keys.take(i),
        keys.take(i + 1).last() == keys[i],
        forall|k: Seq<char>|
            keys.take(i + 1).contains(k) <==> (keys.take(i).contains(k) || k == keys[i]),
{
    let seen = keys.take(i);
    let seen2 = keys.take(i + 1);
    assert(seen2 =~= seen.push(keys[i]));
    assert(seen2.drop_last() =~= seen);
    assert forall|k: Seq<char>| seen2.contains(k) <==> (seen.contains(k) || k == keys[i]) by {
        if seen.contains(k) {
            let j = seen.index_of(k);
            assert(seen2[j] == k);
        }
        if k == keys[i] {
            assert(seen2[i] == k);
        }
        if seen2.contains(k) {
            let j = seen2.index_of(k);
            if j < i {
                assert(seen[j] == k);
            }
        }
    }
}

/// A map keyed by path, whose entries lie in ascending key order.
#[derive(Debug)]
pub struct PathMap<V> {
    entries: Vec<(String, V)>,
}

impl<V> PathMap<V> {
    /// The keys, in the order in which the map holds them.
    pub closed spec fn keys(&self) -> Seq<Seq<char>> {
        Seq::new(self.entries@.len(), |i: int| self.entries@[i].0@)
    }

    /// The values, each at the index of its key.
    pub closed spec fn values(&self) -> Seq<V> {
        Seq::new(self.entries@.len(), |i: int| self.entries@[i].1)
    }

    /// The invariant of the type: one value for each key, keys strictly ascending.
    pub open spec fn wf(&self) -> bool {
        &&& self.keys().len() == self.values().len()
        &&& strictly_sorted(self.keys())
    }

    /// The map as a mathematical map.
    pub open spec fn view(&self) -> Map<Seq<char>, V> {
        seq_map(self.keys(), self.values())
    }

    /// An empty map.
    pub fn new() -> (m: Self)
        ensures
            m.wf(),
            m.keys() == Seq::<Seq<char>>::empty(),
            m.values() == Seq::<V>::empty(),
            m@ == Map::<Seq<char>, V>::empty(),
    {
        let m = PathMap { entries: Vec::new() };
        proof {
            assert(m.keys() =~= Seq::<Seq<char>>::empty());
            assert(m.values() =~= Seq::<V>::empty());
            assert(m@ =~= Map::<Seq<char>, V>::empty());
        }
        m
    }

    /// The number of entries.
    pub fn len(&self) -> (n: usize)
        ensures
            n == self.keys().len(),
            n == self.values().len(),
    {
        self.entries.len()
    }

    /// Whether the map holds no entry.
    pub fn is_empty(&self) -> (b: bool)
        ensures
            b == (self.keys().len() == 0),
            b == (self@ == Map::<Seq<char>, V>::empty()),
    {
        proof {
            if self.keys().len() == 0 {
                assert(self@ =~= Map::<Seq<char>, V>::empty());
            } else {
                assert(self.keys().contains(self.keys()[0]));
                assert(self@.contains_key(self.keys()[0]));
            }
        }
        self.entries.len() == 0
    }

    /// The key at index `i` of the key order.
    pub fn key_at(&self, i: usize) -> (k: &String)
        requires
            i < self.keys().len(),
        ensures
            k@ == self.keys()[i as int],
    {
        &self.entries[i].0
    }

    /// The value at index `i` of the key order.
    pub fn value_at(&self, i: usize) -> (v: &V)
        requires
            i < self.values().len(),
        ensures
            *v == self.values()[i as int],
    {
        &self.entries[i].1
    }

    /// Looks `key` up by binary search: the index at which it lies, or the
    /// index at which it would have to be put.
    pub fn search(&self, key: &str) -> (r: Result<usize, usize>)
        requires
            self.wf(),
        ensures
            match r {
                Ok(i) => i < self.keys().len() && self.keys()[i as int] == key@,
                Err(p) => insertion_point(self.keys(), key@, p as int),
            },
    {
        let mut lo: usize = 0;
        let mut hi: usize = self.entries.len();
        while lo < hi
            invariant
                self.wf(),
                lo <= hi <= self.keys().len(),
                self.keys().len() == self.entries@.len(),
                forall|j: int| 0 <= j < lo ==> key_lt(#[trigger] self.keys()[j], key@),
                forall|j: int| hi <= j < self.keys().len() ==> key_lt(key@, #[trigger] self.keys()[j]),
            decreases hi - lo,
        {
            let mid = lo + (hi - lo) / 2;
            let probe = compare_keys(self.entries[mid].0.as_str(), key);
            assert(self.keys()[mid as int] == self.entries@[mid as int].0@);
            match probe {
                KeyOrder::Equal => {
                    return Ok(mid);
                },
                KeyOrder::Less => {
                    assert forall|j: int| 0 <= j < mid + 1 implies key_lt(
                        #[trigger] self.keys()[j],
                        key@,
                    ) by {
                        if j < mid {
                            lemma_key_lt_transitive(self.keys()[j], self.keys()[mid as int], key@);
                        }
                    }
                    lo = mid + 1;
                },
                KeyOrder::Greater => {
                    assert forall|j: int| mid <= j < self.keys().len() implies key_lt(
                        key@,
                        #[trigger] self.keys()[j],
                    ) by {
                        if mid < j {
                            lemma_key_lt_transitive(key@, self.keys()[mid as int], self.keys()[j]);
                        }
                    }
                    hi = mid;
                },
            }
        }
        Err(lo)
    }

    /// Whether the map holds `key`.
    pub fn contains_key(&self, key: &str) -> (b: bool)
        requires
            self.wf(),
        ensures
            b == self@.contains_key(key@),
    {
        match self.search(key) {
            Ok(i) => {
                proof {
                    lemma_seq_map_at(self.keys(), self.values(), i as int);
                }
                true
            },
            Err(p) => {
                proof {
                    lemma_insertion_point_absent(self.keys(), key@, p as int);
                }
                false
            },
        }
    }

    /// The value that the map holds for `key`, if any.
    pub fn get(&self, key: &str) -> (r: Option<&V>)
        requires
            self.wf(),
        ensures
            match r {
                Some(v) => self@.contains_key(key@) && *v == self@[key@],
                None => !self@.contains_key(key@),
            },
    {
        match self.search(key) {
            Ok(i) => {
                proof {
                    lemma_seq_map_at(self.keys(), self.values(), i as int);
                }
                Some(&self.entries[i].1)
            },
            Err(p) => {
                proof {
                    lemma_insertion_point_absent(self.keys(), key@, p as int);
                }
                None
            },
        }
    }

    /// Puts `value` under `key`, in place of the value that was there if the
    /// key was present.
    pub fn insert(&mut self, key: String, value: V)
        requires
            old(self).wf(),
        ensures
            final(self).wf(),
            final(self)@ == old(self)@.insert(key@, value),
    {
        let found = self.search(key.as_str());
        let ghost keys = self.keys();
        let ghost values = self.values();
        match found {
            Ok(i) => {
                self.entries.set(i, (key, value));
                proof {
                    lemma_update_value(keys, values, i as int, value);
                    assert(self.keys() =~= keys);
                    assert(self.values() =~= values.update(i as int, value));
                }
            },
            Err(p) => {
                self.entries.insert(p, (key, value));
                proof {
                    lemma_insert_new(keys, values, p as int, key@, value);
                    assert(self.keys() =~= keys.insert(p as int, key@));
                    assert(self.values() =~= values.insert(p as int, value));
                }
            },
        }
    }

    /// Each key of the map is held with the value at its index, and the map
    /// holds nothing else.
    pub proof fn lemma_view(&self)
        requires
            self.wf(),
        ensures
            forall|i: int|
                0 <= i < self.keys().len() ==> self@.contains_key(#[trigger] self.keys()[i])
                    && self@[self.keys()[i]] == self.values()[i],
            forall|k: Seq<char>| #[trigger]
                self@.contains_key(k) ==> exists|i: int|
                    0 <= i < self.keys().len() && self.keys()[i] == k,
    {
        assert forall|i: int| 0 <= i < self.keys().len() implies self@.contains_key(
            #[trigger] self.keys()[i],
        ) && self@[self.keys()[i]] == self.values()[i] by {
            lemma_seq_map_at(self.keys(), self.values(), i);
        }
        assert forall|k: Seq<char>| #[trigger] self@.contains_key(k) implies exists|i: int|
            0 <= i < self.keys().len() && self.keys()[i] == k by {
            let i = self.keys().index_of(k);
            assert(0 <= i < self.keys().len() && self.keys()[i] == k);
        }
    }
}

/// A set of paths, kept in key order.
#[derive(Debug)]
pub struct PathSet {
    map: PathMap<()>,
}

impl PathSet {
    /// The paths, in the order in which the set holds them.
    pub closed spec fn paths(&self) -> Seq<Seq<char>> {
        self.map.keys()
    }

    /// The invariant of the type: the paths are strictly ascending.
    pub closed spec fn wf(&self) -> bool {
        self.map.wf()
    }

    /// The set as a mathematical set.
    pub closed spec fn view(&self) -> Set<Seq<char>> {
        self.map@.dom()
    }

    /// An empty set.
    pub fn new() -> (s: Self)
        ensures
            s.wf(),
            s@ == Set::<Seq<char>>::empty(),
            s.paths() == Seq::<Seq<char>>::empty(),
    {
        let s = PathSet { map: PathMap::new() };
        proof {
            assert(s@ =~= Set::<Seq<char>>::empty());
        }
        s
    }

    /// The number of paths.
    pub fn len(&self) -> (n: usize)
        ensures
            n == self.paths().len(),
    {
        self.map.len()
    }

    /// Whether the set holds no path.
    pub fn is_empty(&self) -> (b: bool)
        ensures
            b == (self.paths().len() == 0),
            b == (self@ == Set::<Seq<char>>::empty()),
    {
        let b = self.map.is_empty();
        proof {
            if b {
                assert(self@ =~= Set::<Seq<char>>::empty());
            } else {
                assert(self.map.keys().contains(self.map.keys()[0]));
                assert(self@.contains(self.map.keys()[0]));
            }
        }
        b
    }

    /// The path at index `i` of the key order.
    pub fn path_at(&self, i: usize) -> (p: &String)
        requires
            i < self.paths().len(),
        ensures
            p@ == self.paths()[i as int],
    {
        self.map.key_at(i)
    }

    /// Whether the set holds `path`.
    pub fn contains(&self, path: &str) -> (b: bool)
        requires
            self.wf(),
        ensures
            b == self@.contains(path@),
    {
        self.map.contains_key(path)
    }

    /// Adds `path` to the set.
    pub fn insert(&mut self, path: String)
        requires
            old(self).wf(),
        ensures
            final(self).wf(),
            final(self)@ == old(self)@.insert(path@),
    {
        self.map.insert(path, ());
        proof {
            assert(self@ =~= old(self)@.insert(path@));
        }
    }

    /// The set holds the paths of its sequence, which is strictly ascending,
    /// and nothing else.
    pub proof fn lemma_view(&self)
        requires
            self.wf(),
        ensures
            strictly_sorted(self.paths()),
            forall|k: Seq<char>| self@.contains(k) <==> self.paths().contains(k),
    {
    }
}

} // verus!
