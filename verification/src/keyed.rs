//! A small map from store keys to values, kept as a vector of entries.

use vstd::prelude::*;
use crate::key::KeyImpl;

verus! {

/// Entries keyed by the characters of their key, each key at most once.
pub struct KeyedVec<V> {
    entries: Vec<(KeyImpl, V)>,
    map: Ghost<Map<Seq<char>, V>>,
}

impl<V> View for KeyedVec<V> {
    type V = Map<Seq<char>, V>;

    open spec fn view(&self) -> Map<Seq<char>, V> {
        self.as_map()
    }
}

impl<V> KeyedVec<V> {
    /// The entries, as a map from key characters to values.
    pub closed spec fn as_map(&self) -> Map<Seq<char>, V> {
        self.map@
    }

    /// The entries in the order in which they are stored.
    pub closed spec fn entry_seq(&self) -> Seq<(KeyImpl, V)> {
        self.entries@
    }

    /// The vector and the map agree, and no key occurs twice.
    pub closed spec fn wf(&self) -> bool {
        &&& forall|i: int, j: int|
            0 <= i < self.entries@.len() && 0 <= j < self.entries@.len() && i != j
                ==> #[trigger] self.entries@[i].0@ != #[trigger] self.entries@[j].0@
        &&& forall|i: int| 0 <= i < self.entries@.len()
            ==> #[trigger] self.map@.contains_key(self.entries@[i].0@)
                && self.map@[self.entries@[i].0@] == self.entries@[i].1
        &&& forall|k: Seq<char>| #[trigger] self.map@.contains_key(k)
            ==> exists|i: int| 0 <= i < self.entries@.len() && self.entries@[i].0@ == k
    }

    /// Every stored entry is an entry of the map.
    pub proof fn lemma_entries(&self)
        requires
            self.wf(),
        ensures
            self.entry_seq().len() == self@.dom().len(),
            forall|i: int| 0 <= i < self.entry_seq().len()
                ==> #[trigger] self@.contains_key(self.entry_seq()[i].0@)
                    && self@[self.entry_seq()[i].0@] == self.entry_seq()[i].1,
            forall|k: Seq<char>| #[trigger] self@.contains_key(k)
                ==> exists|i: int| 0 <= i < self.entry_seq().len() && self.entry_seq()[i].0@ == k,
    {
        self.lemma_dom_len();
        assert forall|i: int| 0 <= i < self.entry_seq().len()
            implies #[trigger] self@.contains_key(self.entry_seq()[i].0@)
                && self@[self.entry_seq()[i].0@] == self.entry_seq()[i].1 by {
            assert(self.map@.contains_key(self.entries@[i].0@));
        }
        assert forall|k: Seq<char>| #[trigger] self@.contains_key(k)
            implies exists|i: int| 0 <= i < self.entry_seq().len() && self.entry_seq()[i].0@ == k by {
            assert(self.map@.contains_key(k));
            let i = choose|i: int| 0 <= i < self.entries@.len() && self.entries@[i].0@ == k;
            assert(self.entry_seq()[i].0@ == k);
        }
    }

    proof fn lemma_dom_len(&self)
        requires
            self.wf(),
        ensures
            self.entries@.len() == self.map@.dom().len(),
            self.map@.dom().finite(),
    {
        let keys = self.entries@.map_values(|e: (KeyImpl, V)| e.0@);
        assert forall|i: int, j: int| 0 <= i < keys.len() && 0 <= j < keys.len() && i != j
            implies keys[i] != keys[j] by {
            assert(self.entries@[i].0@ != self.entries@[j].0@);
        }
        assert(keys.no_duplicates());
        assert(keys.to_set() =~= self.map@.dom()) by {
            assert forall|k: Seq<char>| keys.to_set().contains(k) implies self.map@.dom().contains(k) by {
                let i = choose|i: int| 0 <= i < keys.len() && keys[i] == k;
                assert(self.map@.contains_key(self.entries@[i].0@));
            }
            assert forall|k: Seq<char>| self.map@.dom().contains(k) implies keys.to_set().contains(k) by {
                let i = choose|i: int| 0 <= i < self.entries@.len() && self.entries@[i].0@ == k;
                assert(keys[i] == k);
            }
        }
        keys.unique_seq_to_set();
    }

    /// No entries.
    pub fn new() -> (r: Self)
        ensures
            r.wf(),
            r@ == Map::<Seq<char>, V>::empty(),
    {
        KeyedVec { entries: Vec::new(), map: Ghost(Map::empty()) }
    }

    /// The number of entries.
    pub fn len(&self) -> (r: usize)
        requires
            self.wf(),
        ensures
            r == self.entry_seq().len(),
            r == self@.dom().len(),
    {
        proof {
            self.lemma_dom_len();
        }
        self.entries.len()
    }

    /// The entry at position `i`.
    pub fn entry(&self, i: usize) -> (r: &(KeyImpl, V))
        requires
            i < self.entry_seq().len(),
        ensures
            *r == self.entry_seq()[i as int],
    {
        &self.entries[i]
    }

    /// Where the entry for `key` stands.
    pub fn find(&self, key: &KeyImpl) -> (r: Option<usize>)
        requires
            self.wf(),
        ensures
            r is Some <==> self@.contains_key(key@),
            r matches Some(i) ==> i < self.entry_seq().len() && self.entry_seq()[i as int].0@ == key@,
    {
        let mut i: usize = 0;
        while i < self.entries.len()
            invariant
                self.wf(),
                i <= self.entries@.len(),
                forall|j: int| 0 <= j < i ==> self.entries@[j].0@ != key@,
            decreases self.entries@.len() - i,
        {
            if self.entries[i].0 == *key {
                return Some(i);
            }
            i = i + 1;
        }
        proof {
            if self.map@.contains_key(key@) {
                let j = choose|j: int| 0 <= j < self.entries@.len() && self.entries@[j].0@ == key@;
                assert(self.entries@[j].0@ != key@);
            }
        }
        None
    }

    /// Whether an entry for `key` exists.
    pub fn contains(&self, key: &KeyImpl) -> (r: bool)
        requires
            self.wf(),
        ensures
            r == self@.contains_key(key@),
    {
        self.find(key).is_some()
    }

    /// The value stored under `key`.
    pub fn get(&self, key: &KeyImpl) -> (r: Option<&V>)
        requires
            self.wf(),
        ensures
            r is Some <==> self@.contains_key(key@),
            r matches Some(v) ==> *v == self@[key@],
    {
        match self.find(key) {
            Some(i) => Some(&self.entries[i].1),
            None => None,
        }
    }

    /// Stores `value` under `key`, replacing what was stored there.
    pub fn insert(&mut self, key: KeyImpl, value: V)
        requires
            old(self).wf(),
        ensures
            final(self).wf(),
            final(self)@ == old(self)@.insert(key@, value),
    {
        let ghost k = key@;
        let ghost v = value;
        match self.find(&key) {
            Some(i) => {
                self.entries.set(i, (key, value));
                proof {
                    self.map@ = self.map@.insert(k, v);
                }
                assert forall|k2: Seq<char>| #[trigger] self.map@.contains_key(k2)
                    implies exists|j: int| 0 <= j < self.entries@.len() && self.entries@[j].0@ == k2 by {
                    if k2 != k {
                        let j = choose|j: int| 0 <= j < old(self).entries@.len() && old(self).entries@[j].0@ == k2;
                        assert(self.entries@[j].0@ == k2);
                    } else {
                        assert(self.entries@[i as int].0@ == k2);
                    }
                }
            },
            None => {
                self.entries.push((key, value));
                proof {
                    self.map@ = self.map@.insert(k, v);
                }
                let ghost n = self.entries@.len() - 1;
                assert forall|k2: Seq<char>| #[trigger] self.map@.contains_key(k2)
                    implies exists|j: int| 0 <= j < self.entries@.len() && self.entries@[j].0@ == k2 by {
                    if k2 != k {
                        let j = choose|j: int| 0 <= j < old(self).entries@.len() && old(self).entries@[j].0@ == k2;
                        assert(self.entries@[j].0@ == k2);
                    } else {
                        assert(self.entries@[n].0@ == k2);
                    }
                }
                assert forall|i: int, j: int|
                    0 <= i < self.entries@.len() && 0 <= j < self.entries@.len() && i != j
                        implies #[trigger] self.entries@[i].0@ != #[trigger] self.entries@[j].0@ by {
                    if i == n {
                        assert(old(self).map@.contains_key(self.entries@[j].0@));
                    } else if j == n {
                        assert(old(self).map@.contains_key(self.entries@[i].0@));
                    }
                }
            },
        }
    }

    /// Drops the entry for `key`, if there is one.
    pub fn remove(&mut self, key: &KeyImpl)
        requires
            old(self).wf(),
        ensures
            final(self).wf(),
            final(self)@ == old(self)@.remove(key@),
    {
        match self.find(key) {
            Some(i) => {
                let ghost k = key@;
                let ghost last = (self.entries@.len() - 1) as int;
                let _ = self.entries.swap_remove(i);
                proof {
                    self.map@ = self.map@.remove(k);
                }
                assert forall|i2: int, j: int|
                    0 <= i2 < self.entries@.len() && 0 <= j < self.entries@.len() && i2 != j
                        implies #[trigger] self.entries@[i2].0@ != #[trigger] self.entries@[j].0@ by {
                    let oi = if i2 == i { last } else { i2 };
                    let oj = if j == i { last } else { j };
                    assert(old(self).entries@[oi].0@ != old(self).entries@[oj].0@);
                }
                let ghost entries = self.entries@;
                let ghost map = self.map@;
                assert forall|i2: int| 0 <= i2 < entries.len()
                    implies #[trigger] map.contains_key(entries[i2].0@)
                        && map[entries[i2].0@] == entries[i2].1 by {
                    let oi = if i2 == i { last } else { i2 };
                    assert(old(self).entries@[oi].0@ != old(self).entries@[i as int].0@);
                    assert(entries[i2] == old(self).entries@[oi]);
                }
                assert forall|k2: Seq<char>| #[trigger] self.map@.contains_key(k2)
                    implies exists|j: int| 0 <= j < self.entries@.len() && self.entries@[j].0@ == k2 by {
                    assert(k2 != k);
                    assert(old(self).map@.contains_key(k2));
                    let j = choose|j: int| 0 <= j < old(self).entries@.len() && old(self).entries@[j].0@ == k2;
                    if j == last {
                        assert(self.entries@[i as int].0@ == k2);
                    } else {
                        assert(self.entries@[j].0@ == k2);
                    }
                }
            },
            None => {
                assert(self.map@.remove(key@) =~= self.map@);
            },
        }
    }

    /// Drops every entry.
    pub fn clear(&mut self)
        ensures
            final(self).wf(),
            final(self)@ == Map::<Seq<char>, V>::empty(),
    {
        self.entries.clear();
        proof {
            self.map@ = Map::empty();
        }
    }
}

} // verus!
