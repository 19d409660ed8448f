//! A finite map keyed by storage keys.
use vstd::prelude::*;
use crate::key::Key;
use crate::value::Duplicate;

verus! {

/// A map from keys to values, held as a list of entries in which no key
/// occurs twice. Its view is the mathematical map; the order of the entries
/// plays no part in it.
#[derive(Debug)]
pub struct KeyMap<V> {
    entries: Vec<(Key, V)>,
}

impl<V: View> View for KeyMap<V> {
    type V = Map<Key, V::V>;

    closed spec fn view(&self) -> Map<Key, V::V> {
        Map::new(
            |k: Key| self.keys().contains(k),
            |k: Key| self.entries@[self.keys().index_of(k)].1@,
        )
    }
}

impl<V> KeyMap<V> {
    /// The keys, in the order in which the entries are held.
    pub closed spec fn keys(&self) -> Seq<Key> {
        self.entries@.map_values(|e: (Key, V)| e.0)
    }

    /// The invariant: no key occurs twice.
    #[verifier::type_invariant]
    spec fn wf(&self) -> bool {
        self.keys().no_duplicates()
    }
}

impl<V: View> KeyMap<V> {
    spec fn value_at(&self, i: int) -> V::V {
        self.entries@[i].1@
    }

    proof fn lemma_domain(&self)
        ensures
            self@.dom().finite(),
            self@.dom() == self.keys().to_set(),
    {
        assert(self@.dom() =~= self.keys().to_set());
        vstd::seq_lib::seq_to_set_is_finite(self.keys());
    }

    proof fn lemma_index(&self, i: int)
        requires
            self.wf(),
            0 <= i < self.keys().len(),
        ensures
            self.keys().contains(self.keys()[i]),
            self.keys().index_of(self.keys()[i]) == i,
    {
        let k = self.keys()[i];
        let j = self.keys().index_of(k);
        assert(0 <= j < self.keys().len() && self.keys()[j] == k);
    }

    /// The empty map.
    pub fn new() -> (map: KeyMap<V>)
        ensures
            map@ == Map::<Key, V::V>::empty(),
            map.keys() == Seq::<Key>::empty(),
    {
        let entries: Vec<(Key, V)> = Vec::new();
        assert(entries@.map_values(|e: (Key, V)| e.0) =~= Seq::<Key>::empty());
        let map = KeyMap { entries };
        assert(map@ =~= Map::<Key, V::V>::empty());
        map
    }

    /// The number of entries. The keys are exactly the domain of the map,
    /// each held once.
    pub fn len(&self) -> (n: usize)
        ensures
            n == self.keys().len(),
            n == self@.len(),
            self.keys().no_duplicates(),
            self@.dom().finite(),
            self@.dom() == self.keys().to_set(),
    {
        proof {
            use_type_invariant(&*self);
            self.lemma_domain();
            self.keys().unique_seq_to_set();
        }
        self.entries.len()
    }

    pub fn is_empty(&self) -> (b: bool)
        ensures
            b == (self.keys().len() == 0),
            b == (self@ == Map::<Key, V::V>::empty()),
    {
        proof {
            if self.keys().len() == 0 {
                assert(self@ =~= Map::<Key, V::V>::empty());
            } else {
                assert(self.keys().contains(self.keys()[0]));
                assert(self@.contains_key(self.keys()[0]));
            }
        }
        self.entries.len() == 0
    }

    /// The entry at position `i`.
    pub fn entry(&self, i: usize) -> (entry: (Key, &V))
        requires
            i < self.keys().len(),
        ensures
            entry.0 == self.keys()[i as int],
            self@.contains_key(entry.0),
            self@[entry.0] == entry.1@,
    {
        proof {
            use_type_invariant(&*self);
            self.lemma_index(i as int);
        }
        let e = &self.entries[i];
        (e.0, &e.1)
    }

    fn position(&self, key: &Key) -> (found: Option<usize>)
        ensures
            match found {
                Some(i) => i < self.keys().len() && self.keys()[i as int] == *key,
                None => !self.keys().contains(*key),
            },
    {
        let mut i: usize = 0;
        while i < self.entries.len()
            invariant
                i <= self.entries.len(),
                self.keys().len() == self.entries.len(),
                forall|j: int| 0 <= j < i ==> self.keys()[j] != *key,
            decreases self.entries.len() - i,
        {
            if self.entries[i].0 == *key {
                return Some(i);
            }
            i += 1;
        }
        None
    }

    /// Whether the map holds a value for `key`.
    pub fn contains_key(&self, key: &Key) -> (b: bool)
        ensures
            b == self@.contains_key(*key),
    {
        self.position(key).is_some()
    }

    /// The value held for `key`, if there is one.
    pub fn get(&self, key: &Key) -> (value: Option<&V>)
        ensures
            match value {
                Some(v) => self@.contains_key(*key) && self@[*key] == v@,
                None => !self@.contains_key(*key),
            },
    {
        match self.position(key) {
            Some(i) => {
                proof {
                    use_type_invariant(&*self);
                    self.lemma_index(i as int);
                }
                Some(&self.entries[i].1)
            },
            None => None,
        }
    }

    /// Sets the value held for `key`, in place of the one that was there if
    /// there was one.
    pub fn insert(&mut self, key: Key, value: V)
        ensures
            final(self)@ == old(self)@.insert(key, value@),
    {
        proof {
            use_type_invariant(&*self);
        }
        let found = self.position(&key);
        let ghost before = *self;
        let mut entries: Vec<(Key, V)> = Vec::new();
        std::mem::swap(&mut entries, &mut self.entries);
        match found {
            Some(i) => {
                entries.set(i, (key, value));
                let ghost after = KeyMap { entries };
                assert(after.keys() =~= before.keys());
                assert forall|k: Key| after.keys().contains(k) implies #[trigger] after@[k]
                    == before@.insert(key, value@)[k] by {
                    before.lemma_index(i as int);
                }
                assert(after@ =~= before@.insert(key, value@));
            },
            None => {
                entries.push((key, value));
                let ghost after = KeyMap { entries };
                assert(after.keys() =~= before.keys().push(key));
                assert forall|a: int, b: int|
                    0 <= a < after.keys().len() && 0 <= b < after.keys().len() && a != b implies after.keys()[a]
                    != after.keys()[b] by {
                    if a == before.keys().len() {
                        assert(before.keys()[b] == after.keys()[b]);
                    } else if b == before.keys().len() {
                        assert(before.keys()[a] == after.keys()[a]);
                    }
                }
                assert forall|k: Key| after.keys().contains(k) <==> (before.keys().contains(k) || k
                    == key) by {
                    if before.keys().contains(k) {
                        let j = before.keys().index_of(k);
                        assert(after.keys()[j] == k);
                    }
                    if k == key {
                        assert(after.keys()[before.keys().len() as int] == k);
                    }
                }
                assert forall|k: Key| after.keys().contains(k) implies #[trigger] after@[k]
                    == before@.insert(key, value@)[k] by {
                    let j = after.keys().index_of(k);
                    if k != key {
                        let j0 = before.keys().index_of(k);
                        assert(after.keys()[j0] == k);
                    }
                }
                assert(after@ =~= before@.insert(key, value@));
            },
        }
        self.entries = entries;
    }
}

/// Two maps with the same keys at the same positions and values of the same
/// content are the same map.
proof fn lemma_same_entries<V: View>(a: &KeyMap<V>, b: &KeyMap<V>)
    requires
        a.keys() == b.keys(),
        forall|i: int| 0 <= i < a.keys().len() ==> a.value_at(i) == b.value_at(i),
    ensures
        a@ == b@,
        a.wf() == b.wf(),
{
    assert forall|k: Key| a.keys().contains(k) implies #[trigger] a@[k] == b@[k] by {
        let i = a.keys().index_of(k);
        assert(a.value_at(i) == b.value_at(i));
    }
    assert(a@ =~= b@);
}

impl<V: Duplicate> KeyMap<V> {
    /// A copy with the same content.
    pub fn duplicate(&self) -> (copy: KeyMap<V>)
        ensures
            copy@ == self@,
            copy.keys() == self.keys(),
    {
        proof {
            use_type_invariant(&*self);
        }
        let mut entries: Vec<(Key, V)> = Vec::new();
        let mut i: usize = 0;
        while i < self.entries.len()
            invariant
                i <= self.entries.len(),
                entries.len() == i,
                forall|j: int|
                    0 <= j < i ==> entries[j].0 == self.entries[j].0 && entries[j].1@
                        == self.entries[j].1@,
            decreases self.entries.len() - i,
        {
            let e = &self.entries[i];
            entries.push((e.0, e.1.duplicate()));
            i += 1;
        }
        assert(entries@.map_values(|e: (Key, V)| e.0) =~= self.keys());
        let copy = KeyMap { entries };
        proof {
            lemma_same_entries(&copy, self);
        }
        copy
    }
}

impl<V: Duplicate> Clone for KeyMap<V> {
    fn clone(&self) -> (copy: KeyMap<V>)
        ensures
            copy@ == self@,
    {
        self.duplicate()
    }
}

} // verus!
