use vstd::prelude::*;

verus! {

/// A key of a persisted record: a plain value that can be compared at run time.
pub trait Key: Copy {
    /// Whether two keys are the same key.
    fn same(&self, other: &Self) -> (r: bool)
        ensures
            r == (*self == *other),
    ;
}

impl Key for u32 {
    fn same(&self, other: &u32) -> (r: bool) {
        *self == *other
    }
}

/// One persisted record.
struct Entry<K, V> {
    key: K,
    value: V,
}

/// A key-value table of persisted records. What the table holds is the map
/// given by its view; a key that the map lacks has no record.
pub struct Table<K, V> {
    entries: Vec<Entry<K, V>>,
}

impl<K, V> View for Table<K, V> {
    type V = Map<K, V>;

    closed spec fn view(&self) -> Map<K, V> {
        Map::new(
            |k: K| exists|i: int| 0 <= i < self.entries@.len() && self.entries@[i].key == k,
            |k: K|
                self.entries@[choose|i: int|
                    0 <= i < self.entries@.len() && self.entries@[i].key == k].value,
        )
    }
}

impl<K: Key, V: Copy> Table<K, V> {
    /// Every key occurs at most once among the records.
    pub closed spec fn wf(&self) -> bool {
        forall|i: int, j: int|
            0 <= i < self.entries@.len() && 0 <= j < self.entries@.len() && i != j
                ==> self.entries@[i].key != self.entries@[j].key
    }

    spec fn holds(&self, i: int) -> bool {
        0 <= i < self.entries@.len()
    }

    proof fn lemma_entries(&self)
        requires
            self.wf(),
        ensures
            forall|i: int| #[trigger]
                self.holds(i) ==> self@.contains_key(self.entries@[i].key) && self@[self.entries@[i].key]
                    == self.entries@[i].value,
            forall|k: K|
                self@.contains_key(k) ==> exists|i: int| #[trigger]
                    self.holds(i) && self.entries@[i].key == k,
    {
        assert forall|i: int| #[trigger] self.holds(i) implies self@.contains_key(
            self.entries@[i].key,
        ) && self@[self.entries@[i].key] == self.entries@[i].value by {
            let k = self.entries@[i].key;
            let c = choose|c: int| 0 <= c < self.entries@.len() && self.entries@[c].key == k;
            assert(c == i);
        }
        assert forall|k: K| self@.contains_key(k) implies exists|i: int| #[trigger]
            self.holds(i) && self.entries@[i].key == k by {
            let c = choose|c: int| 0 <= c < self.entries@.len() && self.entries@[c].key == k;
            assert(self.holds(c));
        }
    }

    /// The empty table.
    pub fn new() -> (t: Self)
        ensures
            t.wf(),
            t@ == Map::<K, V>::empty(),
    {
        let t = Table { entries: Vec::new() };
        assert(t@ =~= Map::<K, V>::empty());
        t
    }

    fn position(&self, key: &K) -> (r: Option<usize>)
        ensures
            match r {
                Some(i) => i < self.entries@.len() && self.entries@[i as int].key == *key,
                None => forall|j: int| 0 <= j < self.entries@.len() ==> self.entries@[j].key != *key,
            },
    {
        let mut i: usize = 0;
        while i < self.entries.len()
            invariant
                i <= self.entries@.len(),
                forall|j: int| 0 <= j < i ==> self.entries@[j].key != *key,
            decreases self.entries@.len() - i,
        {
            if self.entries[i].key.same(key) {
                return Some(i);
            }
            i = i + 1;
        }
        None
    }

    /// The record stored under `key`, if there is one.
    pub fn get(&self, key: &K) -> (r: Option<V>)
        requires
            self.wf(),
        ensures
            r == if self@.contains_key(*key) { Some(self@[*key]) } else { None::<V> },
    {
        match self.position(key) {
            Some(i) => Some(self.entries[i].value),
            None => None,
        }
    }

    /// Whether a record is stored under `key`.
    pub fn has(&self, key: &K) -> (r: bool)
        requires
            self.wf(),
        ensures
            r == self@.contains_key(*key),
    {
        self.position(key).is_some()
    }

    /// Stores `value` under `key`, replacing what was stored there.
    pub fn set(&mut self, key: K, value: V)
        requires
            old(self).wf(),
        ensures
            final(self).wf(),
            final(self)@ == old(self)@.insert(key, value),
    {
        let found = self.position(&key);
        match found {
            Some(i) => {
                self.entries.set(i, Entry { key, value });
            },
            None => {
                self.entries.push(Entry { key, value });
            },
        }
        proof {
            old(self).lemma_entries();
            self.lemma_entries();
            let before = old(self)@.insert(key, value);
            assert forall|k: K| #[trigger] before.dom().contains(k) implies self@.dom().contains(k)
                && self@[k] == before[k] by {
                if k == key {
                    match found {
                        Some(i) => {
                            assert(self.holds(i as int));
                        },
                        None => {
                            assert(self.holds(old(self).entries@.len() as int));
                        },
                    }
                } else {
                    let i = choose|i: int| #[trigger]
                        old(self).holds(i) && old(self).entries@[i].key == k;
                    assert(self.holds(i));
                }
            }
            assert forall|k: K| #[trigger] self@.dom().contains(k) implies before.dom().contains(
                k,
            ) by {
                let i = choose|i: int| #[trigger] self.holds(i) && self.entries@[i].key == k;
                if k != key {
                    assert(old(self).holds(i));
                }
            }
            assert(self@ =~= before);
        }
    }

    /// Removes the record stored under `key`, if there is one.
    pub fn remove(&mut self, key: &K)
        requires
            old(self).wf(),
        ensures
            final(self).wf(),
            final(self)@ == old(self)@.remove(*key),
    {
        let found = self.position(key);
        match found {
            Some(i) => {
                self.entries.remove(i);
            },
            None => {},
        }
        proof {
            old(self).lemma_entries();
            let before = old(self)@.remove(*key);
            assert forall|i: int, j: int|
                0 <= i < self.entries@.len() && 0 <= j < self.entries@.len() && i != j implies self.entries@[i].key
                != self.entries@[j].key by {
                match found {
                    Some(at) => {
                        let oi = if i < at { i } else { i + 1 };
                        let oj = if j < at { j } else { j + 1 };
                        assert(self.entries@[i] == old(self).entries@[oi]);
                        assert(self.entries@[j] == old(self).entries@[oj]);
                    },
                    None => {},
                }
            }
            self.lemma_entries();
            assert forall|k: K| #[trigger] before.dom().contains(k) implies self@.dom().contains(k)
                && self@[k] == before[k] by {
                let i = choose|i: int| #[trigger]
                    old(self).holds(i) && old(self).entries@[i].key == k;
                match found {
                    Some(at) => {
                        let ni = if i < at { i } else { i - 1 };
                        assert(self.entries@[ni] == old(self).entries@[i]);
                        assert(self.holds(ni));
                    },
                    None => {
                        assert(self.holds(i));
                    },
                }
            }
            assert forall|k: K| #[trigger] self@.dom().contains(k) implies before.dom().contains(
                k,
            ) by {
                let i = choose|i: int| #[trigger] self.holds(i) && self.entries@[i].key == k;
                match found {
                    Some(at) => {
                        let oi = if i < at { i } else { i + 1 };
                        assert(self.entries@[i] == old(self).entries@[oi]);
                        assert(old(self).holds(oi));
                        assert(old(self).holds(at as int));
                    },
                    None => {
                        assert(old(self).holds(i));
                    },
                }
            }
            assert(self@ =~= before);
        }
    }

    /// A second table holding the same records.
    pub fn duplicate(&self) -> (t: Self)
        requires
            self.wf(),
        ensures
            t.wf(),
            t@ == self@,
    {
        let mut entries: Vec<Entry<K, V>> = Vec::new();
        let mut i: usize = 0;
        while i < self.entries.len()
            invariant
                i <= self.entries@.len(),
                entries@.len() == i,
                forall|j: int| 0 <= j < i ==> entries@[j] == self.entries@[j],
            decreases self.entries@.len() - i,
        {
            entries.push(Entry { key: self.entries[i].key, value: self.entries[i].value });
            i = i + 1;
        }
        assert(entries@ =~= self.entries@);
        let t = Table { entries };
        assert(t@ =~= self@);
        t
    }
}

} // verus!
