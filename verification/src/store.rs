use vstd::prelude::*;

verus! {

/// An identifier-keyed mapping from a 64-bit key to a record, kept as a
/// vector of pairs with strictly increasing keys. It offers point lookup,
/// point upsert, and a full scan in ascending key order; one store holds the
/// records of one entity kind.
pub struct EntityStore<V> {
    pub entries: Vec<(u64, V)>,
}

impl<V> EntityStore<V> {
    /// Keys are strictly increasing, so each key occurs at most once and a
    /// scan of `entries` runs in ascending key order.
    pub open spec fn wf(self) -> bool {
        forall|i: int, j: int|
            0 <= i < j < self.entries@.len() ==> self.entries@[i].0 < self.entries@[j].0
    }

    pub open spec fn contains_key(self, key: u64) -> bool {
        exists|i: int| 0 <= i < self.entries@.len() && self.entries@[i].0 == key
    }

    /// The record stored under `key`, if any.
    pub open spec fn spec_get(self, key: u64) -> Option<V> {
        if self.contains_key(key) {
            let i = choose|i: int|
                0 <= i < self.entries@.len() && self.entries@[i].0 == key;
            Some(self.entries@[i].1)
        } else {
            None
        }
    }

    /// In a well-formed store a key names at most one entry.
    pub proof fn lemma_key_at_most_once(self, i: int, j: int)
        requires
            self.wf(),
            0 <= i < self.entries@.len(),
            0 <= j < self.entries@.len(),
            self.entries@[i].0 == self.entries@[j].0,
        ensures
            i == j,
    {
        if i < j {
            assert(self.entries@[i].0 < self.entries@[j].0);
        }
        if j < i {
            assert(self.entries@[j].0 < self.entries@[i].0);
        }
    }

    /// The entry at index `i` is what lookup of its key returns.
    pub proof fn lemma_get_at(self, i: int)
        requires
            self.wf(),
            0 <= i < self.entries@.len(),
        ensures
            self.spec_get(self.entries@[i].0) == Some(self.entries@[i].1),
    {
        let key = self.entries@[i].0;
        assert(self.contains_key(key));
        let j = choose|j: int|
            0 <= j < self.entries@.len() && self.entries@[j].0 == key;
        self.lemma_key_at_most_once(i, j);
    }

    pub fn new() -> (s: Self)
        ensures
            s.wf(),
            s.entries@.len() == 0,
            forall|k: u64| s.spec_get(k) is None,
    {
        EntityStore { entries: Vec::new() }
    }

    pub fn len(&self) -> (n: usize)
        ensures
            n == self.entries@.len(),
    {
        self.entries.len()
    }

    /// Point lookup.
    pub fn get(&self, key: u64) -> (r: Option<&V>)
        requires
            self.wf(),
        ensures
            match r {
                Some(v) => self.spec_get(key) == Some(*v),
                None => self.spec_get(key) is None,
            },
    {
        let n = self.entries.len();
        let mut i: usize = 0;
        while i < n
            invariant
                self.wf(),
                n == self.entries@.len(),
                i <= n,
                forall|k: int| 0 <= k < i ==> self.entries@[k].0 != key,
            decreases n - i,
        {
            if self.entries[i].0 == key {
                proof {
                    self.lemma_get_at(i as int);
                }
                return Some(&self.entries[i].1);
            }
            i += 1;
        }
        assert(!self.contains_key(key));
        None
    }

    /// Point upsert: stores `value` under `key`, overwriting any record
    /// already there; every other key keeps its record, and the ascending
    /// key order is preserved.
    pub fn insert(&mut self, key: u64, value: V)
        requires
            old(self).wf(),
        ensures
            final(self).wf(),
            final(self).spec_get(key) == Some(value),
            forall|k: u64| k != key ==> final(self).spec_get(k) == old(self).spec_get(k),
            old(self).contains_key(key) ==> final(self).entries@.len() == old(self).entries@.len(),
            !old(self).contains_key(key) ==> final(self).entries@.len() == old(
                self,
            ).entries@.len() + 1,
    {
        let n = self.entries.len();
        let mut i: usize = 0;
        while i < n && self.entries[i].0 < key
            invariant
                self.wf(),
                self.entries@ == old(self).entries@,
                n == self.entries@.len(),
                i <= n,
                forall|k: int| 0 <= k < i ==> self.entries@[k].0 < key,
            decreases n - i,
        {
            i += 1;
        }
        if i < self.entries.len() && self.entries[i].0 == key {
            let ghost pre = self.entries@;
            self.entries.set(i, (key, value));
            proof {
                assert forall|a: int, b: int|
                    0 <= a < b < self.entries@.len() implies self.entries@[a].0
                    < self.entries@[b].0 by {
                    assert(pre[a].0 < pre[b].0);
                }
                self.lemma_get_at(i as int);
                assert forall|k: u64| k != key implies self.spec_get(k) == old(self).spec_get(
                    k,
                ) by {
                    self.lemma_unchanged_after_update(*old(self), i as int, key, k);
                }
                assert(old(self).contains_key(key));
            }
        } else {
            let ghost pre = self.entries@;
            self.entries.insert(i, (key, value));
            proof {
                assert forall|a: int, b: int|
                    0 <= a < b < self.entries@.len() implies self.entries@[a].0
                    < self.entries@[b].0 by {
                    if b < i {
                        assert(pre[a].0 < pre[b].0);
                    } else if a < i && b == i {
                        assert(pre[a].0 < key);
                    } else if a < i && b > i {
                        assert(pre[a].0 < key);
                        if i < pre.len() {
                            assert(pre[i as int].0 > key);
                        }
                        assert(pre[b - 1].0 >= pre[i as int].0 || i == b - 1);
                        assert(pre[b - 1].0 > key);
                    } else if a == i {
                        assert(pre[b - 1].0 > key);
                    } else {
                        assert(pre[a - 1].0 < pre[b - 1].0);
                    }
                }
                self.lemma_get_at(i as int);
                assert forall|k: u64| k != key implies self.spec_get(k) == old(self).spec_get(
                    k,
                ) by {
                    self.lemma_unchanged_after_insert(*old(self), i as int, key, self.entries@[i as int].1, k);
                }
                assert forall|j: int| 0 <= j < pre.len() implies pre[j].0 != key by {
                    if j >= i {
                        assert(pre[i as int].0 > key);
                        if j > i {
                            assert(pre[i as int].0 < pre[j].0);
                        }
                    }
                }
                assert(!old(self).contains_key(key));
            }
        }
    }

    /// After overwriting index `i` (whose key is `key`), lookup of any other
    /// key is unchanged.
    proof fn lemma_unchanged_after_update(self, pre: Self, i: int, key: u64, k: u64)
        requires
            self.wf(),
            pre.wf(),
            0 <= i < pre.entries@.len(),
            self.entries@.len() == pre.entries@.len(),
            self.entries@[i].0 == key,
            forall|j: int| 0 <= j < pre.entries@.len() && j != i ==> self.entries@[j] == pre.entries@[j],
            pre.entries@[i].0 == key,
            k != key,
        ensures
            self.spec_get(k) == pre.spec_get(k),
    {
        if self.contains_key(k) {
            let j = choose|j: int|
                0 <= j < self.entries@.len() && self.entries@[j].0 == k;
            assert(j != i);
            assert(pre.entries@[j].0 == k);
            self.lemma_get_at(j);
            pre.lemma_get_at(j);
        } else if pre.contains_key(k) {
            let j = choose|j: int|
                0 <= j < pre.entries@.len() && pre.entries@[j].0 == k;
            assert(j != i);
            assert(self.entries@[j].0 == k);
            assert(self.contains_key(k));
        }
    }

    /// After inserting a fresh pair at index `i`, lookup of any other key is
    /// unchanged: old indices below `i` stay, those at or above shift up.
    proof fn lemma_unchanged_after_insert(self, pre: Self, i: int, key: u64, v: V, k: u64)
        requires
            self.wf(),
            pre.wf(),
            0 <= i <= pre.entries@.len(),
            self.entries@ == pre.entries@.insert(i, (key, v)),
            self.entries@[i].0 == key,
            k != key,
        ensures
            self.spec_get(k) == pre.spec_get(k),
    {
        if self.contains_key(k) {
            let j = choose|j: int|
                0 <= j < self.entries@.len() && self.entries@[j].0 == k;
            assert(j != i);
            if j < i {
                assert(pre.entries@[j].0 == k);
                self.lemma_get_at(j);
                pre.lemma_get_at(j);
            } else {
                assert(pre.entries@[j - 1].0 == k);
                self.lemma_get_at(j);
                pre.lemma_get_at(j - 1);
            }
        } else if pre.contains_key(k) {
            let j = choose|j: int|
                0 <= j < pre.entries@.len() && pre.entries@[j].0 == k;
            if j < i {
                assert(self.entries@[j].0 == k);
            } else {
                assert(self.entries@[j + 1].0 == k);
            }
            assert(self.contains_key(k));
        }
    }
}

} // verus!
