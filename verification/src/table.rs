//! Lookup tables: values under keys that are compared by what they name.

use vstd::prelude::*;

verus! {

/// Something that a table can be keyed by.
pub trait Key: View + Sized {
    /// Whether two keys name the same thing.
    fn same_key(&self, other: &Self) -> (r: bool)
        ensures
            r == (self@ == other@),
    ;

    /// A key that names the same thing.
    fn copy_key(&self) -> (r: Self)
        ensures
            r@ == self@,
    ;
}

impl Key for String {
    fn same_key(&self, other: &Self) -> (r: bool) {
        crate::split::same(self.as_str(), other.as_str())
    }

    fn copy_key(&self) -> (r: Self) {
        self.clone()
    }
}

/// A table of values, at most one under each key.
#[derive(Debug)]
pub struct Table<K, V> {
    entries: Vec<(K, V)>,
}

impl<K: Key, V: View> View for Table<K, V> {
    type V = Map<K::V, V::V>;

    closed spec fn view(&self) -> Map<K::V, V::V> {
        Map::new(
            |k: K::V| self.keys().contains(k),
            |k: K::V| self.entries@[self.keys().index_of(k)].1@,
        )
    }
}

impl<K: Key, V: View> Table<K, V> {
    /// The keys, in the order in which the table holds them.
    pub closed spec fn keys(&self) -> Seq<K::V> {
        Seq::new(self.entries@.len(), |i: int| self.entries@[i].0@)
    }

    /// No key occurs twice.
    pub open spec fn wf(&self) -> bool {
        self.keys().no_duplicates()
    }

    /// What the table holds under the key at a position.
    proof fn lemma_entry(&self, i: int)
        requires
            self.wf(),
            0 <= i < self.entries@.len(),
        ensures
            self@.contains_key(self.entries@[i].0@),
            self@[self.entries@[i].0@] == self.entries@[i].1@,
    {
        let k = self.keys()[i];
        assert(self.keys().contains(k));
        let j = self.keys().index_of(k);
        assert(self.keys()[j] == k);
    }

    /// A table is keyed by exactly its keys.
    pub proof fn lemma_keys(&self)
        requires
            self.wf(),
        ensures
            self@.dom() == self.keys().to_set(),
            self@.dom().len() == self.keys().len(),
            self@.dom().finite(),
    {
        assert(self@.dom() =~= self.keys().to_set());
        self.keys().unique_seq_to_set();
        vstd::seq_lib::seq_to_set_is_finite(self.keys());
    }

    /// An empty table.
    pub fn new() -> (r: Self)
        ensures
            r.wf(),
            r@ == Map::<K::V, V::V>::empty(),
            r.keys().len() == 0,
    {
        let r = Table { entries: Vec::new() };
        assert(r@ =~= Map::<K::V, V::V>::empty());
        r
    }

    /// How many keys the table holds.
    pub fn len(&self) -> (r: usize)
        ensures
            r == self.keys().len(),
    {
        self.entries.len()
    }

    /// The key at a position.
    pub fn key_at(&self, i: usize) -> (r: &K)
        requires
            self.wf(),
            i < self.keys().len(),
        ensures
            r@ == self.keys()[i as int],
            self@.contains_key(r@),
    {
        proof {
            self.lemma_entry(i as int);
        }
        &self.entries[i].0
    }

    /// The value at a position.
    pub fn value_at(&self, i: usize) -> (r: &V)
        requires
            self.wf(),
            i < self.keys().len(),
        ensures
            r@ == self@[self.keys()[i as int]],
    {
        proof {
            self.lemma_entry(i as int);
        }
        &self.entries[i].1
    }

    /// Where a key stands; the table's length if nowhere.
    fn find(&self, k: &K) -> (r: usize)
        requires
            self.wf(),
        ensures
            r <= self.entries@.len(),
            r < self.entries@.len() ==> self.entries@[r as int].0@ == k@,
            r == self.entries@.len() ==> !self@.contains_key(k@),
            r < self.entries@.len() ==> self@.contains_key(k@),
    {
        let mut i: usize = 0;
        while i < self.entries.len()
            invariant
                i <= self.entries@.len(),
                self.wf(),
                forall|j: int| 0 <= j < i ==> #[trigger] self.keys()[j] != k@,
            decreases self.entries@.len() - i,
        {
            if self.entries[i].0.same_key(k) {
                proof {
                    self.lemma_entry(i as int);
                }
                return i;
            }
            i += 1;
        }
        i
    }

    /// Whether the table holds a key.
    pub fn contains(&self, k: &K) -> (r: bool)
        requires
            self.wf(),
        ensures
            r == self@.contains_key(k@),
    {
        self.find(k) < self.entries.len()
    }

    /// The value under a key.
    pub fn get(&self, k: &K) -> (r: Option<&V>)
        requires
            self.wf(),
        ensures
            match r {
                Some(v) => self@.contains_key(k@) && v@ == self@[k@],
                None => !self@.contains_key(k@),
            },
    {
        let i: usize = self.find(k);
        if i < self.entries.len() {
            proof {
                self.lemma_entry(i as int);
            }
            Some(&self.entries[i].1)
        } else {
            None
        }
    }

    /// Two tables hold the same when every entry of one is one of the other.
    proof fn lemma_same_map(self, m: Map<K::V, V::V>)
        requires
            self.wf(),
            forall|i: int|
                0 <= i < self.entries@.len() ==> m.dom().contains(#[trigger] self.entries@[i].0@)
                    && m[self.entries@[i].0@] == self.entries@[i].1@,
            forall|k: K::V| #[trigger] m.dom().contains(k) ==> self.keys().contains(k),
        ensures
            self@ == m,
    {
        assert forall|k: K::V| #[trigger] self@.dom().contains(k) implies m.dom().contains(k)
            && self@[k] == m[k] by {
            let i = self.keys().index_of(k);
            self.lemma_entry(i);
            assert(self.entries@[i].0@ == k);
        }
        assert(self@.dom() =~= m.dom());
        assert(self@ =~= m);
    }

    /// Puts a value under a key, in place of what was there.
    pub fn insert(&mut self, k: K, v: V)
        requires
            old(self).wf(),
        ensures
            final(self).wf(),
            final(self)@ == old(self)@.insert(k@, v@),
    {
        let i: usize = self.find(&k);
        let ghost before = *self;
        let ghost kv = k@;
        let ghost m = self@.insert(k@, v@);
        if i < self.entries.len() {
            self.entries.set(i, (k, v));
            proof {
                assert(self.keys() =~= before.keys());
                assert(self.keys()[i as int] == kv);
            }
        } else {
            self.entries.push((k, v));
            proof {
                assert(self.keys() =~= before.keys().push(kv));
                assert forall|a: int, b: int|
                    0 <= a < self.keys().len() && 0 <= b < self.keys().len() && a
                        != b implies self.keys()[a] != self.keys()[b] by {
                    if a < before.keys().len() && b < before.keys().len() {
                        assert(before.keys()[a] != before.keys()[b]);
                    } else if a < before.keys().len() {
                        assert(before.keys().contains(before.keys()[a]));
                    } else {
                        assert(before.keys().contains(before.keys()[b]));
                    }
                }
            }
        }
        proof {
            assert forall|j: int| 0 <= j < self.entries@.len() implies m.dom().contains(
                #[trigger] self.entries@[j].0@,
            ) && m[self.entries@[j].0@] == self.entries@[j].1@ by {
                if j != i {
                    before.lemma_entry(j);
                    assert(self.keys()[j] != self.keys()[i as int]);
                }
            }
            assert forall|q: K::V| #[trigger] m.dom().contains(q) implies self.keys().contains(
                q,
            ) by {
                if q == kv {
                    assert(self.keys()[i as int] == q);
                } else {
                    let j = before.keys().index_of(q);
                    assert(self.keys()[j] == q);
                }
            }
            self.lemma_same_map(m);
        }
    }

    /// Takes out the value under a key.
    pub fn remove(&mut self, k: &K) -> (r: Option<V>)
        requires
            old(self).wf(),
        ensures
            final(self).wf(),
            final(self)@ == old(self)@.remove(k@),
            match r {
                Some(v) => old(self)@.contains_key(k@) && v@ == old(self)@[k@],
                None => !old(self)@.contains_key(k@),
            },
    {
        let i: usize = self.find(k);
        let ghost before = *self;
        if i < self.entries.len() {
            proof {
                self.lemma_entry(i as int);
            }
            let (_key, value) = self.entries.remove(i);
            proof {
                let m = before@.remove(k@);
                assert(self.keys() =~= before.keys().remove(i as int));
                assert(before.keys()[i as int] == k@);
                assert forall|a: int, b: int|
                    0 <= a < self.keys().len() && 0 <= b < self.keys().len() && a
                        != b implies self.keys()[a] != self.keys()[b] by {
                    let c = if a < i { a } else { a + 1 };
                    let d = if b < i { b } else { b + 1 };
                    assert(before.keys()[c] != before.keys()[d]);
                }
                assert forall|j: int| 0 <= j < self.entries@.len() implies m.dom().contains(
                    #[trigger] self.entries@[j].0@,
                ) && m[self.entries@[j].0@] == self.entries@[j].1@ by {
                    let n = if j < i { j } else { j + 1 };
                    before.lemma_entry(n);
                    assert(self.entries@[j] == before.entries@[n]);
                    assert(before.keys()[n] != before.keys()[i as int]);
                }
                assert forall|q: K::V| #[trigger] m.dom().contains(q) implies self.keys().contains(
                    q,
                ) by {
                    let j = before.keys().index_of(q);
                    assert(before.keys()[j] == q);
                    let n = if j < i { j } else { j - 1 };
                    assert(self.keys()[n] == q);
                }
                self.lemma_same_map(m);
            }
            Some(value)
        } else {
            proof {
                assert(before@.remove(k@) =~= before@);
            }
            None
        }
    }
}

}
