//! A small map that keeps its entries in a vector, in insertion order.

use crate::key::Key;
use vstd::prelude::*;

verus! {

/// A finite map from keys to values. No two entries have keys of the same
/// identity; entries stay in the order in which their keys were first added.
#[derive(Clone, Debug)]
pub struct VecMap<K, V> {
    pub entries: Vec<(K, V)>,
}

impl<K: Key, V> VecMap<K, V> {
    /// The identities of the keys, in entry order.
    pub open spec fn ids(&self) -> Seq<K::Id> {
        Seq::new(self.entries@.len(), |i: int| self.entries@[i].0.ident())
    }

    /// Well-formedness: every key occurs once.
    pub open spec fn wf(&self) -> bool {
        self.ids().no_duplicates()
    }

    /// The map from key identities to values.
    pub open spec fn view(&self) -> Map<K::Id, V> {
        Map::new(
            |id: K::Id| self.ids().contains(id),
            |id: K::Id| self.entries@[self.ids().index_of(id)].1,
        )
    }

    /// Each entry of a well-formed map is what the view holds under its key.
    pub proof fn lemma_entry(&self, i: int)
        requires
            self.wf(),
            0 <= i < self.entries@.len(),
        ensures
            self@.contains_key(self.ids()[i]),
            self@[self.ids()[i]] == self.entries@[i].1,
            self.ids().index_of(self.ids()[i]) == i,
    {
        let ids = self.ids();
        assert(ids.contains(ids[i]));
        let j = ids.index_of(ids[i]);
        assert(ids[j] == ids[i]);
    }

    /// Each key of the view is the key of some entry.
    pub proof fn lemma_key(&self, id: K::Id)
        requires
            self@.contains_key(id),
        ensures
            0 <= self.ids().index_of(id) < self.entries@.len(),
            self.ids()[self.ids().index_of(id)] == id,
            self@[id] == self.entries@[self.ids().index_of(id)].1,
    {
        assert(self.ids().contains(id));
    }

    /// The view has as many keys as there are entries, and finitely many.
    pub proof fn lemma_len(&self)
        requires
            self.wf(),
        ensures
            self@.dom().finite(),
            self@.dom().len() == self.entries@.len(),
    {
        broadcast use vstd::seq_lib::seq_to_set_is_finite;

        let ids = self.ids();
        assert(self@.dom() =~= ids.to_set());
        ids.unique_seq_to_set();
    }

    /// The view of a map is finite, whether or not it is well-formed.
    pub proof fn lemma_finite(&self)
        ensures
            self@.dom().finite(),
    {
        broadcast use vstd::seq_lib::seq_to_set_is_finite;

        assert(self@.dom() =~= self.ids().to_set());
    }

    /// Two maps with the same keys in the same order, whose values look alike
    /// through `f` entry by entry, look alike through `f` as a whole.
    pub proof fn lemma_same_view<W>(&self, other: Self, f: spec_fn(V) -> W)
        requires
            self.wf(),
            other.wf(),
            self.ids() == other.ids(),
            forall|i: int|
                0 <= i < self.entries@.len() ==> f(#[trigger] self.entries@[i].1) == f(
                    other.entries@[i].1,
                ),
        ensures
            self@.map_values(f) == other@.map_values(f),
    {
        assert(self.entries@.len() == self.ids().len());
        assert(other.entries@.len() == other.ids().len());
        assert forall|id: K::Id| self@.contains_key(id) implies f(self@[id]) == f(other@[id]) by {
            self.lemma_key(id);
            let i = self.ids().index_of(id);
            assert(f(self.entries@[i].1) == f(other.entries@[i].1));
        }
        assert(self@.dom() =~= other@.dom());
        assert(self@.map_values(f) =~= other@.map_values(f));
    }

    /// An empty map.
    pub fn new() -> (r: Self)
        ensures
            r.wf(),
            r@ == Map::<K::Id, V>::empty(),
            r.entries@.len() == 0,
    {
        let r = VecMap { entries: Vec::new() };
        assert(r@ =~= Map::<K::Id, V>::empty());
        r
    }

    /// The number of entries.
    pub fn len(&self) -> (n: usize)
        ensures
            n == self.entries@.len(),
            self.wf() ==> n == self@.dom().len(),
    {
        proof {
            if self.wf() {
                self.lemma_len();
            }
        }
        self.entries.len()
    }

    /// Whether the map has no entry.
    pub fn is_empty(&self) -> (r: bool)
        ensures
            r == (self.entries@.len() == 0),
            r == (self@ == Map::<K::Id, V>::empty()),
    {
        proof {
            if self.entries@.len() == 0 {
                assert(self@ =~= Map::<K::Id, V>::empty());
            } else {
                assert(self.ids().contains(self.ids()[0]));
                assert(self@.contains_key(self.ids()[0]));
            }
        }
        self.entries.len() == 0
    }

    /// The position of the entry with the given key, if there is one.
    pub fn find(&self, k: &K) -> (r: Option<usize>)
        ensures
            match r {
                Some(i) => i < self.entries@.len() && self.ids()[i as int] == k.ident()
                    && self@.contains_key(k.ident()) && (self.wf() ==> self@[k.ident()]
                    == self.entries@[i as int].1 && self.ids().index_of(k.ident()) == i),
                None => !self@.contains_key(k.ident()),
            },
    {
        let n = self.entries.len();
        let mut i: usize = 0;
        while i < n
            invariant
                n == self.entries@.len(),
                i <= n,
                forall|j: int| 0 <= j < i ==> self.ids()[j] != k.ident(),
            decreases n - i,
        {
            if self.entries[i].0.same(k) {
                proof {
                    assert(self.ids()[i as int] == k.ident());
                    assert(self.ids().contains(k.ident()));
                    if self.wf() {
                        self.lemma_entry(i as int);
                    }
                }
                return Some(i);
            }
            i += 1;
        }
        None
    }

    /// Whether the map has an entry for the key.
    pub fn contains_key(&self, k: &K) -> (r: bool)
        ensures
            r == self@.contains_key(k.ident()),
    {
        self.find(k).is_some()
    }

    /// The value stored under the key, if any.
    pub fn get(&self, k: &K) -> (r: Option<&V>)
        requires
            self.wf(),
        ensures
            match r {
                Some(v) => self@.contains_key(k.ident()) && *v == self@[k.ident()],
                None => !self@.contains_key(k.ident()),
            },
    {
        match self.find(k) {
            Some(i) => Some(&self.entries[i].1),
            None => None,
        }
    }

    /// Removes the entry for the key and hands its value out. The other entries
    /// keep their order.
    pub fn take(&mut self, k: &K) -> (r: Option<V>)
        requires
            old(self).wf(),
        ensures
            final(self).wf(),
            match r {
                Some(v) => old(self)@.contains_key(k.ident()) && v == old(self)@[k.ident()]
                    && final(self)@ == old(self)@.remove(k.ident()) && final(self).entries@ == old(
                    self,
                ).entries@.remove(old(self).ids().index_of(k.ident())),
                None => !old(self)@.contains_key(k.ident()) && *final(self) == *old(self),
            },
    {
        match self.find(k) {
            Some(i) => {
                let ghost before = *self;
                let e = self.entries.remove(i);
                proof {
                    before.lemma_removed(*self, i as int);
                }
                Some(e.1)
            },
            None => None,
        }
    }

    /// Removing entry `i` removes its key from the view and nothing else.
    pub proof fn lemma_removed(&self, after: Self, i: int)
        requires
            self.wf(),
            0 <= i < self.entries@.len(),
            after.entries@ == self.entries@.remove(i),
        ensures
            after.wf(),
            after@ == self@.remove(self.ids()[i]),
            after.ids() == self.ids().remove(i),
    {
        let ids = self.ids();
        let aids = after.ids();
        assert(aids =~= ids.remove(i));
        assert(aids.no_duplicates()) by {
            assert forall|a: int, b: int| 0 <= a < aids.len() && 0 <= b < aids.len() && a != b implies aids[a]
                != aids[b] by {
                let a0 = if a < i { a } else { a + 1 };
                let b0 = if b < i { b } else { b + 1 };
                assert(aids[a] == ids[a0]);
                assert(aids[b] == ids[b0]);
            }
        }
        assert forall|id: K::Id| after@.contains_key(id) <==> (self@.contains_key(id) && id
            != ids[i]) by {
            if after@.contains_key(id) {
                let j = aids.index_of(id);
                assert(aids[j] == id);
                let j0 = if j < i { j } else { j + 1 };
                assert(ids[j0] == id);
                assert(ids.contains(id));
            }
            if self@.contains_key(id) && id != ids[i] {
                let j0 = ids.index_of(id);
                assert(ids[j0] == id);
                let j = if j0 < i { j0 } else { j0 - 1 };
                assert(aids[j] == id);
                assert(aids.contains(id));
            }
        }
        assert forall|id: K::Id| after@.contains_key(id) implies after@[id] == self@[id] by {
            let j = aids.index_of(id);
            assert(aids[j] == id);
            let j0 = if j < i { j } else { j + 1 };
            assert(ids[j0] == id);
            self.lemma_entry(j0);
            after.lemma_entry(j);
        }
        assert(after@ =~= self@.remove(ids[i]));
    }

    /// Inserting a fresh key at position `i` adds it to the view and nothing else.
    pub proof fn lemma_inserted(&self, after: Self, i: int, k: K, v: V)
        requires
            self.wf(),
            0 <= i <= self.entries@.len(),
            !self@.contains_key(k.ident()),
            after.entries@ == self.entries@.insert(i, (k, v)),
        ensures
            after.wf(),
            after@ == self@.insert(k.ident(), v),
            after.ids() == self.ids().insert(i, k.ident()),
    {
        let ids = self.ids();
        let aids = after.ids();
        assert(aids =~= ids.insert(i, k.ident()));
        assert(aids.no_duplicates()) by {
            assert forall|a: int, b: int| 0 <= a < aids.len() && 0 <= b < aids.len() && a != b implies aids[a]
                != aids[b] by {
                if a != i && b != i {
                    let a0 = if a < i { a } else { a - 1 };
                    let b0 = if b < i { b } else { b - 1 };
                    assert(aids[a] == ids[a0]);
                    assert(aids[b] == ids[b0]);
                } else if a == i {
                    let b0 = if b < i { b } else { b - 1 };
                    assert(aids[b] == ids[b0]);
                    assert(ids.contains(ids[b0]));
                } else {
                    let a0 = if a < i { a } else { a - 1 };
                    assert(aids[a] == ids[a0]);
                    assert(ids.contains(ids[a0]));
                }
            }
        }
        assert forall|id: K::Id| after@.contains_key(id) <==> (self@.contains_key(id) || id
            == k.ident()) by {
            if after@.contains_key(id) {
                let j = aids.index_of(id);
                assert(aids[j] == id);
                if j != i {
                    let j0 = if j < i { j } else { j - 1 };
                    assert(ids[j0] == id);
                    assert(ids.contains(id));
                }
            }
            if self@.contains_key(id) {
                let j0 = ids.index_of(id);
                assert(ids[j0] == id);
                let j = if j0 < i { j0 } else { j0 + 1 };
                assert(aids[j] == id);
                assert(aids.contains(id));
            }
            if id == k.ident() {
                assert(aids[i] == id);
                assert(aids.contains(id));
            }
        }
        assert forall|id: K::Id| after@.contains_key(id) implies after@[id] == self@.insert(
            k.ident(),
            v,
        )[id] by {
            let j = aids.index_of(id);
            assert(aids[j] == id);
            after.lemma_entry(j);
            if j != i {
                let j0 = if j < i { j } else { j - 1 };
                assert(ids[j0] == id);
                self.lemma_entry(j0);
            }
        }
        assert(after@ =~= self@.insert(k.ident(), v));
    }

    /// Adds an entry for a key that the map does not hold yet, after all others.
    pub fn put(&mut self, k: K, v: V)
        requires
            old(self).wf(),
            !old(self)@.contains_key(k.ident()),
        ensures
            final(self).wf(),
            final(self)@ == old(self)@.insert(k.ident(), v),
            final(self).entries@ == old(self).entries@.push((k, v)),
    {
        let ghost before = *self;
        self.entries.push((k, v));
        proof {
            assert(self.entries@ =~= before.entries@.insert(before.entries@.len() as int, (k, v)));
            before.lemma_inserted(*self, before.entries@.len() as int, k, v);
        }
    }

    /// Adds an entry for a key that the map does not hold yet, at position `i`.
    pub fn put_at(&mut self, i: usize, k: K, v: V)
        requires
            old(self).wf(),
            !old(self)@.contains_key(k.ident()),
            i <= old(self).entries@.len(),
        ensures
            final(self).wf(),
            final(self)@ == old(self)@.insert(k.ident(), v),
            final(self).entries@ == old(self).entries@.insert(i as int, (k, v)),
            final(self).ids() == old(self).ids().insert(i as int, k.ident()),
    {
        let ghost before = *self;
        self.entries.insert(i, (k, v));
        proof {
            before.lemma_inserted(*self, i as int, k, v);
        }
    }

    /// Stores a value under the key, replacing and handing out what was there.
    pub fn insert(&mut self, k: K, v: V) -> (r: Option<V>)
        requires
            old(self).wf(),
        ensures
            final(self).wf(),
            final(self)@ == old(self)@.insert(k.ident(), v),
            match r {
                Some(w) => old(self)@.contains_key(k.ident()) && w == old(self)@[k.ident()],
                None => !old(self)@.contains_key(k.ident()),
            },
    {
        let r = self.take(&k);
        proof {
            assert(old(self)@.remove(k.ident()).insert(k.ident(), v) =~= old(self)@.insert(k.ident(), v));
        }
        self.put(k, v);
        r
    }

    /// The key of entry `i`.
    pub fn key_at(&self, i: usize) -> (r: &K)
        requires
            i < self.entries@.len(),
        ensures
            *r == self.entries@[i as int].0,
            r.ident() == self.ids()[i as int],
    {
        &self.entries[i].0
    }

    /// The value of entry `i`.
    pub fn value_at(&self, i: usize) -> (r: &V)
        requires
            i < self.entries@.len(),
        ensures
            *r == self.entries@[i as int].1,
            self.wf() ==> self@.contains_key(self.ids()[i as int]) && self@[self.ids()[i as int]]
                == *r,
    {
        proof {
            if self.wf() {
                self.lemma_entry(i as int);
            }
        }
        &self.entries[i].1
    }
}

} // verus!
