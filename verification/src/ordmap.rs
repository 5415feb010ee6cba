//! A small map that keeps its entries sorted by key.

use crate::key::Key;
use crate::key::OrdKey;
use crate::vecmap::VecMap;
use vstd::prelude::*;

verus! {

/// A finite map whose entries are held in strictly ascending key order.
#[derive(Clone, Debug)]
pub struct OrdMap<K, V> {
    pub map: VecMap<K, V>,
}

/// Whether the identities ascend strictly.
pub open spec fn ascending<K: OrdKey>(ids: Seq<K::Id>) -> bool {
    forall|i: int, j: int| 0 <= i < j < ids.len() ==> K::before(#[trigger] ids[i], #[trigger] ids[j])
}

impl<K: OrdKey, V> OrdMap<K, V> {
    /// Well-formedness: keys ascend strictly, so none occurs twice.
    pub open spec fn wf(&self) -> bool {
        ascending::<K>(self.map.ids())
    }

    /// The map from key identities to values.
    pub open spec fn view(&self) -> Map<K::Id, V> {
        self.map@
    }

    /// The identities of the keys, ascending.
    pub open spec fn ids(&self) -> Seq<K::Id> {
        self.map.ids()
    }

    /// A sorted map is a well-formed map.
    pub proof fn lemma_wf(&self)
        requires
            self.wf(),
        ensures
            self.map.wf(),
    {
        K::before_is_total_order();
        let ids = self.map.ids();
        assert forall|i: int, j: int| 0 <= i < ids.len() && 0 <= j < ids.len() && i != j implies ids[i]
            != ids[j] by {
            if i < j {
                assert(K::before(ids[i], ids[j]));
            } else {
                assert(K::before(ids[j], ids[i]));
            }
        }
    }

    /// An empty map.
    pub fn new() -> (r: Self)
        ensures
            r.wf(),
            r@ == Map::<K::Id, V>::empty(),
            r.map.entries@.len() == 0,
    {
        OrdMap { map: VecMap::new() }
    }

    /// The number of entries.
    pub fn len(&self) -> (n: usize)
        ensures
            n == self.map.entries@.len(),
            self.wf() ==> n == self@.dom().len(),
    {
        proof {
            if self.wf() {
                self.lemma_wf();
            }
        }
        self.map.len()
    }

    /// Whether the map has no entry.
    pub fn is_empty(&self) -> (r: bool)
        ensures
            r == (self.map.entries@.len() == 0),
            r == (self@ == Map::<K::Id, V>::empty()),
    {
        self.map.is_empty()
    }

    /// Whether the map has an entry for the key.
    pub fn contains_key(&self, k: &K) -> (r: bool)
        ensures
            r == self@.contains_key(k.ident()),
    {
        self.map.contains_key(k)
    }

    /// The value stored under the key, if any.
    pub fn get(&self, k: &K) -> (r: Option<&V>)
        requires
            self.wf(),
        ensures
            match r {
                Some(v) => self@.contains_key(k.ident()) && *v == self@[k.ident()],
                None => !self@.contains_key(k.ident()),
            },
    {
        proof {
            self.lemma_wf();
        }
        self.map.get(k)
    }

    /// Removes the entry for the key and hands its value out.
    pub fn take(&mut self, k: &K) -> (r: Option<V>)
        requires
            old(self).wf(),
        ensures
            final(self).wf(),
            match r {
                Some(v) => old(self)@.contains_key(k.ident()) && v == old(self)@[k.ident()]
                    && final(self)@ == old(self)@.remove(k.ident()),
                None => !old(self)@.contains_key(k.ident()) && *final(self) == *old(self),
            },
    {
        proof {
            self.lemma_wf();
        }
        let ghost before = self.map;
        let r = self.map.take(k);
        proof {
            if r is Some {
                let i = before.ids().index_of(k.ident());
                before.lemma_key(k.ident());
                before.lemma_removed(self.map, i);
                let ids = before.ids();
                let aids = self.map.ids();
                assert forall|a: int, b: int| 0 <= a < b < aids.len() implies K::before(
                    #[trigger] aids[a],
                    #[trigger] aids[b],
                ) by {
                    let a0 = if a < i { a } else { a + 1 };
                    let b0 = if b < i { b } else { b + 1 };
                    assert(aids[a] == ids[a0]);
                    assert(aids[b] == ids[b0]);
                }
            }
        }
        r
    }

    /// The first position whose key does not come before `k`.
    fn position(&self, k: &K) -> (p: usize)
        requires
            self.wf(),
        ensures
            p <= self.map.entries@.len(),
            forall|i: int| 0 <= i < p ==> K::before(#[trigger] self.ids()[i], k.ident()),
            p < self.map.entries@.len() ==> !K::before(self.ids()[p as int], k.ident()),
    {
        let n = self.map.entries.len();
        let mut p: usize = 0;
        while p < n
            invariant
                n == self.map.entries@.len(),
                p <= n,
                forall|i: int| 0 <= i < p ==> K::before(#[trigger] self.ids()[i], k.ident()),
            decreases n - p,
        {
            if !self.map.entries[p].0.precedes(k) {
                return p;
            }
            p += 1;
        }
        p
    }

    /// Adds an entry for a key that the map does not hold yet.
    pub fn put(&mut self, k: K, v: V)
        requires
            old(self).wf(),
            !old(self)@.contains_key(k.ident()),
        ensures
            final(self).wf(),
            final(self)@ == old(self)@.insert(k.ident(), v),
    {
        proof {
            self.lemma_wf();
            K::before_is_total_order();
        }
        let ghost ids = self.map.ids();
        let ghost kid = k.ident();
        let p = self.position(&k);
        assert(forall|i: int| 0 <= i < p ==> K::before(#[trigger] self.ids()[i], k.ident()));
        assert(self.ids() == ids && k.ident() == kid);
        assert(forall|i: int| 0 <= i < p ==> K::before(#[trigger] ids[i], kid));
        self.map.put_at(p, k, v);
        proof {
            let aids = self.map.ids();
            assert forall|j: int| p <= j < ids.len() implies K::before(kid, #[trigger] ids[j]) by {
                assert(ids.contains(ids[j]));
                assert(ids.contains(ids[p as int]));
                assert(ids[p as int] != kid);
                assert(K::before(kid, ids[p as int]));
                if j > p {
                    assert(K::before(ids[p as int], ids[j]));
                }
            }
            assert forall|a: int, b: int| 0 <= a < b < aids.len() implies K::before(
                #[trigger] aids[a],
                #[trigger] aids[b],
            ) by {
                if a == p {
                    assert(aids[a] == kid);
                    assert(aids[b] == ids[b - 1]);
                    assert(K::before(kid, ids[b - 1]));
                } else if b == p {
                    assert(aids[b] == kid);
                    assert(aids[a] == ids[a]);
                    assert(K::before(ids[a], kid));
                } else {
                    let a0 = if a < p { a } else { a - 1 };
                    let b0 = if b < p { b } else { b - 1 };
                    assert(aids[a] == ids[a0]);
                    assert(aids[b] == ids[b0]);
                    assert(K::before(ids[a0], ids[b0]));
                }
            }
        }
    }

    /// Stores a value under the key, replacing and handing out what was there.
    pub fn insert(&mut self, k: K, v: V) -> (r: Option<V>)
        requires
            old(self).wf(),
        ensures
            final(self).wf(),
            final(self)@ == old(self)@.insert(k.ident(), v),
            match r {
                Some(w) => old(self)@.contains_key(k.ident()) && w == old(self)@[k.ident()],
                None => !old(self)@.contains_key(k.ident()),
            },
    {
        let r = self.take(&k);
        proof {
            assert(old(self)@.remove(k.ident()).insert(k.ident(), v) =~= old(self)@.insert(k.ident(), v));
        }
        self.put(k, v);
        r
    }

    /// The key of entry `i`.
    pub fn key_at(&self, i: usize) -> (r: &K)
        requires
            i < self.map.entries@.len(),
        ensures
            *r == self.map.entries@[i as int].0,
            r.ident() == self.ids()[i as int],
    {
        self.map.key_at(i)
    }

    /// The value of entry `i`.
    pub fn value_at(&self, i: usize) -> (r: &V)
        requires
            i < self.map.entries@.len(),
        ensures
            *r == self.map.entries@[i as int].1,
            self.wf() ==> self@.contains_key(self.ids()[i as int]) && self@[self.ids()[i as int]]
                == *r,
    {
        proof {
            if self.wf() {
                self.lemma_wf();
            }
        }
        self.map.value_at(i)
    }
}

} // verus!
