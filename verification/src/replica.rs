//! Copies of values that the ledger holds, made so that an operation of
//! several steps can be undone.

use crate::account::Account;
use crate::blob::Blob;
use crate::key::Key;
use crate::key::OrdKey;
use crate::model::AccountView;
use crate::model::BlobView;
use crate::ordmap::OrdMap;
use crate::vecmap::VecMap;
use vstd::prelude::*;

verus! {

/// A value of which a copy can be made that looks the same.
pub trait Replica: Sized {
    /// What a value looks like.
    type Look;

    /// What this value looks like.
    spec fn look(&self) -> Self::Look;

    /// Whether the value is well-formed.
    spec fn intact(&self) -> bool;

    /// A copy: well-formed, and looking the same.
    fn replica(&self) -> (r: Self)
        requires
            self.intact(),
        ensures
            r.intact(),
            r.look() == self.look(),
    ;
}

impl Replica for bool {
    type Look = bool;

    open spec fn look(&self) -> bool {
        *self
    }

    open spec fn intact(&self) -> bool {
        true
    }

    fn replica(&self) -> (r: Self) {
        *self
    }
}

impl Replica for () {
    type Look = ();

    open spec fn look(&self) -> () {
        ()
    }

    open spec fn intact(&self) -> bool {
        true
    }

    fn replica(&self) -> (r: Self) {
        ()
    }
}

impl Replica for Account {
    type Look = AccountView;

    open spec fn look(&self) -> AccountView {
        self@
    }

    open spec fn intact(&self) -> bool {
        self.wf()
    }

    fn replica(&self) -> (r: Self) {
        self.dup()
    }
}

impl Replica for Blob {
    type Look = BlobView;

    open spec fn look(&self) -> BlobView {
        self@
    }

    open spec fn intact(&self) -> bool {
        self.wf()
    }

    fn replica(&self) -> (r: Self) {
        self.dup()
    }
}

/// A copy of a map with the same keys in the same order, each value a copy.
pub fn replica_of_entries<K: Key, V: Replica>(m: &VecMap<K, V>) -> (r: VecMap<K, V>)
    requires
        m.intact(),
    ensures
        r.intact(),
        r.look() == m.look(),
        r.ids() == m.ids(),
{
    let n = m.len();
    let mut r: VecMap<K, V> = VecMap::new();
    let mut i: usize = 0;
    while i < n
        invariant
            m.intact(),
            r.wf(),
            i <= n,
            n == m.entries@.len(),
            r.entries@.len() == i,
            r.ids() == m.ids().take(i as int),
            forall|j: int|
                0 <= j < i ==> (#[trigger] r.entries@[j]).1.intact() && r.entries@[j].1.look()
                    == m.entries@[j].1.look(),
        decreases n - i,
    {
        let k = m.key_at(i).dup();
        proof {
            m.lemma_entry(i as int);
        }
        let v = m.value_at(i).replica();
        proof {
            assert(!r.ids().contains(k.ident())) by {
                if r.ids().contains(k.ident()) {
                    let j = r.ids().index_of(k.ident());
                    assert(m.ids()[j] == m.ids()[i as int]);
                }
            }
        }
        r.put(k, v);
        proof {
            assert(r.ids() =~= m.ids().take(i + 1));
        }
        i += 1;
    }
    proof {
        assert(m.ids().take(n as int) =~= m.ids());
        r.lemma_same_view(*m, |v: V| v.look());
        assert forall|id: K::Id| #[trigger] r@.contains_key(id) implies r@[id].intact() by {
            r.lemma_key(id);
        }
    }
    r
}

impl<K: Key, V: Replica> Replica for VecMap<K, V> {
    type Look = Map<K::Id, V::Look>;

    open spec fn look(&self) -> Map<K::Id, V::Look> {
        self@.map_values(|v: V| v.look())
    }

    open spec fn intact(&self) -> bool {
        &&& self.wf()
        &&& forall|id: K::Id| #[trigger] self@.contains_key(id) ==> self@[id].intact()
    }

    fn replica(&self) -> (r: Self) {
        replica_of_entries(self)
    }
}

impl<K: OrdKey, V: Replica> Replica for OrdMap<K, V> {
    type Look = Map<K::Id, V::Look>;

    open spec fn look(&self) -> Map<K::Id, V::Look> {
        self.map.look()
    }

    open spec fn intact(&self) -> bool {
        &&& self.wf()
        &&& self.map.intact()
    }

    fn replica(&self) -> (r: Self) {
        OrdMap { map: replica_of_entries(&self.map) }
    }
}

} // verus!
