//! Sums over the values of finite maps.

use vstd::prelude::*;

verus! {

/// The sum of the values of a finite map.
pub open spec fn sum_of<K>(m: Map<K, int>) -> int
    decreases m.dom().len(),
    when m.dom().finite()
{
    if m.dom().len() == 0 {
        0
    } else {
        let k = m.dom().choose();
        proof {
            assert(m.dom().contains(k));
            assert(m.remove(k).dom() =~= m.dom().remove(k));
        }
        m[k] + sum_of(m.remove(k))
    }
}

/// The sum of the empty map is zero.
pub proof fn lemma_sum_empty<K>()
    ensures
        sum_of(Map::<K, int>::empty()) == 0,
{
    assert(Map::<K, int>::empty().dom() =~= Set::<K>::empty());
}

/// Any one value can be taken out of the sum.
pub proof fn lemma_sum_remove<K>(m: Map<K, int>, k: K)
    requires
        m.dom().finite(),
        m.contains_key(k),
    ensures
        sum_of(m) == m[k] + sum_of(m.remove(k)),
    decreases m.dom().len(),
{
    assert(m.dom().len() != 0) by {
        if m.dom().len() == 0 {
            assert(m.dom() =~= Set::<K>::empty());
        }
    }
    let c = m.dom().choose();
    assert(m.dom().contains(c));
    assert(m.remove(c).dom() =~= m.dom().remove(c));
    assert(m.remove(k).dom() =~= m.dom().remove(k));
    if c != k {
        // Take `k` out of what is left after `c`, and `c` out of what is left after `k`.
        lemma_sum_remove(m.remove(c), k);
        lemma_sum_remove(m.remove(k), c);
        assert(m.remove(c).remove(k) =~= m.remove(k).remove(c));
    }
}

/// A value that comes in under a new key adds to the sum.
pub proof fn lemma_sum_insert<K>(m: Map<K, int>, k: K, v: int)
    requires
        m.dom().finite(),
        !m.contains_key(k),
    ensures
        sum_of(m.insert(k, v)) == sum_of(m) + v,
{
    lemma_sum_remove(m.insert(k, v), k);
    assert(m.insert(k, v).remove(k) =~= m);
}

/// A value that changes moves the sum by the difference.
pub proof fn lemma_sum_update<K>(m: Map<K, int>, k: K, v: int)
    requires
        m.dom().finite(),
    ensures
        sum_of(m.insert(k, v)) == sum_of(m) + v - (if m.contains_key(k) {
            m[k]
        } else {
            0
        }),
{
    if m.contains_key(k) {
        lemma_sum_remove(m, k);
        lemma_sum_insert(m.remove(k), k, v);
        assert(m.remove(k).insert(k, v) =~= m.insert(k, v));
    } else {
        lemma_sum_insert(m, k, v);
    }
}

/// A value that goes out of the map goes out of the sum.
pub proof fn lemma_sum_without<K>(m: Map<K, int>, k: K)
    requires
        m.dom().finite(),
    ensures
        sum_of(m.remove(k)) == sum_of(m) - (if m.contains_key(k) {
            m[k]
        } else {
            0
        }),
{
    if m.contains_key(k) {
        lemma_sum_remove(m, k);
    } else {
        assert(m.remove(k) =~= m);
    }
}

/// A sum of numbers that are not negative is not negative.
pub proof fn lemma_sum_not_negative<K>(m: Map<K, int>)
    requires
        m.dom().finite(),
        forall|k: K| #[trigger] m.contains_key(k) ==> m[k] >= 0,
    ensures
        sum_of(m) >= 0,
    decreases m.dom().len(),
{
    if m.dom().len() == 0 {
    } else {
        let k = m.dom().choose();
        assert(m.dom().contains(k));
        assert(m.contains_key(k));
        lemma_sum_remove(m, k);
        assert(m.remove(k).dom() =~= m.dom().remove(k));
        assert forall|j: K| #[trigger] m.remove(k).contains_key(j) implies m.remove(k)[j] >= 0 by {
            assert(m.contains_key(j));
        }
        lemma_sum_not_negative(m.remove(k));
    }
}

/// The sum of differences is the difference of the sums.
pub proof fn lemma_sum_difference<K>(a: Map<K, int>, b: Map<K, int>, d: Map<K, int>)
    requires
        a.dom().finite(),
        a.dom() == b.dom(),
        a.dom() == d.dom(),
        forall|k: K| #[trigger] a.contains_key(k) ==> d[k] == a[k] - b[k],
    ensures
        sum_of(d) == sum_of(a) - sum_of(b),
    decreases a.dom().len(),
{
    if a.dom().len() == 0 {
    } else {
        let k = a.dom().choose();
        assert(a.dom().contains(k));
        assert(a.contains_key(k));
        lemma_sum_remove(a, k);
        lemma_sum_remove(b, k);
        lemma_sum_remove(d, k);
        assert(a.remove(k).dom() =~= a.dom().remove(k));
        assert(b.remove(k).dom() =~= a.dom().remove(k));
        assert(d.remove(k).dom() =~= a.dom().remove(k));
        assert forall|j: K| #[trigger] a.remove(k).contains_key(j) implies d.remove(k)[j]
            == a.remove(k)[j] - b.remove(k)[j] by {
            assert(a.contains_key(j));
        }
        lemma_sum_difference(a.remove(k), b.remove(k), d.remove(k));
    }
}

} // verus!
