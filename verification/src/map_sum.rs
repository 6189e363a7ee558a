//! Summing the values of a finite map from accounts to amounts, and the
//! facts the token ledger needs about such sums: how a sum changes under
//! insertion and removal, and that with non-negative values no entry — and
//! no pair of entries — exceeds the sum.

use vstd::prelude::*;

verus! {

broadcast use vstd::set::group_set_axioms, vstd::map::group_map_axioms;

/// The sum of all values of a finite map.
pub open spec fn sum_values(m: Map<u64, i128>) -> int
    recommends
        m.dom().finite(),
    decreases m.dom().len(),
    when m.dom().finite()
{
    if m.dom().len() > 0 {
        let k = m.dom().choose();
        m[k] + sum_values(m.remove(k))
    } else {
        0
    }
}

/// Splitting off any one entry: the sum is that entry's value plus the
/// sum of the rest.
pub proof fn lemma_sum_remove(m: Map<u64, i128>, k: u64)
    requires
        m.dom().finite(),
        m.contains_key(k),
    ensures
        sum_values(m) == sum_values(m.remove(k)) + m[k],
    decreases m.dom().len(),
{
    let k0 = m.dom().choose();
    assert(m.dom().contains(k));
    assert(m.dom().len() > 0);
    assert(m.dom().contains(k0));
    if k0 == k {
    } else {
        lemma_sum_remove(m.remove(k0), k);
        lemma_sum_remove(m.remove(k), k0);
        assert(m.remove(k0).remove(k) =~= m.remove(k).remove(k0));
    }
}

/// How the sum changes when a key is bound to a new value: the old value
/// (zero if the key was absent) leaves the sum and the new one enters it.
pub proof fn lemma_sum_insert(m: Map<u64, i128>, k: u64, v: i128)
    requires
        m.dom().finite(),
    ensures
        sum_values(m.insert(k, v)) == sum_values(m) - (if m.contains_key(k) {
            m[k] as int
        } else {
            0
        }) + v,
{
    lemma_sum_remove(m.insert(k, v), k);
    if m.contains_key(k) {
        lemma_sum_remove(m, k);
        assert(m.insert(k, v).remove(k) =~= m.remove(k));
    } else {
        assert(m.insert(k, v).remove(k) =~= m);
    }
}

/// Whether every value of the map is non-negative.
pub open spec fn all_nonneg<K>(m: Map<K, i128>) -> bool {
    forall|k: K| #[trigger] m.contains_key(k) ==> m[k] >= 0
}

/// The sum of non-negative values is non-negative.
pub proof fn lemma_sum_nonneg(m: Map<u64, i128>)
    requires
        m.dom().finite(),
        all_nonneg(m),
    ensures
        sum_values(m) >= 0,
    decreases m.dom().len(),
{
    if m.dom().len() > 0 {
        let k = m.dom().choose();
        assert(m.dom().contains(k));
        assert(all_nonneg(m.remove(k)));
        lemma_sum_nonneg(m.remove(k));
    }
}

/// With non-negative values, no single entry exceeds the sum.
pub proof fn lemma_element_le_sum(m: Map<u64, i128>, k: u64)
    requires
        m.dom().finite(),
        all_nonneg(m),
        m.contains_key(k),
    ensures
        m[k] <= sum_values(m),
{
    lemma_sum_remove(m, k);
    assert(all_nonneg(m.remove(k)));
    lemma_sum_nonneg(m.remove(k));
}

/// With non-negative values, no two distinct entries together exceed the
/// sum.
pub proof fn lemma_two_elements_le_sum(m: Map<u64, i128>, k1: u64, k2: u64)
    requires
        m.dom().finite(),
        all_nonneg(m),
        m.contains_key(k1),
        m.contains_key(k2),
        k1 != k2,
    ensures
        m[k1] + m[k2] <= sum_values(m),
{
    lemma_sum_remove(m, k1);
    assert(all_nonneg(m.remove(k1)));
    lemma_element_le_sum(m.remove(k1), k2);
}

} // verus!
