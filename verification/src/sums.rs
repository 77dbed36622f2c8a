//! Sums over the value side of finite `Map<u128, u128>` views, used to state
//! supply conservation: a collection's total supply equals the sum of all
//! account balances in it.

use vstd::prelude::*;

verus! {

/// The sum of all values of a finite map; zero on an infinite domain.
pub open spec fn sum_map(m: Map<u128, u128>) -> int
    decreases m.dom().len(),
    when m.dom().finite()
{
    if m.dom().finite() && m.dom().len() > 0 {
        let k = m.dom().choose();
        m[k] + sum_map(m.remove(k))
    } else {
        0
    }
}

/// Removing a present key subtracts exactly its value from the sum.
pub proof fn lemma_sum_remove(m: Map<u128, u128>, k: u128)
    requires
        m.dom().finite(),
        m.dom().contains(k),
    ensures
        sum_map(m) == sum_map(m.remove(k)) + m[k],
    decreases m.dom().len(),
{
    let c = m.dom().choose();
    assert(m.dom().contains(c));
    assert(sum_map(m) == m[c] + sum_map(m.remove(c)));
    if c == k {
    } else {
        lemma_sum_remove(m.remove(c), k);
        lemma_sum_remove(m.remove(k), c);
        assert(m.remove(c).remove(k) =~= m.remove(k).remove(c));
        assert(m.remove(k)[c] == m[c]);
        assert(m.remove(c)[k] == m[k]);
    }
}

/// Inserting a binding changes the sum by the new value minus the value it
/// replaces (zero when the key was absent).
pub proof fn lemma_sum_insert(m: Map<u128, u128>, k: u128, v: u128)
    requires
        m.dom().finite(),
    ensures
        sum_map(m.insert(k, v)) == sum_map(m) + v - (if m.dom().contains(k) {
            m[k] as int
        } else {
            0
        }),
{
    let m2 = m.insert(k, v);
    lemma_sum_remove(m2, k);
    if m.dom().contains(k) {
        lemma_sum_remove(m, k);
        assert(m2.remove(k) =~= m.remove(k));
    } else {
        assert(m2.remove(k) =~= m);
    }
}

/// The sum of the empty map is zero.
pub proof fn lemma_sum_empty()
    ensures
        sum_map(Map::<u128, u128>::empty()) == 0,
{
    assert(Map::<u128, u128>::empty().dom() =~= Set::<u128>::empty());
}

} // verus!
