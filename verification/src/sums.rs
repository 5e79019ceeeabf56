//! Counters keyed by anything: what a key counts, and what all keys add up to.

use vstd::prelude::*;

verus! {

/// The count that `m` holds for `k`: zero where it holds none.
pub open spec fn count_at<K>(m: Map<K, nat>, k: K) -> nat {
    if m.contains_key(k) {
        m[k]
    } else {
        0
    }
}

/// `m` with the count of `k` raised by `n`; a key that was not counted yet
/// enters with `n`.
pub open spec fn raised<K>(m: Map<K, nat>, k: K, n: nat) -> Map<K, nat> {
    m.insert(k, count_at(m, k) + n)
}

/// The sum of all counts in `m`.
pub open spec fn map_sum<K>(m: Map<K, nat>) -> nat
    decreases m.dom().len(),
    when m.dom().finite()
{
    if m.dom().len() == 0 {
        0
    } else {
        let k = m.dom().choose();
        m[k] + map_sum(m.remove(k))
    }
}

/// The sum may be taken with any key first.
pub proof fn lemma_map_sum_split<K>(m: Map<K, nat>, k: K)
    requires
        m.dom().finite(),
        m.contains_key(k),
    ensures
        map_sum(m) == m[k] + map_sum(m.remove(k)),
    decreases m.dom().len(),
{
    let c = m.dom().choose();
    assert(m.dom().len() > 0) by {
        if m.dom().len() == 0 {
            assert(m.dom() =~= Set::<K>::empty());
        }
    }
    if c != k {
        lemma_map_sum_split(m.remove(c), k);
        lemma_map_sum_split(m.remove(k), c);
        assert(m.remove(c).remove(k) =~= m.remove(k).remove(c));
    }
}

/// Nothing counted adds up to nothing.
pub proof fn lemma_map_sum_empty<K>()
    ensures
        map_sum(Map::<K, nat>::empty()) == 0,
{
}

/// Setting the count of one key changes the sum by the difference.
pub proof fn lemma_map_sum_insert<K>(m: Map<K, nat>, k: K, v: nat)
    requires
        m.dom().finite(),
    ensures
        map_sum(m.insert(k, v)) + count_at(m, k) == map_sum(m) + v,
{
    let after = m.insert(k, v);
    lemma_map_sum_split(after, k);
    assert(after.remove(k) =~= m.remove(k));
    if m.contains_key(k) {
        lemma_map_sum_split(m, k);
    } else {
        assert(m.remove(k) =~= m);
    }
}

/// Raising one count by `n` raises the sum by `n`.
pub proof fn lemma_map_sum_raised<K>(m: Map<K, nat>, k: K, n: nat)
    requires
        m.dom().finite(),
    ensures
        map_sum(raised(m, k, n)) == map_sum(m) + n,
        raised(m, k, n).dom().finite(),
{
    lemma_map_sum_insert(m, k, count_at(m, k) + n);
}

/// No count exceeds the sum.
pub proof fn lemma_count_within_sum<K>(m: Map<K, nat>, k: K)
    requires
        m.dom().finite(),
    ensures
        count_at(m, k) <= map_sum(m),
{
    if m.contains_key(k) {
        lemma_map_sum_split(m, k);
    }
}

} // verus!
