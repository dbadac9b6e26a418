//! Sums of amounts over finite sets of keys.

use vstd::prelude::*;

verus! {

/// The sum of `m[k]` over the keys `k` in `keys`.
pub open spec fn sum_of<K>(keys: Set<K>, m: Map<K, i128>) -> int
    decreases keys.len(),
    when keys.finite()
{
    if keys.len() == 0 {
        0
    } else {
        let k = keys.choose();
        m[k] + sum_of(keys.remove(k), m)
    }
}

/// Any key of the set can be taken out of the sum first.
pub proof fn lemma_sum_remove<K>(keys: Set<K>, m: Map<K, i128>, a: K)
    requires
        keys.finite(),
        keys.contains(a),
    ensures
        sum_of(keys, m) == m[a] + sum_of(keys.remove(a), m),
    decreases keys.len(),
{
    let k = keys.choose();
    assert(keys.len() != 0);
    if k != a {
        lemma_sum_remove(keys.remove(k), m, a);
        lemma_sum_remove(keys.remove(a), m, k);
        assert(keys.remove(k).remove(a) =~= keys.remove(a).remove(k));
    }
}

/// The sum only looks at the values of the keys summed over.
pub proof fn lemma_sum_agree<K>(keys: Set<K>, m1: Map<K, i128>, m2: Map<K, i128>)
    requires
        keys.finite(),
        forall|k: K| #[trigger] keys.contains(k) ==> m1[k] == m2[k],
    ensures
        sum_of(keys, m1) == sum_of(keys, m2),
    decreases keys.len(),
{
    if keys.len() != 0 {
        let k = keys.choose();
        lemma_sum_agree(keys.remove(k), m1, m2);
    }
}

/// A sum of values that are not negative is not negative, and is at least
/// each of its terms.
pub proof fn lemma_sum_nonnegative<K>(keys: Set<K>, m: Map<K, i128>, a: K)
    requires
        keys.finite(),
        forall|k: K| #[trigger] keys.contains(k) ==> m[k] >= 0,
    ensures
        sum_of(keys, m) >= 0,
        keys.contains(a) ==> sum_of(keys, m) >= m[a],
    decreases keys.len(),
{
    if keys.len() != 0 {
        let k = keys.choose();
        lemma_sum_nonnegative(keys.remove(k), m, a);
        if keys.contains(a) {
            lemma_sum_remove(keys, m, a);
            lemma_sum_nonnegative(keys.remove(a), m, a);
        }
    }
}

/// Setting the value of key `k` to `v` (adding `k` where it was missing)
/// changes the sum by the difference.
pub proof fn lemma_sum_insert<K>(keys: Set<K>, m: Map<K, i128>, k: K, v: i128)
    requires
        keys.finite(),
    ensures
        sum_of(keys.insert(k), m.insert(k, v)) == sum_of(keys, m) + v - (if keys.contains(k) {
            m[k] as int
        } else {
            0
        }),
{
    let m2 = m.insert(k, v);
    let rest = keys.remove(k);
    lemma_sum_agree(rest, m, m2);
    lemma_sum_remove(keys.insert(k), m2, k);
    assert(keys.insert(k).remove(k) =~= rest);
    if keys.contains(k) {
        lemma_sum_remove(keys, m, k);
    } else {
        assert(rest =~= keys);
    }
}

/// The total of a map's values.
pub open spec fn total(m: Map<u64, i128>) -> int {
    sum_of(m.dom(), m)
}

/// Setting the value of one key changes the total by the difference; a new
/// key adds its value.
pub proof fn lemma_total_insert(m: Map<u64, i128>, g: u64, v: i128)
    requires
        m.dom().finite(),
    ensures
        total(m.insert(g, v)) == total(m) + v - (if m.contains_key(g) { m[g] as int } else { 0 }),
{
    lemma_sum_insert(m.dom(), m, g, v);
    assert(m.insert(g, v).dom() =~= m.dom().insert(g));
}

} // verus!
