//! Keyed tables stored as sequences of `(key, value)` entries.
//!
//! The map a table stands for gives each key the value of its first entry,
//! so a table is always a well-defined map, whether or not its keys repeat.

use vstd::prelude::*;

verus! {

/// The map that the entries of `s` stand for: each key takes the value of
/// its first entry.
pub open spec fn table_map<K, V>(s: Seq<(K, V)>) -> Map<K, V>
    decreases s.len(),
{
    if s.len() == 0 {
        Map::empty()
    } else {
        table_map(s.drop_first()).insert(s[0].0, s[0].1)
    }
}

/// A key is in the map exactly when some entry has it.
pub proof fn lemma_table_contains<K, V>(s: Seq<(K, V)>, k: K)
    ensures
        table_map(s).contains_key(k) <==> exists|i: int| 0 <= i < s.len() && (#[trigger] s[i]).0 == k,
    decreases s.len(),
{
    if s.len() > 0 {
        lemma_table_contains(s.drop_first(), k);
        if table_map(s.drop_first()).contains_key(k) {
            let j = choose|j: int| 0 <= j < s.drop_first().len() && (#[trigger] s.drop_first()[j]).0 == k;
            assert(s[j + 1].0 == k);
        }
        if exists|i: int| 0 <= i < s.len() && (#[trigger] s[i]).0 == k {
            let i = choose|i: int| 0 <= i < s.len() && (#[trigger] s[i]).0 == k;
            if i > 0 {
                assert(s.drop_first()[i - 1].0 == k);
            }
        }
    }
}

/// The first entry with key `k` gives the value of `k`.
pub proof fn lemma_table_first_entry<K, V>(s: Seq<(K, V)>, i: int, k: K)
    requires
        0 <= i < s.len(),
        s[i].0 == k,
        forall|j: int| 0 <= j < i ==> (#[trigger] s[j]).0 != k,
    ensures
        table_map(s).contains_key(k),
        table_map(s)[k] == s[i].1,
    decreases s.len(),
{
    if i > 0 {
        assert forall|j: int| 0 <= j < i - 1 implies (#[trigger] s.drop_first()[j]).0 != k by {
            assert(s[j + 1].0 != k);
        }
        lemma_table_first_entry(s.drop_first(), i - 1, k);
    }
}

/// With no entry for `k`, the map has no value for `k`.
pub proof fn lemma_table_absent<K, V>(s: Seq<(K, V)>, k: K)
    requires
        forall|j: int| 0 <= j < s.len() ==> (#[trigger] s[j]).0 != k,
    ensures
        !table_map(s).contains_key(k),
{
    lemma_table_contains(s, k);
}

/// Overwriting the first entry of `k` sets the value of `k` and nothing else.
pub proof fn lemma_table_update_first<K, V>(s: Seq<(K, V)>, i: int, k: K, v: V)
    requires
        0 <= i < s.len(),
        s[i].0 == k,
        forall|j: int| 0 <= j < i ==> (#[trigger] s[j]).0 != k,
    ensures
        table_map(s.update(i, (k, v))) == table_map(s).insert(k, v),
    decreases s.len(),
{
    let t = s.update(i, (k, v));
    if i == 0 {
        assert(t.drop_first() =~= s.drop_first());
        assert(table_map(t) =~= table_map(s).insert(k, v));
    } else {
        assert forall|j: int| 0 <= j < i - 1 implies (#[trigger] s.drop_first()[j]).0 != k by {
            assert(s[j + 1].0 != k);
        }
        lemma_table_update_first(s.drop_first(), i - 1, k, v);
        assert(t.drop_first() =~= s.drop_first().update(i - 1, (k, v)));
        assert(s[0].0 != k);
        assert(table_map(t) =~= table_map(s).insert(k, v));
    }
}

/// Appending an entry for a key that has none gives that key its value and
/// changes nothing else.
pub proof fn lemma_table_push_new<K, V>(s: Seq<(K, V)>, k: K, v: V)
    requires
        forall|j: int| 0 <= j < s.len() ==> (#[trigger] s[j]).0 != k,
    ensures
        table_map(s.push((k, v))) == table_map(s).insert(k, v),
    decreases s.len(),
{
    let t = s.push((k, v));
    if s.len() == 0 {
        assert(t[0] == (k, v));
        assert(table_map(t.drop_first()) =~= Map::<K, V>::empty());
        assert(table_map(s) =~= Map::<K, V>::empty());
        assert(table_map(t) =~= table_map(s).insert(k, v));
    } else {
        assert forall|j: int| 0 <= j < s.drop_first().len() implies (#[trigger] s.drop_first()[j]).0 != k by {
            assert(s[j + 1].0 != k);
        }
        lemma_table_push_new(s.drop_first(), k, v);
        assert(t.drop_first() =~= s.drop_first().push((k, v)));
        assert(t[0] == s[0]);
        assert(s[0].0 != k);
        assert(table_map(t) =~= table_map(s).insert(k, v));
    }
}

} // verus!
