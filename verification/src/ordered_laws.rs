//! What sorting keeps.

use crate::ids::{TestRunId, TestRunIdView};
use crate::ordered::{stable_insert, stable_sorted, OrderedKey};
use crate::text::text_before;
use vstd::prelude::*;

verus! {

/// The entries with a given key, in their order.
pub open spec fn with_key<K, V>(s: Seq<(K, V)>, key: K) -> Seq<(K, V)>
    decreases s.len(),
{
    if s.len() == 0 {
        Seq::empty()
    } else if s.last().0 == key {
        with_key(s.drop_last(), key).push(s.last())
    } else {
        with_key(s.drop_last(), key)
    }
}

/// An entry that is sorted in comes behind those with its key.
proof fn lemma_insert_is_stable<K: OrderedKey, V>(s: Seq<(K::V, V)>, entry: (K::V, V), key: K::V)
    ensures
        with_key(stable_insert::<K, V>(s, entry), key) == with_key(s.push(entry), key),
    decreases s.len(),
{
    reveal_with_fuel(with_key, 3);
    assert(s.push(entry).drop_last() =~= s);
    if s.len() > 0 && K::before(entry.0, s.last().0) {
        let front = s.drop_last();
        let inserted = stable_insert::<K, V>(front, entry);
        lemma_insert_is_stable::<K, V>(front, entry, key);
        K::lemma_total_order(entry.0, entry.0, entry.0);
        assert(inserted.push(s.last()).drop_last() =~= inserted);
        assert(front.push(entry).drop_last() =~= front);
    }
}

/// Sorting is stable: entries with one key stay in the order in which they came.
pub proof fn lemma_sorting_is_stable<K: OrderedKey, V>(s: Seq<(K::V, V)>, key: K::V)
    ensures
        with_key(stable_sorted::<K, V>(s), key) == with_key(s, key),
    decreases s.len(),
{
    if s.len() > 0 {
        let front = s.drop_last();
        let sorted = stable_sorted::<K, V>(front);
        lemma_sorting_is_stable::<K, V>(front, key);
        lemma_insert_is_stable::<K, V>(sorted, s.last(), key);
        assert(sorted.push(s.last()).drop_last() =~= sorted);
    }
}

/// Test runs are ordered by their repositories, then by their tests, then by their own names.
pub proof fn lemma_runs_are_ordered(a: TestRunIdView, b: TestRunIdView)
    ensures
        text_before(a.test_repo_id, b.test_repo_id) ==> TestRunId::before(a, b),
        a.test_repo_id == b.test_repo_id && text_before(a.test_id, b.test_id) ==> TestRunId::before(
            a,
            b,
        ),
        a.test_repo_id == b.test_repo_id && a.test_id == b.test_id ==> TestRunId::before(a, b)
            == text_before(a.test_run_id, b.test_run_id),
{
    crate::text::lemma_text_order(a.test_repo_id, a.test_repo_id, a.test_repo_id);
    crate::text::lemma_text_order(a.test_id, a.test_id, a.test_id);
}

} // verus!
