//! What holds of the final state whatever changes led to it.

use crate::json::{json_get, json_text, number_text, JsonView};
use crate::ordered::{
    lemma_ascending_lookup, lemma_is_listing, lemma_listable, lemma_listing, lemma_listing_of_list,
    lemma_to_map, listable, listing, to_map,
};
use crate::reactions::output_loggers::canonical_json::{
    has_key, lemma_sorted_fields, lemma_sorted_items, lemma_sorting_forgets_field_order,
    lemma_sorting_is_idempotent, same_value, sorted, sorted_fields, sorted_items,
};
use crate::reactions::output_loggers::final_state::{
    after_change, after_changes, after_payload, aggregate_message, canonical_value, changes_of,
    final_rows, initial_state, integral_value, named_change_of, named_changes_of, normalized,
    normalized_fields, normalized_items, operation_of, payload_query_id, row_of, row_tells, single,
    state_hash, summary_of, FinalStateMaterializer, FinalStateView, RowChangeView, RowView,
};
use vstd::prelude::*;

verus! {

/// The rows that a change looks at or touches.
pub open spec fn touched(
    key_fields: Seq<Seq<char>>,
    query_id: Seq<char>,
    change: RowChangeView,
) -> Set<(Seq<char>, Seq<u8>)> {
    match change {
        RowChangeView::Add(after) => match row_of(after, key_fields) {
            Ok(row) => set![(query_id, row.identity)],
            Err(_) => Set::empty(),
        },
        RowChangeView::Update { before, after } => match (
            row_of(before, key_fields),
            row_of(after, key_fields),
        ) {
            (Ok(before), Ok(after)) => set![(query_id, before.identity), (query_id, after.identity)],
            _ => Set::empty(),
        },
        RowChangeView::Delete(before) => match row_of(before, key_fields) {
            Ok(row) => set![(query_id, row.identity)],
            Err(_) => Set::empty(),
        },
    }
}

/// Every row of a change can be kept: no configured key field is missing.
pub open spec fn keepable(key_fields: Seq<Seq<char>>, change: RowChangeView) -> bool {
    match change {
        RowChangeView::Add(after) => row_of(after, key_fields) is Ok,
        RowChangeView::Update { before, after } => row_of(before, key_fields) is Ok && row_of(
            after,
            key_fields,
        ) is Ok,
        RowChangeView::Delete(before) => row_of(before, key_fields) is Ok,
    }
}

/// A change fails exactly where one of its rows cannot be kept, and never alters the key
/// fields.
pub proof fn lemma_change_outcome(state: FinalStateView, query_id: Seq<char>, change: RowChangeView)
    ensures
        after_change(state, query_id, change).1 is Ok == keepable(state.key_fields, change),
        after_change(state, query_id, change).0.key_fields == state.key_fields,
        after_change(state, query_id, change).0.change_count == state.change_count + 1,
{
}

/// Two changes that touch no row in common lead to the same state in either order.
pub proof fn lemma_independent_changes_commute(
    state: FinalStateView,
    query_a: Seq<char>,
    a: RowChangeView,
    query_b: Seq<char>,
    b: RowChangeView,
)
    requires
        touched(state.key_fields, query_a, a).disjoint(touched(state.key_fields, query_b, b)),
    ensures
        after_change(after_change(state, query_a, a).0, query_b, b).0 == after_change(
            after_change(state, query_b, b).0,
            query_a,
            a,
        ).0,
{
    let ab = after_change(after_change(state, query_a, a).0, query_b, b).0;
    let ba = after_change(after_change(state, query_b, b).0, query_a, a).0;
    let ta = touched(state.key_fields, query_a, a);
    let tb = touched(state.key_fields, query_b, b);
    assert forall|k: (Seq<char>, Seq<u8>)| ta.contains(k) implies !tb.contains(k) by {}
    lemma_frame(state, query_a, a);
    lemma_frame(state, query_b, b);
    lemma_frame(after_change(state, query_a, a).0, query_b, b);
    lemma_frame(after_change(state, query_b, b).0, query_a, a);
    lemma_local(state, after_change(state, query_b, b).0, query_a, a);
    lemma_local(state, after_change(state, query_a, a).0, query_b, b);
    assert(ab.rows =~= ba.rows);
}

/// A change leaves every row alone that it does not touch.
proof fn lemma_frame(state: FinalStateView, query_id: Seq<char>, change: RowChangeView)
    ensures
        ({
            let next = after_change(state, query_id, change).0;
            forall|k: (Seq<char>, Seq<u8>)|
                !touched(state.key_fields, query_id, change).contains(k) ==> (
                #[trigger] next.rows.contains_key(k) == state.rows.contains_key(k) && (
                state.rows.contains_key(k) ==> next.rows[k] == state.rows[k]))
        }),
{
}

/// What a change does depends only on the rows that it touches.
proof fn lemma_local(s: FinalStateView, t: FinalStateView, query_id: Seq<char>, change: RowChangeView)
    requires
        s.key_fields == t.key_fields,
        forall|k: (Seq<char>, Seq<u8>)| #[trigger]
            touched(s.key_fields, query_id, change).contains(k) ==> (s.rows.contains_key(k)
                == t.rows.contains_key(k) && (s.rows.contains_key(k) ==> s.rows[k] == t.rows[k])),
    ensures
        ({
            let s2 = after_change(s, query_id, change).0;
            let t2 = after_change(t, query_id, change).0;
            &&& forall|k: (Seq<char>, Seq<u8>)| #[trigger]
                touched(s.key_fields, query_id, change).contains(k) ==> (s2.rows.contains_key(k)
                    == t2.rows.contains_key(k) && (s2.rows.contains_key(k) ==> s2.rows[k]
                    == t2.rows[k]))
            &&& s2.duplicate_count - s.duplicate_count == t2.duplicate_count - t.duplicate_count
            &&& s2.upsert_count - s.upsert_count == t2.upsert_count - t.upsert_count
            &&& s2.missing_before_count - s.missing_before_count == t2.missing_before_count
                - t.missing_before_count
        }),
{
    let keys = touched(s.key_fields, query_id, change);
    match change {
        RowChangeView::Add(after) => {
            if let Ok(row) = row_of(after, s.key_fields) {
                assert(keys.contains((query_id, row.identity)));
            }
        },
        RowChangeView::Update { before, after } => {
            if let Ok(before) = row_of(before, s.key_fields) {
                if let Ok(after) = row_of(after, s.key_fields) {
                    assert(keys.contains((query_id, before.identity)));
                    assert(keys.contains((query_id, after.identity)));
                }
            }
        },
        RowChangeView::Delete(before) => {
            if let Ok(row) = row_of(before, s.key_fields) {
                assert(keys.contains((query_id, row.identity)));
            }
        },
    }
}

/// Within a list, two neighbouring changes that touch no row in common may be swapped.
pub proof fn lemma_neighbours_swap(
    state: FinalStateView,
    query_id: Seq<char>,
    front: Seq<RowChangeView>,
    a: RowChangeView,
    b: RowChangeView,
    rest: Seq<RowChangeView>,
)
    requires
        keepable(state.key_fields, a),
        keepable(state.key_fields, b),
        touched(state.key_fields, query_id, a).disjoint(touched(state.key_fields, query_id, b)),
    ensures
        after_changes(state, query_id, front.push(a).push(b) + rest) == after_changes(
            state,
            query_id,
            front.push(b).push(a) + rest,
        ),
    decreases rest.len(),
{
    let ab = front.push(a).push(b);
    let ba = front.push(b).push(a);
    if rest.len() == 0 {
        assert(ab + rest =~= ab);
        assert(ba + rest =~= ba);
        assert(ab.drop_last() =~= front.push(a));
        assert(ba.drop_last() =~= front.push(b));
        assert(front.push(a).drop_last() =~= front);
        assert(front.push(b).drop_last() =~= front);
        lemma_key_fields_stay(state, query_id, front);
        let (mid, r) = after_changes(state, query_id, front);
        if r is Ok {
            lemma_change_outcome(mid, query_id, a);
            lemma_change_outcome(mid, query_id, b);
            let ma = after_change(mid, query_id, a).0;
            let mb = after_change(mid, query_id, b).0;
            lemma_change_outcome(ma, query_id, b);
            lemma_change_outcome(mb, query_id, a);
            lemma_independent_changes_commute(mid, query_id, a, query_id, b);
            assert(after_changes(state, query_id, front.push(a)) == after_change(mid, query_id, a));
            assert(after_changes(state, query_id, front.push(b)) == after_change(mid, query_id, b));
            assert(after_change(ma, query_id, b).1 == after_change(mb, query_id, a).1);
        } else {
            assert(after_changes(state, query_id, front.push(a)) == (mid, r));
            assert(after_changes(state, query_id, front.push(b)) == (mid, r));
        }
    } else {
        lemma_neighbours_swap(state, query_id, front, a, b, rest.drop_last());
        assert((ab + rest).drop_last() =~= ab + rest.drop_last());
        assert((ba + rest).drop_last() =~= ba + rest.drop_last());
    }
}

proof fn lemma_key_fields_stay(state: FinalStateView, query_id: Seq<char>, changes: Seq<RowChangeView>)
    ensures
        after_changes(state, query_id, changes).0.key_fields == state.key_fields,
    decreases changes.len(),
{
    if changes.len() > 0 {
        lemma_key_fields_stay(state, query_id, changes.drop_last());
    }
}

/// A state after changes of rows, each of a query of its own.
pub open spec fn after_steps(
    state: FinalStateView,
    steps: Seq<(Seq<char>, RowChangeView)>,
) -> FinalStateView
    decreases steps.len(),
{
    if steps.len() == 0 {
        state
    } else {
        after_change(after_steps(state, steps.drop_last()), steps.last().0, steps.last().1).0
    }
}

/// No two of the changes touch a row in common.
pub open spec fn independent(
    key_fields: Seq<Seq<char>>,
    steps: Seq<(Seq<char>, RowChangeView)>,
) -> bool {
    forall|i: int, j: int|
        0 <= i < j < steps.len() ==> touched(
            key_fields,
            (#[trigger] steps[i]).0,
            steps[i].1,
        ).disjoint(touched(key_fields, (#[trigger] steps[j]).0, steps[j].1))
}

/// The key fields stay as they are.
proof fn lemma_steps_keep_key_fields(
    state: FinalStateView,
    steps: Seq<(Seq<char>, RowChangeView)>,
)
    ensures
        after_steps(state, steps).key_fields == state.key_fields,
    decreases steps.len(),
{
    if steps.len() > 0 {
        lemma_steps_keep_key_fields(state, steps.drop_last());
        lemma_change_outcome(
            after_steps(state, steps.drop_last()),
            steps.last().0,
            steps.last().1,
        );
    }
}

/// One of several independent changes may as well come last.
proof fn lemma_move_to_end(
    state: FinalStateView,
    steps: Seq<(Seq<char>, RowChangeView)>,
    k: int,
)
    requires
        0 <= k < steps.len(),
        independent(state.key_fields, steps),
    ensures
        after_steps(state, steps) == after_steps(state, steps.remove(k).push(steps[k])),
    decreases steps.len(),
{
    let x = steps[k];
    let others = steps.remove(k);
    if k == steps.len() - 1 {
        assert(others.push(x) =~= steps);
    } else {
        let last = steps.last();
        let front = steps.drop_last();
        assert forall|i: int, j: int| 0 <= i < j < front.len() implies touched(
            state.key_fields,
            (#[trigger] front[i]).0,
            front[i].1,
        ).disjoint(touched(state.key_fields, (#[trigger] front[j]).0, front[j].1)) by {
            assert(front[i] == steps[i] && front[j] == steps[j]);
        }
        lemma_move_to_end(state, front, k);
        let earlier = front.remove(k);
        assert(front[k] == x);
        assert(earlier.push(x).drop_last() =~= earlier);
        lemma_steps_keep_key_fields(state, earlier);
        assert(steps[steps.len() - 1] == last);
        lemma_independent_changes_commute(
            after_steps(state, earlier),
            x.0,
            x.1,
            last.0,
            last.1,
        );
        assert(others =~= earlier.push(last));
        assert(earlier.push(last).drop_last() =~= earlier);
        assert(others.push(x).drop_last() =~= others);
        let before = after_steps(state, earlier);
        assert(after_steps(state, front) == after_change(before, x.0, x.1).0);
        assert(after_steps(state, others) == after_change(before, last.0, last.1).0);
    }
}

/// The order in which independent changes come, of one query or of several, does not matter
/// to the rows, to the hash or to any count.
pub proof fn lemma_order_of_independent_changes(
    state: FinalStateView,
    a: Seq<(Seq<char>, RowChangeView)>,
    b: Seq<(Seq<char>, RowChangeView)>,
)
    requires
        independent(state.key_fields, a),
        a.to_multiset() == b.to_multiset(),
    ensures
        after_steps(state, a) == after_steps(state, b),
    decreases a.len(),
{
    broadcast use vstd::seq_lib::group_to_multiset_ensures;

    assert(a.len() == b.len()) by {
        assert(a.to_multiset().len() == a.len());
        assert(b.to_multiset().len() == b.len());
    }
    if a.len() > 0 {
        let x = b.last();
        assert(b.contains(x)) by {
            assert(b[b.len() - 1] == x);
        }
        assert(a.to_multiset().count(x) > 0);
        assert(a.contains(x));
        let k = choose|k: int| 0 <= k < a.len() && a[k] == x;
        lemma_move_to_end(state, a, k);
        let others = a.remove(k);
        assert(others.push(x).drop_last() =~= others);
        assert forall|i: int, j: int| 0 <= i < j < others.len() implies touched(
            state.key_fields,
            (#[trigger] others[i]).0,
            others[i].1,
        ).disjoint(touched(state.key_fields, (#[trigger] others[j]).0, others[j].1)) by {
            let p = if i < k {
                i
            } else {
                i + 1
            };
            let q = if j < k {
                j
            } else {
                j + 1
            };
            assert(others[i] == a[p] && others[j] == a[q]);
        }
        assert(others.to_multiset() =~= a.to_multiset().remove(x));
        assert(b.drop_last().push(x) =~= b);
        assert(b.to_multiset() =~= b.drop_last().to_multiset().insert(x));
        assert(b.drop_last().to_multiset() =~= others.to_multiset());
        lemma_order_of_independent_changes(state, others, b.drop_last());
    }
}

/// Seeing a change a second time alters no row, and so not the hash either.
pub proof fn lemma_replay_alters_no_row(
    state: FinalStateView,
    query_id: Seq<char>,
    change: RowChangeView,
)
    ensures
        ({
            let once = after_change(state, query_id, change).0;
            let twice = after_change(once, query_id, change).0;
            &&& twice.rows == once.rows
            &&& state_hash(twice) == state_hash(once)
        }),
{
    let once = after_change(state, query_id, change).0;
    let twice = after_change(once, query_id, change).0;
    assert(twice.rows =~= once.rows);
}

/// A second add or delete of a row counts as a duplicate, and so does a second update
/// that gave the row another identity.
pub proof fn lemma_replay_is_counted(
    state: FinalStateView,
    query_id: Seq<char>,
    change: RowChangeView,
)
    requires
        keepable(state.key_fields, change),
        change matches RowChangeView::Update { before, after } ==> row_of(
            before,
            state.key_fields,
        )->Ok_0.identity != row_of(after, state.key_fields)->Ok_0.identity,
    ensures
        ({
            let once = after_change(state, query_id, change).0;
            let twice = after_change(once, query_id, change).0;
            twice.duplicate_count == once.duplicate_count + 1
        }),
{
}

/// Deleting a row that was just added restores the rows, where none had its identity.
pub proof fn lemma_delete_undoes_add(state: FinalStateView, query_id: Seq<char>, row: JsonView)
    requires
        row_of(row, state.key_fields) is Ok,
        !state.rows.contains_key((query_id, row_of(row, state.key_fields)->Ok_0.identity)),
    ensures
        ({
            let added = after_change(state, query_id, RowChangeView::Add(row)).0;
            after_change(added, query_id, RowChangeView::Delete(row)).0.rows == state.rows
        }),
{
    let added = after_change(state, query_id, RowChangeView::Add(row)).0;
    assert(after_change(added, query_id, RowChangeView::Delete(row)).0.rows =~= state.rows);
}

/// Of two added rows with one identity only the later one stays; the same state of rows
/// results from updating the first to the second.
pub proof fn lemma_later_add_replaces(
    state: FinalStateView,
    query_id: Seq<char>,
    first: JsonView,
    second: JsonView,
)
    requires
        row_of(first, state.key_fields) is Ok,
        row_of(second, state.key_fields) is Ok,
        row_of(first, state.key_fields)->Ok_0.identity == row_of(
            second,
            state.key_fields,
        )->Ok_0.identity,
    ensures
        ({
            let added = after_change(state, query_id, RowChangeView::Add(first)).0;
            let replaced = after_change(added, query_id, RowChangeView::Add(second)).0;
            let updated = after_change(
                added,
                query_id,
                RowChangeView::Update { before: first, after: second },
            ).0;
            &&& replaced.rows == after_change(state, query_id, RowChangeView::Add(second)).0.rows
            &&& updated.rows == replaced.rows
            &&& state_hash(updated) == state_hash(replaced)
        }),
{
    let added = after_change(state, query_id, RowChangeView::Add(first)).0;
    let replaced = after_change(added, query_id, RowChangeView::Add(second)).0;
    let updated = after_change(
        added,
        query_id,
        RowChangeView::Update { before: first, after: second },
    ).0;
    assert(replaced.rows =~= after_change(state, query_id, RowChangeView::Add(second)).0.rows);
    assert(updated.rows =~= replaced.rows);
}

/// The hash depends on the rows alone.
pub proof fn lemma_hash_depends_on_rows(s: FinalStateView, t: FinalStateView)
    requires
        s.rows == t.rows,
    ensures
        state_hash(s) == state_hash(t),
{
}

/// No floating-point number, at any depth, stands for an integer of the safe range.
pub open spec fn numbers_normal(json: JsonView) -> bool
    decreases json,
{
    match json {
        JsonView::Float(n) => integral_value(number_text(n)) is None,
        JsonView::Array(items) => forall|i: int|
            0 <= i < items.len() ==> numbers_normal(#[trigger] items[i]),
        JsonView::Object(fields) => forall|i: int|
            0 <= i < fields.len() ==> numbers_normal((#[trigger] fields[i]).1),
        _ => true,
    }
}

proof fn lemma_normalized_items(items: Seq<JsonView>)
    ensures
        normalized_items(items).len() == items.len(),
        forall|i: int|
            0 <= i < items.len() ==> #[trigger] normalized_items(items)[i] == normalized(items[i]),
    decreases items.len(),
{
    if items.len() > 0 {
        let rest = items.subrange(0, items.len() - 1);
        lemma_normalized_items(rest);
        assert forall|i: int| 0 <= i < items.len() implies #[trigger] normalized_items(items)[i]
            == normalized(items[i]) by {
            if i < rest.len() {
                assert(rest[i] == items[i]);
                assert(normalized_items(rest)[i] == normalized(rest[i]));
            }
        }
    }
}

proof fn lemma_normalized_fields(fields: Seq<(Seq<char>, JsonView)>)
    ensures
        normalized_fields(fields).len() == fields.len(),
        forall|i: int|
            0 <= i < fields.len() ==> #[trigger] normalized_fields(fields)[i] == (
                fields[i].0,
                normalized(fields[i].1),
            ),
    decreases fields.len(),
{
    if fields.len() > 0 {
        let rest = fields.subrange(0, fields.len() - 1);
        lemma_normalized_fields(rest);
        assert forall|i: int| 0 <= i < fields.len() implies #[trigger] normalized_fields(fields)[i]
            == (fields[i].0, normalized(fields[i].1)) by {
            if i < rest.len() {
                assert(rest[i] == fields[i]);
                assert(normalized_fields(rest)[i] == (rest[i].0, normalized(rest[i].1)));
            }
        }
    }
}

/// Normalizing numbers leaves only normal ones, and changes nothing where all are.
pub proof fn lemma_normalizing_normalizes(json: JsonView)
    ensures
        numbers_normal(normalized(json)),
        numbers_normal(json) ==> normalized(json) == json,
    decreases json,
{
    match json {
        JsonView::Array(items) => {
            lemma_normalized_items(items);
            let out = normalized_items(items);
            assert forall|i: int| 0 <= i < out.len() implies numbers_normal(#[trigger] out[i]) by {
                lemma_normalizing_normalizes(items[i]);
            }
            if numbers_normal(json) {
                assert forall|i: int| 0 <= i < items.len() implies out[i] == #[trigger] items[i] by {
                    lemma_normalizing_normalizes(items[i]);
                }
                assert(out =~= items);
            }
        },
        JsonView::Object(fields) => {
            lemma_normalized_fields(fields);
            let out = normalized_fields(fields);
            assert forall|i: int| 0 <= i < out.len() implies numbers_normal((#[trigger] out[i]).1) by {
                assert(decreases_to!(json => fields));
                assert(decreases_to!(fields => fields[i]));
                assert(decreases_to!(fields[i] => fields[i].1));
                lemma_normalizing_normalizes(fields[i].1);
            }
            if numbers_normal(json) {
                assert forall|i: int| 0 <= i < fields.len() implies out[i] == #[trigger] fields[i] by {
                    assert(decreases_to!(json => fields));
                    assert(decreases_to!(fields => fields[i]));
                    assert(decreases_to!(fields[i] => fields[i].1));
                    lemma_normalizing_normalizes(fields[i].1);
                    assert(out[i] == (fields[i].0, normalized(fields[i].1)));
                }
                assert(out =~= fields);
            }
        },
        _ => {},
    }
}

/// Sorting keys alters no number.
proof fn lemma_sorting_keeps_numbers_normal(json: JsonView)
    requires
        numbers_normal(json),
    ensures
        numbers_normal(sorted(json)),
    decreases json,
{
    match json {
        JsonView::Array(items) => {
            lemma_sorted_items(items);
            let out = sorted_items(items);
            assert forall|i: int| 0 <= i < out.len() implies numbers_normal(#[trigger] out[i]) by {
                assert(numbers_normal(items[i]));
                lemma_sorting_keeps_numbers_normal(items[i]);
            }
        },
        JsonView::Object(fields) => {
            lemma_sorted_fields(fields);
            let s = sorted_fields(fields);
            lemma_listing_of_list::<String, JsonView>(s);
            lemma_to_map(s);
            let out = listing::<String, JsonView>(to_map(s));
            assert forall|i: int| 0 <= i < out.len() implies numbers_normal((#[trigger] out[i]).1) by {
                lemma_ascending_lookup::<String, JsonView>(out, i);
                let k = out[i].0;
                assert(to_map(s).contains_key(k));
                let j = choose|j: int|
                    0 <= j < s.len() && (#[trigger] s[j]).0 == k && to_map(s)[k] == s[j].1;
                assert(s[j] == (fields[j].0, sorted(fields[j].1)));
                assert(numbers_normal(fields[j].1));
                assert(decreases_to!(json => fields));
                assert(decreases_to!(fields => fields[j]));
                assert(decreases_to!(fields[j] => fields[j].1));
                lemma_sorting_keeps_numbers_normal(fields[j].1);
            }
        },
        _ => {},
    }
}

/// The canonical form of a canonical form is itself.
pub proof fn lemma_canonical_form_is_canonical(row: JsonView)
    ensures
        canonical_value(canonical_value(row)) == canonical_value(row),
{
    lemma_normalizing_normalizes(row);
    lemma_sorting_keeps_numbers_normal(normalized(row));
    lemma_normalizing_normalizes(canonical_value(row));
    lemma_sorting_is_idempotent(normalized(row));
}

/// Normalizing numbers keeps values alike that differ only in the order of fields.
proof fn lemma_normalizing_keeps_sameness(a: JsonView, b: JsonView)
    requires
        same_value(a, b),
    ensures
        same_value(normalized(a), normalized(b)),
    decreases a,
{
    match (a, b) {
        (JsonView::Array(s), JsonView::Array(t)) => {
            lemma_normalized_items(s);
            lemma_normalized_items(t);
            assert forall|i: int| 0 <= i < s.len() implies same_value(
                #[trigger] normalized_items(s)[i],
                normalized_items(t)[i],
            ) by {
                assert(same_value(s[i], t[i]));
                lemma_normalizing_keeps_sameness(s[i], t[i]);
            }
            assert(same_value(
                JsonView::Array(normalized_items(s)),
                JsonView::Array(normalized_items(t)),
            ));
        },
        (JsonView::Object(s), JsonView::Object(t)) => {
            lemma_normalized_fields(s);
            lemma_normalized_fields(t);
            let ns = normalized_fields(s);
            let nt = normalized_fields(t);
            lemma_same_keys(s, ns);
            lemma_same_keys(t, nt);
            assert forall|k: Seq<char>| #[trigger] has_key(ns, k) == has_key(nt, k) by {
                assert(has_key(s, k) == has_key(t, k));
            }
            assert forall|i: int, j: int|
                0 <= i < ns.len() && 0 <= j < nt.len() && ns[i].0 == nt[j].0 implies same_value(
                (#[trigger] ns[i]).1,
                (#[trigger] nt[j]).1,
            ) by {
                assert(s[i].0 == t[j].0);
                assert(same_value(s[i].1, t[j].1));
                assert(decreases_to!(a => s));
                assert(decreases_to!(s => s[i]));
                assert(decreases_to!(s[i] => s[i].1));
                lemma_normalizing_keeps_sameness(s[i].1, t[j].1);
            }
            assert(same_value(JsonView::Object(ns), JsonView::Object(nt)));
        },
        _ => {
            lemma_same_scalars(a, b);
        },
    }
}

/// Lists that agree key by key have the same keys.
proof fn lemma_same_keys(s: Seq<(Seq<char>, JsonView)>, t: Seq<(Seq<char>, JsonView)>)
    requires
        s.len() == t.len(),
        forall|i: int| 0 <= i < s.len() ==> (#[trigger] s[i]).0 == t[i].0,
    ensures
        forall|k: Seq<char>| #[trigger] has_key(s, k) == has_key(t, k),
{
    assert forall|k: Seq<char>| #[trigger] has_key(s, k) == has_key(t, k) by {
        if has_key(s, k) {
            let i = choose|i: int| 0 <= i < s.len() && (#[trigger] s[i]).0 == k;
            assert(t[i].0 == k);
        }
        if has_key(t, k) {
            let i = choose|i: int| 0 <= i < t.len() && (#[trigger] t[i]).0 == k;
            assert(s[i].0 == k);
        }
    }
}

proof fn lemma_same_scalars(a: JsonView, b: JsonView)
    requires
        a == b,
        !(a is Array),
        !(a is Object),
    ensures
        same_value(normalized(a), normalized(b)),
{
}

/// Values that differ only in the order of fields have the same canonical form, and so are
/// kept as the same row.
pub proof fn lemma_canonical_form_forgets_field_order(
    a: JsonView,
    b: JsonView,
    key_fields: Seq<Seq<char>>,
)
    requires
        same_value(a, b),
    ensures
        canonical_value(a) == canonical_value(b),
        row_of(a, key_fields) == row_of(b, key_fields),
{
    lemma_normalizing_keeps_sameness(a, b);
    lemma_sorting_forgets_field_order(normalized(a), normalized(b));
}

/// The rows are finitely many, and each stands under its identity, with the canonical text
/// of its canonical value; without key fields its text is its identity.
pub open spec fn consistent(state: FinalStateView) -> bool {
    &&& listable::<(String, Vec<u8>), RowView>(state.rows)
    &&& forall|k: (Seq<char>, Seq<u8>)| #[trigger]
        state.rows.contains_key(k) ==> {
            let row = state.rows[k];
            &&& row.identity == k.1
            &&& canonical_value(row.value) == row.value
            &&& row.canonical == json_text(row.value)
            &&& state.key_fields.len() == 0 ==> row.identity == row.canonical
        }
}

/// A state that has seen nothing is consistent, and every payload keeps a state so.
pub proof fn lemma_states_are_consistent(
    state: FinalStateView,
    key_fields: Seq<Seq<char>>,
    query_id: Seq<char>,
    payload: JsonView,
)
    ensures
        consistent(initial_state(key_fields)),
        consistent(state) ==> consistent(after_payload(state, query_id, payload).0),
{
    assert(listable::<(String, Vec<u8>), RowView>(Map::empty())) by {
        lemma_listing_of_list::<(String, Vec<u8>), RowView>(Seq::empty());
    }
    if consistent(state) {
        match changes_of(payload) {
            Ok(changes) => {
                if changes.len() > 0 {
                    let q = payload_query_id(
                        payload,
                        query_id,
                    );
                    let start = FinalStateView {
                        query_ids: state.query_ids.insert(q, ()),
                        ..state
                    };
                    lemma_changes_keep_consistency(start, q, changes);
                }
            },
            Err(_) => {},
        }
    }
}

proof fn lemma_changes_keep_consistency(
    state: FinalStateView,
    query_id: Seq<char>,
    changes: Seq<RowChangeView>,
)
    requires
        consistent(state),
    ensures
        consistent(after_changes(state, query_id, changes).0),
        after_changes(state, query_id, changes).0.key_fields == state.key_fields,
    decreases changes.len(),
{
    if changes.len() > 0 {
        lemma_changes_keep_consistency(state, query_id, changes.drop_last());
        let (before, _) = after_changes(state, query_id, changes.drop_last());
        lemma_change_keeps_consistency(before, query_id, changes.last());
    }
}

proof fn lemma_change_keeps_consistency(
    state: FinalStateView,
    query_id: Seq<char>,
    change: RowChangeView,
)
    requires
        consistent(state),
    ensures
        consistent(after_change(state, query_id, change).0),
        after_change(state, query_id, change).0.key_fields == state.key_fields,
{
    match change {
        RowChangeView::Add(after) => {
            lemma_canonical_form_is_canonical(after);
            if let Ok(row) = row_of(after, state.key_fields) {
                lemma_listable::<(String, Vec<u8>), RowView>(
                    state.rows,
                    (query_id, row.identity),
                    row,
                );
            }
        },
        RowChangeView::Update { before, after } => {
            lemma_canonical_form_is_canonical(after);
            if let Ok(old_row) = row_of(before, state.key_fields) {
                if let Ok(row) = row_of(after, state.key_fields) {
                    let key = (query_id, old_row.identity);
                    lemma_listable::<(String, Vec<u8>), RowView>(state.rows, key, row);
                    lemma_listable::<(String, Vec<u8>), RowView>(
                        state.rows.remove(key),
                        (query_id, row.identity),
                        row,
                    );
                }
            }
        },
        RowChangeView::Delete(before) => {
            if let Ok(row) = row_of(before, state.key_fields) {
                lemma_listable::<(String, Vec<u8>), RowView>(
                    state.rows,
                    (query_id, row.identity),
                    row,
                );
            }
        },
    }
}

/// Rows that are added one after another.
pub open spec fn adds(rows: Seq<JsonView>) -> Seq<RowChangeView> {
    Seq::new(rows.len(), |i: int| RowChangeView::Add(rows[i]))
}

/// A row of the list has the text.
pub open spec fn has_text(rows: Seq<JsonView>, text: Seq<u8>) -> bool {
    exists|i: int| 0 <= i < rows.len() && json_text(canonical_value(#[trigger] rows[i])) == text
}

/// What adding rows leads to where rows are identified by their whole text: the rows that were
/// there and those that were added, the latter with a value that was added.
proof fn lemma_adds(state: FinalStateView, query_id: Seq<char>, rows: Seq<JsonView>)
    requires
        state.key_fields.len() == 0,
    ensures
        ({
            let after = after_changes(state, query_id, adds(rows)).0;
            &&& after_changes(state, query_id, adds(rows)).1 is Ok
            &&& after.key_fields == state.key_fields
            &&& forall|k: (Seq<char>, Seq<u8>)| #[trigger]
                after.rows.contains_key(k) <==> state.rows.contains_key(k) || (k.0 == query_id
                    && has_text(rows, k.1))
            &&& forall|k: (Seq<char>, Seq<u8>)| #[trigger]
                after.rows.contains_key(k) ==> if k.0 == query_id && has_text(rows, k.1) {
                    &&& after.rows[k].identity == k.1
                    &&& after.rows[k].canonical == k.1
                    &&& exists|i: int|
                        0 <= i < rows.len() && json_text(canonical_value(#[trigger] rows[i])) == k.1
                            && after.rows[k].value == canonical_value(rows[i])
                } else {
                    after.rows[k] == state.rows[k]
                }
        }),
    decreases rows.len(),
{
    let all = adds(rows);
    if rows.len() == 0 {
        assert(all.len() == 0);
    } else {
        let front = rows.drop_last();
        let last = rows.last();
        lemma_adds(state, query_id, front);
        assert(all.drop_last() =~= adds(front));
        assert(all.last() == RowChangeView::Add(last));
        let before = after_changes(state, query_id, adds(front)).0;
        let after = after_changes(state, query_id, all).0;
        let text = json_text(canonical_value(last));
        let key = (query_id, text);
        let row = row_of(last, state.key_fields)->Ok_0;
        assert(row_of(last, state.key_fields) is Ok);
        assert(row.identity == text && row.canonical == text && row.value == canonical_value(last));
        assert(after.rows == before.rows.insert(key, row));
        assert(has_text(rows, text)) by {
            assert(rows[rows.len() - 1] == last);
        }
        assert forall|t: Seq<u8>| t != text implies #[trigger] has_text(rows, t) == has_text(
            front,
            t,
        ) by {
            if has_text(rows, t) {
                let i = choose|i: int|
                    0 <= i < rows.len() && json_text(canonical_value(#[trigger] rows[i])) == t;
                assert(front[i] == rows[i]);
            }
            if has_text(front, t) {
                let i = choose|i: int|
                    0 <= i < front.len() && json_text(canonical_value(#[trigger] front[i])) == t;
                assert(rows[i] == front[i]);
            }
        }
        assert forall|k: (Seq<char>, Seq<u8>)| #[trigger] after.rows.contains_key(k) implies (if k.0
            == query_id && has_text(rows, k.1) {
            &&& after.rows[k].identity == k.1
            &&& after.rows[k].canonical == k.1
            &&& exists|i: int|
                0 <= i < rows.len() && json_text(canonical_value(#[trigger] rows[i])) == k.1
                    && after.rows[k].value == canonical_value(rows[i])
        } else {
            after.rows[k] == state.rows[k]
        }) by {
            if k == key {
                assert(rows[rows.len() - 1] == last);
            } else {
                assert(before.rows.contains_key(k));
                if k.0 == query_id && has_text(rows, k.1) {
                    assert(k.1 != text);
                    assert(has_text(front, k.1));
                    let i = choose|i: int|
                        0 <= i < front.len() && json_text(canonical_value(#[trigger] front[i]))
                            == k.1 && before.rows[k].value == canonical_value(front[i]);
                    assert(rows[i] == front[i]);
                }
            }
        }
    }
}

/// Rows under the same keys and with the same texts.
pub open spec fn same_texts(
    s: Map<(Seq<char>, Seq<u8>), RowView>,
    t: Map<(Seq<char>, Seq<u8>), RowView>,
) -> bool {
    &&& forall|k: (Seq<char>, Seq<u8>)| #[trigger] s.contains_key(k) <==> t.contains_key(k)
    &&& forall|k: (Seq<char>, Seq<u8>)| #[trigger]
        s.contains_key(k) ==> s[k].canonical == t[k].canonical
}

/// Rows with the same texts have the same hashes, one by one and together.
proof fn lemma_same_texts_same_hash(s: FinalStateView, t: FinalStateView)
    requires
        listable::<(String, Vec<u8>), RowView>(s.rows),
        same_texts(s.rows, t.rows),
    ensures
        state_hash(s) == state_hash(t),
        ({
            let a = listing::<(String, Vec<u8>), RowView>(s.rows);
            let b = listing::<(String, Vec<u8>), RowView>(t.rows);
            &&& a.len() == b.len()
            &&& forall|i: int|
                #![trigger a[i]]
                #![trigger b[i]]
                0 <= i < a.len() ==> a[i].0 == b[i].0 && a[i].1.canonical == b[i].1.canonical
        }),
{
    let a = listing::<(String, Vec<u8>), RowView>(s.rows);
    let b = Seq::new(a.len(), |i: int| (a[i].0, t.rows[a[i].0]));
    assert forall|i: int| 0 <= i < a.len() implies s.rows.contains_key((#[trigger] a[i]).0)
        && s.rows[a[i].0] == a[i].1 by {
        lemma_ascending_lookup::<(String, Vec<u8>), RowView>(a, i);
    }
    lemma_to_map(a);
    assert forall|k: (Seq<char>, Seq<u8>)| #[trigger] t.rows.contains_key(k) implies exists|i: int|
        0 <= i < b.len() && (#[trigger] b[i]).0 == k by {
        assert(s.rows.contains_key(k));
        let i = choose|i: int| 0 <= i < a.len() && (#[trigger] a[i]).0 == k;
        assert(b[i].0 == k);
    }
    assert forall|i: int| 0 <= i < b.len() implies t.rows.contains_key((#[trigger] b[i]).0)
        && t.rows[b[i].0] == b[i].1 by {
        assert(s.rows.contains_key(a[i].0));
    }
    lemma_is_listing::<(String, Vec<u8>), RowView>(b, t.rows);
    lemma_listing::<(String, Vec<u8>), RowView>(b, t.rows);
    lemma_same_aggregate(a, b);
}

proof fn lemma_same_aggregate(
    a: Seq<((Seq<char>, Seq<u8>), RowView)>,
    b: Seq<((Seq<char>, Seq<u8>), RowView)>,
)
    requires
        a.len() == b.len(),
        forall|i: int|
            #![trigger a[i]]
            #![trigger b[i]]
            0 <= i < a.len() ==> a[i].0 == b[i].0 && a[i].1.canonical == b[i].1.canonical,
    ensures
        aggregate_message(a) == aggregate_message(b),
    decreases a.len(),
{
    if a.len() > 0 {
        let x = a.drop_last();
        let y = b.drop_last();
        assert forall|i: int|
            #![trigger x[i]]
            #![trigger y[i]]
            0 <= i < x.len() implies x[i].0 == y[i].0 && x[i].1.canonical == y[i].1.canonical by {
            assert(x[i] == a[i] && y[i] == b[i]);
        }
        lemma_same_aggregate(x, y);
        assert(a[a.len() - 1].0 == b[b.len() - 1].0);
    }
}

/// Rows that are added in any order, and repeated in any place, lead to the same hash, and to
/// rows of the same queries and hashes in the same order. Rows are identified by their whole
/// text.
pub proof fn lemma_added_rows_are_a_set(
    state: FinalStateView,
    query_id: Seq<char>,
    a: Seq<JsonView>,
    b: Seq<JsonView>,
)
    requires
        consistent(state),
        state.key_fields.len() == 0,
        forall|row: JsonView| #[trigger] a.contains(row) <==> b.contains(row),
    ensures
        ({
            let s = after_changes(state, query_id, adds(a)).0;
            let t = after_changes(state, query_id, adds(b)).0;
            let x = summary_of(s);
            let y = summary_of(t);
            &&& same_texts(s.rows, t.rows)
            &&& x.sha256 == y.sha256
            &&& x.row_count == y.row_count
            &&& x.rows.len() == y.rows.len()
            &&& forall|i: int|
                #![trigger x.rows[i]]
                #![trigger y.rows[i]]
                0 <= i < x.rows.len() ==> x.rows[i].query_id == y.rows[i].query_id
                    && x.rows[i].sha256 == y.rows[i].sha256
        }),
{
    let s = after_changes(state, query_id, adds(a)).0;
    let t = after_changes(state, query_id, adds(b)).0;
    lemma_adds(state, query_id, a);
    lemma_adds(state, query_id, b);
    lemma_changes_keep_consistency(state, query_id, adds(a));
    assert forall|text: Seq<u8>| #[trigger] has_text(a, text) == has_text(b, text) by {
        lemma_same_rows_same_texts(a, b, text);
        lemma_same_rows_same_texts(b, a, text);
    }
    assert forall|k: (Seq<char>, Seq<u8>)| #[trigger]
        s.rows.contains_key(k) <==> t.rows.contains_key(k) by {
        assert(has_text(a, k.1) == has_text(b, k.1));
        assert(s.rows.contains_key(k) <==> state.rows.contains_key(k) || (k.0 == query_id
            && has_text(a, k.1)));
        assert(t.rows.contains_key(k) <==> state.rows.contains_key(k) || (k.0 == query_id
            && has_text(b, k.1)));
    }
    assert forall|k: (Seq<char>, Seq<u8>)| #[trigger]
        s.rows.contains_key(k) implies s.rows[k].canonical == t.rows[k].canonical by {
        assert(t.rows.contains_key(k));
        assert(has_text(a, k.1) == has_text(b, k.1));
    }
    assert(same_texts(s.rows, t.rows));
    lemma_same_texts_same_hash(s, t);
    let p = listing::<(String, Vec<u8>), RowView>(s.rows);
    let q = listing::<(String, Vec<u8>), RowView>(t.rows);
    let x = final_rows(p);
    let y = final_rows(q);
    assert forall|i: int|
        #![trigger x[i]]
        #![trigger y[i]]
        0 <= i < x.len() implies x[i].query_id == y[i].query_id && x[i].sha256 == y[i].sha256 by {
        assert(p[i].0 == q[i].0);
    }
}

/// A state after more payloads.
pub open spec fn after_payloads(
    state: FinalStateView,
    query_id: Seq<char>,
    payloads: Seq<JsonView>,
) -> FinalStateView
    decreases payloads.len(),
{
    if payloads.len() == 0 {
        state
    } else {
        after_payload(
            after_payloads(state, query_id, payloads.drop_last()),
            query_id,
            payloads.last(),
        ).0
    }
}

/// Each payload adds one of the rows to a query.
pub open spec fn payloads_add(
    payloads: Seq<JsonView>,
    fallback_query_id: Seq<char>,
    query_id: Seq<char>,
    rows: Seq<JsonView>,
) -> bool {
    &&& payloads.len() == rows.len()
    &&& forall|i: int|
        0 <= i < payloads.len() ==> changes_of(#[trigger] payloads[i]) == Ok::<
            Seq<RowChangeView>,
            Seq<char>,
        >(seq![RowChangeView::Add(rows[i])]) && payload_query_id(payloads[i], fallback_query_id)
            == query_id
}

/// Payloads that add rows one by one leave the rows that adding them at once leaves.
proof fn lemma_payloads_add(
    state: FinalStateView,
    fallback_query_id: Seq<char>,
    query_id: Seq<char>,
    payloads: Seq<JsonView>,
    rows: Seq<JsonView>,
)
    requires
        state.key_fields.len() == 0,
        payloads_add(payloads, fallback_query_id, query_id, rows),
    ensures
        after_payloads(state, fallback_query_id, payloads).rows == after_changes(
            state,
            query_id,
            adds(rows),
        ).0.rows,
        after_payloads(state, fallback_query_id, payloads).key_fields == state.key_fields,
    decreases payloads.len(),
{
    let all = adds(rows);
    if payloads.len() == 0 {
        assert(all.len() == 0);
    } else {
        let n = payloads.len() - 1;
        let front = payloads.drop_last();
        let earlier = rows.drop_last();
        assert forall|i: int| 0 <= i < front.len() implies changes_of(#[trigger] front[i]) == Ok::<
            Seq<RowChangeView>,
            Seq<char>,
        >(seq![RowChangeView::Add(earlier[i])]) && payload_query_id(front[i], fallback_query_id)
            == query_id by {
            assert(front[i] == payloads[i]);
        }
        lemma_payloads_add(state, fallback_query_id, query_id, front, earlier);
        lemma_adds(state, query_id, earlier);
        assert(all.drop_last() =~= adds(earlier));
        assert(all.last() == RowChangeView::Add(rows[n]));
        assert(changes_of(payloads[n]) is Ok);
        let before = after_payloads(state, fallback_query_id, front);
        let single = seq![RowChangeView::Add(rows[n])];
        assert(single.drop_last() =~= Seq::<RowChangeView>::empty());
        let start = FinalStateView { query_ids: before.query_ids.insert(query_id, ()), ..before };
        assert(after_changes(start, query_id, single.drop_last()) == (start, Ok::<(), Seq<char>>(())));
        assert(after_changes(start, query_id, single) == after_change(start, query_id, single[0]));
    }
}

/// Two materializers that start alike and are given payloads that add the same rows to a query,
/// in any order and repeated in any place, sum up the same rows and the same hash. Rows are
/// identified by their whole text.
pub proof fn lemma_added_rows_agree(
    m: FinalStateMaterializer,
    n: FinalStateMaterializer,
    state: FinalStateView,
    fallback_query_id: Seq<char>,
    query_id: Seq<char>,
    payloads_a: Seq<JsonView>,
    payloads_b: Seq<JsonView>,
    a: Seq<JsonView>,
    b: Seq<JsonView>,
)
    requires
        m.wf(),
        n.wf(),
        consistent(state),
        state.key_fields.len() == 0,
        m@ == after_payloads(state, fallback_query_id, payloads_a),
        n@ == after_payloads(state, fallback_query_id, payloads_b),
        payloads_add(payloads_a, fallback_query_id, query_id, a),
        payloads_add(payloads_b, fallback_query_id, query_id, b),
        forall|row: JsonView| #[trigger] a.contains(row) <==> b.contains(row),
    ensures
        summary_of(m@).rows == summary_of(n@).rows,
        summary_of(m@).row_count == summary_of(n@).row_count,
        summary_of(m@).sha256 == summary_of(n@).sha256,
{
    lemma_payloads_add(state, fallback_query_id, query_id, payloads_a, a);
    lemma_payloads_add(state, fallback_query_id, query_id, payloads_b, b);
    lemma_added_rows_are_a_set(state, query_id, a, b);
    m.lemma_texts_tell_values();
    n.lemma_texts_tell_values();
    lemma_changes_keep_consistency(state, query_id, adds(a));
    lemma_changes_keep_consistency(state, query_id, adds(b));
    let s = m@.rows;
    let t = n@.rows;
    assert forall|k: (Seq<char>, Seq<u8>)| #[trigger] s.contains_key(k) implies s[k] == t[k] by {
        assert(t.contains_key(k));
        assert(row_tells(s[k]) && row_tells(t[k]));
        assert(json_text(t[k].value) == s[k].canonical);
    }
    assert(s =~= t);
}

proof fn lemma_same_rows_same_texts(a: Seq<JsonView>, b: Seq<JsonView>, text: Seq<u8>)
    requires
        forall|row: JsonView| #[trigger] a.contains(row) ==> b.contains(row),
    ensures
        has_text(a, text) ==> has_text(b, text),
{
    if has_text(a, text) {
        let i = choose|i: int|
            0 <= i < a.len() && json_text(canonical_value(#[trigger] a[i])) == text;
        assert(a.contains(a[i]));
        let j = choose|j: int| 0 <= j < b.len() && b[j] == a[i];
        assert(json_text(canonical_value(b[j])) == text);
    }
}

/// A change means the same whichever transport frames it: alone under `result`, in a list
/// under `results`, or as the body of a recorded request.
pub proof fn lemma_transports_agree(change: JsonView)
    requires
        operation_of(change) is Some,
    ensures
        changes_of(JsonView::Object(seq![("result"@, change)])) == single(named_change_of(change)),
        changes_of(JsonView::Object(seq![("results"@, JsonView::Array(seq![change]))])) == single(
            named_change_of(change),
        ),
        changes_of(JsonView::Object(seq![("request_body"@, change)])) == single(
            named_change_of(change),
        ),
{
    reveal_strlit("kind");
    reveal_strlit("result");
    reveal_strlit("results");
    reveal_strlit("addedResults");
    reveal_strlit("updatedResults");
    reveal_strlit("deletedResults");
    reveal_strlit("request_body");
    lemma_one_field("result"@, change);
    lemma_one_field("results"@, JsonView::Array(seq![change]));
    lemma_one_field("request_body"@, change);
    assert("kind"@.len() == 4 && "result"@.len() == 6 && "results"@.len() == 7);
    assert("addedResults"@.len() == 12 && "updatedResults"@.len() == 14 && "deletedResults"@.len()
        == 14 && "request_body"@.len() == 12);
    assert("addedResults"@[0] == 'a' && "request_body"@[0] == 'r');
    let list = seq![change];
    assert(list.drop_last() =~= Seq::<JsonView>::empty());
    assert(named_changes_of(list.drop_last()) == Ok::<Seq<RowChangeView>, Seq<char>>(Seq::empty()));
    match named_change_of(change) {
        Ok(c) => {
            assert(Seq::<RowChangeView>::empty().push(c) =~= seq![c]);
        },
        Err(_) => {},
    }
    assert(named_changes_of(list) == single(named_change_of(change)));
}

/// An object with one field has that field and no other.
proof fn lemma_one_field(key: Seq<char>, value: JsonView)
    ensures
        forall|k: Seq<char>| #[trigger]
            json_get(JsonView::Object(seq![(key, value)]), k) == if k == key {
                Some(value)
            } else {
                None
            },
{
    let fields = seq![(key, value)];
    assert(fields.drop_last() =~= Seq::<(Seq<char>, JsonView)>::empty());
    assert(to_map(fields.drop_last()) =~= Map::<Seq<char>, JsonView>::empty());
    assert(to_map(fields) =~= Map::<Seq<char>, JsonView>::empty().insert(key, value));
}

} // verus!
