//! What reaction output says of a row, and what becomes of the rows that are kept.

use crate::common::{HandlerPayload, HandlerRecord};
use crate::hashing::sha256_hex;
use crate::json::{json_get, json_text, keys_sorted, JsonView};
use crate::ordered::{
    ascending, lemma_ascending_lookup, lemma_listing_of_list, lemma_to_map, listable, listing,
    to_map,
};
use crate::reactions::output_loggers::canonical_json::sorted;
use crate::reactions::output_loggers::canonical_laws::lemma_sorting_keeps_the_content;
use crate::reactions::output_loggers::final_state::{
    after_change, after_changes, after_payload, aggregate_message, batch_changes_of,
    canonical_value, change_of, changes_of, has_room, integral_value, key_pairs, named_change_of,
    named_changes_of, normalized, normalized_fields, normalized_items, operation_of,
    payload_query_id, record_payload, row_of, state_hash, summary_of, FinalStateView, RowChangeView,
    RowView,
};
use crate::reactions::output_loggers::final_state_laws::consistent;
use crate::text::{ascii_lower, decimal, is_numeral, lemma_decimal, numeral_value};
use vstd::prelude::*;
use vstd::utf8::*;

verus! {

/// After a row is added, it is there as added, and every other row is as before. It counts as
/// a repetition where it was there already, and as a replacement where another row with its
/// identity was.
pub proof fn lemma_added_rows_are_there(state: FinalStateView, query_id: Seq<char>, row: JsonView)
    requires
        row_of(row, state.key_fields) is Ok,
    ensures
        ({
            let key = (query_id, row_of(row, state.key_fields)->Ok_0.identity);
            let next = after_change(state, query_id, RowChangeView::Add(row)).0;
            let known = state.rows.contains_key(key);
            let same = known && state.rows[key].canonical == json_text(canonical_value(row));
            &&& next.rows.contains_key(key)
            &&& next.rows[key].value == canonical_value(row)
            &&& forall|k: (Seq<char>, Seq<u8>)|
                k != key ==> (#[trigger] next.rows.contains_key(k) <==> state.rows.contains_key(k))
                    && (state.rows.contains_key(k) ==> next.rows[k] == state.rows[k])
            &&& next.duplicate_count - state.duplicate_count == if same {
                1int
            } else {
                0
            }
            &&& next.upsert_count - state.upsert_count == if known && !same {
                1int
            } else {
                0
            }
            &&& next.missing_before_count == state.missing_before_count
        }),
{
}

/// After a row is deleted, no row with its identity is there, and every other row is as
/// before. It counts as a repetition where there was none before.
pub proof fn lemma_deleted_rows_are_gone(state: FinalStateView, query_id: Seq<char>, row: JsonView)
    requires
        row_of(row, state.key_fields) is Ok,
    ensures
        ({
            let key = (query_id, row_of(row, state.key_fields)->Ok_0.identity);
            let next = after_change(state, query_id, RowChangeView::Delete(row)).0;
            &&& !next.rows.contains_key(key)
            &&& forall|k: (Seq<char>, Seq<u8>)|
                k != key ==> (#[trigger] next.rows.contains_key(k) <==> state.rows.contains_key(k))
                    && (state.rows.contains_key(k) ==> next.rows[k] == state.rows[k])
            &&& next.duplicate_count - state.duplicate_count == if state.rows.contains_key(key) {
                0int
            } else {
                1
            }
            &&& next.upsert_count == state.upsert_count
            &&& next.missing_before_count == state.missing_before_count
        }),
{
}

/// After a row is updated, the row after is there and the row before is not, unless they have
/// one identity; every other row is as before. Where the row before was not there, that is
/// counted; where the row after was there in its stead, nothing changes and the update counts
/// as a repetition.
pub proof fn lemma_updated_rows_are_replaced(
    state: FinalStateView,
    query_id: Seq<char>,
    before: JsonView,
    after: JsonView,
)
    requires
        row_of(before, state.key_fields) is Ok,
        row_of(after, state.key_fields) is Ok,
    ensures
        ({
            let old_key = (query_id, row_of(before, state.key_fields)->Ok_0.identity);
            let new_key = (query_id, row_of(after, state.key_fields)->Ok_0.identity);
            let next = after_change(state, query_id, RowChangeView::Update { before, after }).0;
            let known = state.rows.contains_key(old_key);
            let repeated = !known && state.rows.contains_key(new_key);
            &&& next.rows.contains_key(new_key)
            &&& old_key != new_key ==> !next.rows.contains_key(old_key)
            &&& !repeated ==> next.rows[new_key].value == canonical_value(after)
            &&& repeated ==> next.rows == state.rows
            &&& forall|k: (Seq<char>, Seq<u8>)|
                k != old_key && k != new_key ==> (#[trigger] next.rows.contains_key(k)
                    <==> state.rows.contains_key(k)) && (state.rows.contains_key(k)
                    ==> next.rows[k] == state.rows[k])
            &&& next.duplicate_count - state.duplicate_count == if repeated {
                1int
            } else {
                0
            }
            &&& next.missing_before_count - state.missing_before_count == if known || repeated {
                0int
            } else {
                1
            }
            &&& next.upsert_count == state.upsert_count
        }),
{
}

/// A change of one query leaves the rows of every other query as they are.
pub proof fn lemma_queries_are_kept_apart(
    state: FinalStateView,
    query_id: Seq<char>,
    change: RowChangeView,
    k: (Seq<char>, Seq<u8>),
)
    requires
        k.0 != query_id,
    ensures
        ({
            let next = after_change(state, query_id, change).0;
            &&& next.rows.contains_key(k) <==> state.rows.contains_key(k)
            &&& state.rows.contains_key(k) ==> next.rows[k] == state.rows[k]
        }),
{
}

/// Changes are applied in their order: those of two lists put together are those of the
/// first, then those of the second, unless one of the first fails. The first failure is the
/// outcome, and nothing is applied after it.
pub proof fn lemma_changes_apply_in_order(
    state: FinalStateView,
    query_id: Seq<char>,
    a: Seq<RowChangeView>,
    b: Seq<RowChangeView>,
    change: RowChangeView,
)
    ensures
        after_changes(state, query_id, seq![change]) == after_change(state, query_id, change),
        ({
            let (between, r) = after_changes(state, query_id, a);
            after_changes(state, query_id, a + b) == if r is Ok {
                after_changes(between, query_id, b)
            } else {
                (between, r)
            }
        }),
    decreases b.len(),
{
    reveal_with_fuel(after_changes, 2);
    assert(seq![change].drop_last() =~= Seq::<RowChangeView>::empty());
    if b.len() == 0 {
        assert(a + b =~= a);
    } else {
        lemma_changes_apply_in_order(state, query_id, a, b.drop_last(), change);
        assert((a + b).drop_last() =~= a + b.drop_last());
        assert((a + b).last() == b.last());
    }
}

/// The names of operations are different ones.
proof fn lemma_operations_differ()
    ensures
        "add"@.len() == 3,
        "added"@.len() == 5,
        "insert"@.len() == 6 && "insert"@[0] == 'i',
        "update"@.len() == 6 && "update"@[0] == 'u',
        "updated"@.len() == 7 && "updated"@[0] == 'u',
        "delete"@.len() == 6 && "delete"@[0] == 'd',
        "deleted"@.len() == 7 && "deleted"@[0] == 'd',
{
    reveal_strlit("add");
    reveal_strlit("added");
    reveal_strlit("insert");
    reveal_strlit("update");
    reveal_strlit("updated");
    reveal_strlit("delete");
    reveal_strlit("deleted");
}

/// The row that a change has under a key; one that is null is none.
pub open spec fn has_row(json: JsonView, key: Seq<char>, row: JsonView) -> bool {
    json_get(json, key) == Some(row) && !(row is Null)
}

/// The change has no row under a key.
pub open spec fn lacks_row(json: JsonView, key: Seq<char>) -> bool {
    json_get(json, key) is None || json_get(json, key) == Some(JsonView::Null)
}

/// A change that is named an addition adds its row after, whatever it has before; one named a
/// deletion deletes its row before, whatever it has after; one named an update leads from its
/// row before to its row after. The case of the name does not matter. Without the rows that it
/// needs, or under another name, it is an error.
pub proof fn lemma_named_operations(
    json: JsonView,
    op: Seq<char>,
    before: JsonView,
    after: JsonView,
)
    ensures
        ({
            let name = ascii_lower(op);
            let change = change_of(json, Some(op));
            let adds = name == "add"@ || name == "added"@ || name == "insert"@;
            let updates = name == "update"@ || name == "updated"@;
            let deletes = name == "delete"@ || name == "deleted"@;
            &&& adds && has_row(json, "after"@, after) ==> change == Ok::<
                RowChangeView,
                Seq<char>,
            >(RowChangeView::Add(after))
            &&& adds && lacks_row(json, "after"@) ==> change is Err
            &&& deletes && has_row(json, "before"@, before) ==> change == Ok::<
                RowChangeView,
                Seq<char>,
            >(RowChangeView::Delete(before))
            &&& deletes && lacks_row(json, "before"@) ==> change is Err
            &&& updates && has_row(json, "before"@, before) && has_row(json, "after"@, after)
                ==> change == Ok::<RowChangeView, Seq<char>>(
                RowChangeView::Update { before, after },
            )
            &&& updates && (lacks_row(json, "before"@) || lacks_row(json, "after"@)) ==> change
                is Err
            &&& !adds && !updates && !deletes ==> change is Err
        }),
{
    lemma_operations_differ();
}

/// A change without a name is told by its rows: only one after is an addition, only one before
/// a deletion, both an update. Neither is an error.
pub proof fn lemma_unnamed_operations(json: JsonView, before: JsonView, after: JsonView)
    ensures
        has_row(json, "after"@, after) && lacks_row(json, "before"@) ==> change_of(json, None)
            == Ok::<RowChangeView, Seq<char>>(RowChangeView::Add(after)),
        has_row(json, "before"@, before) && lacks_row(json, "after"@) ==> change_of(json, None)
            == Ok::<RowChangeView, Seq<char>>(RowChangeView::Delete(before)),
        has_row(json, "before"@, before) && has_row(json, "after"@, after) ==> change_of(json, None)
            == Ok::<RowChangeView, Seq<char>>(RowChangeView::Update { before, after }),
        lacks_row(json, "before"@) && lacks_row(json, "after"@) ==> change_of(json, None) is Err,
{
}

/// A change is named by the text under "type" or, where nothing stands there, by that under
/// "operation".
pub proof fn lemma_where_operations_are_named(json: JsonView, name: Seq<char>)
    ensures
        json_get(json, "type"@) == Some(JsonView::Text(name)) ==> operation_of(json) == Some(name),
        json_get(json, "type"@) is None && json_get(json, "operation"@) == Some(
            JsonView::Text(name),
        ) ==> operation_of(json) == Some(name),
        json_get(json, "type"@) is Some && !(json_get(json, "type"@) matches Some(
            JsonView::Text(_),
        )) ==> operation_of(json) is None,
        json_get(json, "type"@) is None && !(json_get(json, "operation"@) matches Some(
            JsonView::Text(_),
        )) ==> operation_of(json) is None,
        named_change_of(json) == change_of(json, operation_of(json)),
{
}

/// The changes of a list are read in their order, each as it is by itself; one that cannot be
/// read spoils the list.
pub proof fn lemma_lists_are_read_in_order(items: Seq<JsonView>)
    ensures
        match named_changes_of(items) {
            Ok(changes) => changes.len() == items.len() && forall|i: int|
                0 <= i < items.len() ==> named_change_of(#[trigger] items[i]) == Ok::<
                    RowChangeView,
                    Seq<char>,
                >(changes[i]),
            Err(error) => exists|i: int|
                0 <= i < items.len() && named_change_of(#[trigger] items[i]) == Err::<
                    RowChangeView,
                    Seq<char>,
                >(error) && forall|j: int| 0 <= j < i ==> named_change_of(#[trigger] items[j]) is Ok,
        },
    decreases items.len(),
{
    if items.len() > 0 {
        let front = items.drop_last();
        let n = items.len() - 1;
        lemma_lists_are_read_in_order(front);
        match named_changes_of(front) {
            Ok(changes) => {
                assert forall|j: int| 0 <= j < n implies named_change_of(#[trigger] items[j])
                    == Ok::<RowChangeView, Seq<char>>(changes[j]) by {
                    assert(front[j] == items[j]);
                }
                assert(items[n] == items.last());
            },
            Err(error) => {
                let i = choose|i: int|
                    0 <= i < front.len() && named_change_of(#[trigger] front[i]) == Err::<
                        RowChangeView,
                        Seq<char>,
                    >(error) && forall|j: int|
                        0 <= j < i ==> named_change_of(#[trigger] front[j]) is Ok;
                assert(items[i] == front[i]);
                assert forall|j: int| 0 <= j < i implies named_change_of(#[trigger] items[j])
                    is Ok by {
                    assert(front[j] == items[j]);
                }
            },
        }
    }
}

/// A list of results adds each of its added rows, then changes the updated ones, then deletes
/// each of its deleted rows, each kind in its order.
pub proof fn lemma_result_lists_add_update_delete(
    json: JsonView,
    added: Seq<JsonView>,
    updated: Seq<JsonView>,
    deleted: Seq<JsonView>,
)
    requires
        json_get(json, "addedResults"@) == Some(JsonView::Array(added)),
        json_get(json, "updatedResults"@) == Some(JsonView::Array(updated)),
        json_get(json, "deletedResults"@) == Some(JsonView::Array(deleted)),
        named_changes_of(updated) is Ok,
    ensures
        batch_changes_of(json) matches Ok(changes) && {
            let n = added.len() as int;
            let m = n + updated.len();
            &&& changes.len() == added.len() + updated.len() + deleted.len()
            &&& forall|i: int|
                0 <= i < added.len() ==> #[trigger] changes[i] == RowChangeView::Add(added[i])
            &&& changes.subrange(n, m) == named_changes_of(updated)->Ok_0
            &&& forall|i: int|
                0 <= i < deleted.len() ==> changes[m + i] == RowChangeView::Delete(
                    #[trigger] deleted[i],
                )
        },
{
    lemma_lists_are_read_in_order(updated);
    let changes = batch_changes_of(json)->Ok_0;
    let n = added.len() as int;
    let m = n + updated.len();
    assert(changes.subrange(n, m) =~= named_changes_of(updated)->Ok_0);
}

/// What a payload carries: control messages carry no change; one result stands for its own
/// change; a list for the changes of its items in their order; grouped results for those of
/// their groups; a request's body for its change, named as the body or else as the payload
/// says; and a payload that has the shape of a change for itself. Anything else is an error.
pub proof fn lemma_payload_shapes(payload: JsonView, change: RowChangeView)
    requires
        payload is Object,
    ensures
        ({
            let control = json_get(payload, "kind"@) == Some(JsonView::Text("control"@));
            let result = json_get(payload, "result"@);
            let results = json_get(payload, "results"@);
            let listed = results matches Some(JsonView::Array(_));
            let grouped = json_get(payload, "addedResults"@) is Some || json_get(
                payload,
                "updatedResults"@,
            ) is Some || json_get(payload, "deletedResults"@) is Some;
            let body = json_get(payload, "request_body"@);
            let plain = json_get(payload, "type"@) is Some || json_get(payload, "operation"@)
                is Some || json_get(payload, "before"@) is Some || json_get(payload, "after"@)
                is Some;
            let read = changes_of(payload);
            let one = |c: Result<RowChangeView, Seq<char>>|
                match c {
                    Ok(c) => Ok::<Seq<RowChangeView>, Seq<char>>(seq![c]),
                    Err(error) => Err(error),
                };
            &&& control ==> (read matches Ok(changes) && changes.len() == 0)
            &&& !control && result is Some ==> read == one(named_change_of(result->0))
            &&& !control && result is None && listed ==> read == named_changes_of(
                results->0->Array_0,
            )
            &&& !control && result is None && !listed && grouped ==> read == batch_changes_of(
                payload,
            )
            &&& !control && result is None && !listed && !grouped && body is Some ==> {
                &&& operation_of(body->0) matches Some(op) ==> read == one(
                    change_of(body->0, Some(op)),
                )
                &&& operation_of(body->0) is None ==> match json_get(payload, "reaction_type"@) {
                    Some(JsonView::Text(op)) => read == one(change_of(body->0, Some(op))),
                    _ => read == one(change_of(body->0, None)),
                }
            }
            &&& !control && result is None && !listed && !grouped && body is None && plain ==> read
                == one(named_change_of(payload))
            &&& !control && result is None && !listed && !grouped && body is None && !plain ==> read
                is Err
        }),
{
}

/// A payload that is no object is an error.
pub proof fn lemma_payloads_are_objects(payload: JsonView)
    requires
        !(payload is Object),
    ensures
        changes_of(payload) is Err,
{
}

/// A payload is of the query that it names under "query_id", or under "queryId" where it has
/// nothing there; otherwise of the one that it came for. No query goes without a name.
pub proof fn lemma_payloads_name_their_query(
    payload: JsonView,
    fallback: Seq<char>,
    name: Seq<char>,
)
    requires
        name.len() > 0,
        fallback.len() > 0,
    ensures
        json_get(payload, "query_id"@) == Some(JsonView::Text(name)) ==> payload_query_id(
            payload,
            fallback,
        ) == name,
        json_get(payload, "query_id"@) is None && json_get(payload, "queryId"@) == Some(
            JsonView::Text(name),
        ) ==> payload_query_id(payload, fallback) == name,
        json_get(payload, "query_id"@) is None && !(json_get(payload, "queryId"@) matches Some(
            JsonView::Text(_),
        )) ==> payload_query_id(payload, fallback) == fallback,
        json_get(payload, "query_id"@) is Some && !(json_get(payload, "query_id"@) matches Some(
            JsonView::Text(_),
        )) ==> payload_query_id(payload, fallback) == fallback,
        json_get(payload, "query_id"@) is None && json_get(payload, "queryId"@) is None
            ==> payload_query_id(payload, Seq::empty()) == "unknown"@,
        payload_query_id(payload, fallback).len() > 0,
        payload_query_id(payload, Seq::empty()).len() > 0,
{
    reveal_strlit("unknown");
}

/// A payload that cannot be read alters no row; it is counted, and its error is kept behind the
/// earlier ones as long as there are not too many. One without changes counts as skipped. Any
/// other has its changes applied to the rows of its query, which is then known.
pub proof fn lemma_payloads_are_applied(
    state: FinalStateView,
    fallback: Seq<char>,
    payload: JsonView,
)
    ensures
        ({
            let (next, r) = after_payload(state, fallback, payload);
            match changes_of(payload) {
                Err(error) => {
                    &&& r is Ok
                    &&& next.rows == state.rows
                    &&& next.query_ids == state.query_ids
                    &&& next.change_count == state.change_count
                    &&& next.skipped_record_count == state.skipped_record_count
                    &&& next.normalization_error_count == state.normalization_error_count + 1
                    &&& state.normalization_errors.len() < 20 ==> next.normalization_errors
                        == state.normalization_errors.push(error)
                    &&& state.normalization_errors.len() >= 20 ==> next.normalization_errors
                        == state.normalization_errors
                },
                Ok(changes) => {
                    let query_id = payload_query_id(payload, fallback);
                    &&& next.normalization_error_count == state.normalization_error_count
                    &&& next.normalization_errors == state.normalization_errors
                    &&& changes.len() == 0 ==> {
                        &&& r is Ok
                        &&& next.skipped_record_count == state.skipped_record_count + 1
                        &&& next.rows == state.rows
                        &&& next.query_ids == state.query_ids
                        &&& next.change_count == state.change_count
                    }
                    &&& changes.len() > 0 ==> {
                        &&& next.skipped_record_count == state.skipped_record_count
                        &&& next.query_ids == state.query_ids.insert(query_id, ())
                        &&& next.rows == after_changes(state, query_id, changes).0.rows
                        &&& r == after_changes(state, query_id, changes).1
                        &&& r is Ok ==> next.change_count == state.change_count + changes.len()
                    }
                },
            }
        }),
{
    if let Ok(changes) = changes_of(payload) {
        if changes.len() > 0 {
            let query_id = payload_query_id(payload, fallback);
            let known = FinalStateView {
                query_ids: state.query_ids.insert(query_id, ()),
                ..state
            };
            lemma_changes_touch_rows_alone(state, known, query_id, changes);
            lemma_changes_touch_rows_alone(known, known, query_id, changes);
        }
    }
}

/// What changes do to the rows depends on the rows alone, and nothing but rows and their counts
/// changes.
proof fn lemma_changes_touch_rows_alone(
    s: FinalStateView,
    t: FinalStateView,
    query_id: Seq<char>,
    changes: Seq<RowChangeView>,
)
    requires
        s.rows == t.rows,
        s.key_fields == t.key_fields,
    ensures
        ({
            let a = after_changes(s, query_id, changes);
            let b = after_changes(t, query_id, changes);
            &&& a.0.rows == b.0.rows
            &&& a.1 == b.1
            &&& b.0.key_fields == t.key_fields
            &&& a.0.key_fields == s.key_fields
            &&& b.0.query_ids == t.query_ids
            &&& b.0.skipped_record_count == t.skipped_record_count
            &&& b.0.normalization_error_count == t.normalization_error_count
            &&& b.0.normalization_errors == t.normalization_errors
            &&& b.1 is Ok ==> b.0.change_count == t.change_count + changes.len()
        }),
    decreases changes.len(),
{
    if changes.len() > 0 {
        lemma_changes_touch_rows_alone(s, t, query_id, changes.drop_last());
    }
}

/// What a record carries is what its reaction or its query put out, of the query that it names.
pub proof fn lemma_records_carry_their_output(record: HandlerRecord)
    ensures
        match record.payload {
            HandlerPayload::ReactionInvocation { query_id, request_body, .. } => record_payload(
                record,
            ).0 == query_id@ && record_payload(record).1 == request_body@,
            HandlerPayload::ReactionOutput { reaction_output } => record_payload(record).0.len()
                == 0 && record_payload(record).1 == reaction_output@,
            HandlerPayload::ResultStream { query_result, .. } => record_payload(record).0.len()
                == 0 && record_payload(record).1 == query_result@,
        },
{
}

/// A number printed with nothing but a zero behind the point is that integer, with its sign,
/// up to the largest integer that every smaller one can be told from; a larger one is not.
pub proof fn lemma_whole_numbers_are_integers(n: nat)
    ensures
        n <= 9_007_199_254_740_991 ==> {
            &&& integral_value(decimal(n) + ".0"@) == Some(n as int)
            &&& integral_value("-"@ + decimal(n) + ".0"@) == Some(-(n as int))
        },
        n > 9_007_199_254_740_991 ==> {
            &&& integral_value(decimal(n) + ".0"@) is None
            &&& integral_value("-"@ + decimal(n) + ".0"@) is None
        },
{
    reveal_strlit(".0");
    reveal_strlit("-");
    lemma_decimal(n);
    let digits = decimal(n);
    let plain = digits + ".0"@;
    let signed = "-"@ + digits + ".0"@;
    assert(crate::text::is_digit(digits[0]));
    assert(plain[0] == digits[0] && plain[0] != '-');
    assert(plain.subrange(0, plain.len() - 2) =~= digits);
    assert(signed[0] == '-');
    assert(signed.subrange(1, signed.len() - 2) =~= digits);
}

/// What is taken for an integer was printed as digits with nothing but a zero behind the point.
pub proof fn lemma_only_whole_numbers_are_integers(text: Seq<char>)
    requires
        integral_value(text) is Some,
    ensures
        ({
            let value = integral_value(text)->0;
            let digits = if value < 0 || text[0] == '-' {
                text.subrange(1, text.len() - 2)
            } else {
                text.take(text.len() - 2)
            };
            &&& text.skip(text.len() - 2) == ".0"@
            &&& is_numeral(digits)
            &&& numeral_value(digits) == value || numeral_value(digits) == -value
            &&& value < 0 ==> text[0] == '-'
            &&& -9_007_199_254_740_991 <= value <= 9_007_199_254_740_991
        }),
{
    reveal_strlit(".0");
    assert(text.skip(text.len() - 2) =~= ".0"@);
    assert(text.take(text.len() - 2) =~= text.subrange(0, text.len() - 2));
}

/// Normalizing keeps the shape of a value: lists item by item, objects field by field under
/// their keys, texts and integers as they are. Only numbers with a point may change, into the
/// integer that they are.
pub proof fn lemma_normalizing_keeps_the_shape(json: JsonView)
    ensures
        match json {
            JsonView::Array(items) => normalized(json) matches JsonView::Array(r) && r.len()
                == items.len() && forall|i: int|
                0 <= i < items.len() ==> #[trigger] r[i] == normalized(items[i]),
            JsonView::Object(fields) => normalized(json) matches JsonView::Object(r) && r.len()
                == fields.len() && forall|i: int|
                0 <= i < fields.len() ==> #[trigger] r[i] == (fields[i].0, normalized(fields[i].1)),
            JsonView::Float(n) => match integral_value(crate::json::number_text(n)) {
                Some(i) => normalized(json) == JsonView::Integer(i),
                None => normalized(json) == json,
            },
            _ => normalized(json) == json,
        },
{
    match json {
        JsonView::Array(items) => {
            lemma_items_one_by_one(items);
        },
        JsonView::Object(fields) => {
            lemma_fields_one_by_one(fields);
        },
        _ => {},
    }
}

/// The items of a list are normalized one by one.
proof fn lemma_items_one_by_one(items: Seq<JsonView>)
    ensures
        normalized_items(items).len() == items.len(),
        forall|i: int|
            0 <= i < items.len() ==> #[trigger] normalized_items(items)[i] == normalized(items[i]),
    decreases items.len(),
{
    if items.len() > 0 {
        let rest = items.subrange(0, items.len() - 1);
        lemma_items_one_by_one(rest);
        assert forall|i: int| 0 <= i < items.len() implies #[trigger] normalized_items(items)[i]
            == normalized(items[i]) by {
            if i < rest.len() {
                assert(normalized_items(rest)[i] == normalized(rest[i]));
            }
        }
    }
}

/// The fields of an object are normalized one by one.
proof fn lemma_fields_one_by_one(fields: Seq<(Seq<char>, JsonView)>)
    ensures
        normalized_fields(fields).len() == fields.len(),
        forall|i: int|
            0 <= i < fields.len() ==> #[trigger] normalized_fields(fields)[i] == (
                fields[i].0,
                normalized(fields[i].1),
            ),
    decreases fields.len(),
{
    if fields.len() > 0 {
        let rest = fields.subrange(0, fields.len() - 1);
        lemma_fields_one_by_one(rest);
        assert forall|i: int| 0 <= i < fields.len() implies #[trigger] normalized_fields(fields)[i]
            == (fields[i].0, normalized(fields[i].1)) by {
            if i < rest.len() {
                assert(normalized_fields(rest)[i] == (rest[i].0, normalized(rest[i].1)));
            }
        }
    }
}

/// The key fields of a row are read one by one; a row that lacks one is an error.
proof fn lemma_key_pairs(row: JsonView, key_fields: Seq<Seq<char>>)
    ensures
        key_pairs(row, key_fields) is Ok <==> forall|i: int|
            0 <= i < key_fields.len() ==> json_get(row, #[trigger] key_fields[i]) is Some,
        key_pairs(row, key_fields) matches Ok(pairs) ==> pairs.len() == key_fields.len()
            && forall|i: int|
            0 <= i < pairs.len() ==> (#[trigger] pairs[i]).0 == key_fields[i] && Some(pairs[i].1)
                == json_get(row, key_fields[i]),
    decreases key_fields.len(),
{
    if key_fields.len() > 0 {
        let front = key_fields.drop_last();
        let n = key_fields.len() - 1;
        lemma_key_pairs(row, front);
        if key_pairs(row, key_fields) is Ok {
            let pairs = key_pairs(row, key_fields)->Ok_0;
            assert forall|i: int| 0 <= i < pairs.len() implies (#[trigger] pairs[i]).0
                == key_fields[i] && Some(pairs[i].1) == json_get(row, key_fields[i]) by {
                if i < n {
                    assert(key_pairs(row, front)->Ok_0[i] == pairs[i]);
                    assert(front[i] == key_fields[i]);
                }
            }
            assert forall|i: int| 0 <= i < key_fields.len() implies json_get(
                row,
                #[trigger] key_fields[i],
            ) is Some by {
                assert(pairs[i].0 == key_fields[i]);
            }
        }
        if forall|i: int|
            0 <= i < key_fields.len() ==> json_get(row, #[trigger] key_fields[i]) is Some {
            assert forall|i: int| 0 <= i < front.len() implies json_get(
                row,
                #[trigger] front[i],
            ) is Some by {
                assert(front[i] == key_fields[i]);
            }
            assert(json_get(row, key_fields[n]) is Some);
        }
    }
}

/// A row is told by its key fields: its identity is the text of an object that has exactly
/// these, with the row's values. Without key fields it is the text of the whole row. The row is
/// kept whole either way.
pub proof fn lemma_rows_are_told_by_their_keys(value: JsonView, key_fields: Seq<Seq<char>>)
    ensures
        ({
            let row = canonical_value(value);
            let whole = key_fields.len() == 0;
            let complete = row is Object && forall|i: int|
                0 <= i < key_fields.len() ==> json_get(row, #[trigger] key_fields[i]) is Some;
            &&& row_of(value, key_fields) is Ok <==> whole || complete
            &&& row_of(value, key_fields) matches Ok(kept) ==> {
                &&& kept.value == row
                &&& kept.canonical == json_text(row)
                &&& whole ==> kept.identity == json_text(row)
                &&& !whole ==> exists|key: JsonView|
                    kept.identity == #[trigger] json_text(key) && key is Object && ascending::<
                        String,
                        JsonView,
                    >(key->Object_0) && forall|name: Seq<char>| #[trigger]
                        json_get(key, name) == if key_fields.contains(name) {
                            json_get(row, name)
                        } else {
                            None
                        }
            }
        }),
{
    let row = canonical_value(value);
    lemma_key_pairs(row, key_fields);
    if key_fields.len() > 0 && row_of(value, key_fields) is Ok {
        let pairs = key_pairs(row, key_fields)->Ok_0;
        let key = JsonView::Object(listing::<String, JsonView>(to_map(pairs)));
        lemma_listing_of_list::<String, JsonView>(pairs);
        lemma_to_map(pairs);
        assert forall|name: Seq<char>| #[trigger] json_get(key, name) == if key_fields.contains(
            name,
        ) {
            json_get(row, name)
        } else {
            None
        } by {
            if key_fields.contains(name) {
                let i = choose|i: int| 0 <= i < key_fields.len() && key_fields[i] == name;
                assert(pairs[i].0 == name);
                assert(to_map(pairs).contains_key(pairs[i].0));
                let at = choose|k: int|
                    0 <= k < pairs.len() && (#[trigger] pairs[k]).0 == name && to_map(pairs)[name]
                        == pairs[k].1 && (forall|j: int|
                        k < j < pairs.len() ==> (#[trigger] pairs[j]).0 != name);
                assert(Some(pairs[at].1) == json_get(row, key_fields[at]));
            } else if to_map(pairs).contains_key(name) {
                let at = choose|k: int|
                    0 <= k < pairs.len() && (#[trigger] pairs[k]).0 == name && to_map(pairs)[name]
                        == pairs[k].1 && (forall|j: int|
                        k < j < pairs.len() ==> (#[trigger] pairs[j]).0 != name);
                assert(key_fields[at] == name);
            }
        }
        assert(row_of(value, key_fields)->Ok_0.identity == json_text(key));
    }
}

/// Rows whose key fields have the same values are one row to the state, whatever else they
/// hold.
pub proof fn lemma_equal_keys_are_one_row(a: JsonView, b: JsonView, key_fields: Seq<Seq<char>>)
    requires
        key_fields.len() > 0,
        row_of(a, key_fields) is Ok,
        row_of(b, key_fields) is Ok,
        forall|i: int|
            0 <= i < key_fields.len() ==> json_get(canonical_value(a), #[trigger] key_fields[i])
                == json_get(canonical_value(b), key_fields[i]),
    ensures
        row_of(a, key_fields)->Ok_0.identity == row_of(b, key_fields)->Ok_0.identity,
{
    lemma_key_pairs(canonical_value(a), key_fields);
    lemma_key_pairs(canonical_value(b), key_fields);
    let pairs = key_pairs(canonical_value(a), key_fields)->Ok_0;
    let others = key_pairs(canonical_value(b), key_fields)->Ok_0;
    assert forall|i: int| 0 <= i < pairs.len() implies pairs[i] == others[i] by {
        assert(pairs[i].0 == others[i].0);
        assert(Some(pairs[i].1) == json_get(canonical_value(a), key_fields[i]));
        assert(Some(others[i].1) == json_get(canonical_value(b), key_fields[i]));
    }
    assert(pairs =~= others);
}

/// The summary lists every row that is kept, and nothing else, by query and then by identity;
/// each with its query, its value and the hash of the value's text.
pub proof fn lemma_summaries_list_the_rows(state: FinalStateView, key: (Seq<char>, Seq<u8>))
    requires
        consistent(state),
    ensures
        ({
            let summary = summary_of(state);
            let keys = listing::<(String, Vec<u8>), RowView>(state.rows);
            &&& summary.row_count == summary.rows.len()
            &&& keys.len() == summary.rows.len()
            &&& ascending::<(String, Vec<u8>), RowView>(keys)
            &&& state.rows.contains_key(key) <==> exists|i: int|
                0 <= i < keys.len() && (#[trigger] keys[i]).0 == key
            &&& forall|i: int|
                0 <= i < keys.len() ==> {
                    let row = #[trigger] summary.rows[i];
                    &&& row.query_id == keys[i].0.0
                    &&& row.value == state.rows[keys[i].0].value
                    &&& row.sha256 == sha256_hex(json_text(row.value))
                }
        }),
{
    let keys = listing::<(String, Vec<u8>), RowView>(state.rows);
    lemma_to_map(keys);
    assert forall|i: int| 0 <= i < keys.len() implies {
        let row = #[trigger] summary_of(state).rows[i];
        &&& row.query_id == keys[i].0.0
        &&& row.value == state.rows[keys[i].0].value
        &&& row.sha256 == sha256_hex(json_text(row.value))
    } by {
        lemma_ascending_lookup::<(String, Vec<u8>), RowView>(keys, i);
        assert(state.rows.contains_key(keys[i].0));
    }
    if exists|i: int| 0 <= i < keys.len() && (#[trigger] keys[i]).0 == key {
        let i = choose|i: int| 0 <= i < keys.len() && (#[trigger] keys[i]).0 == key;
        assert(to_map(keys).contains_key(keys[i].0));
    }
}

/// The summary counts what the state counted, and names every query that it knows, in order.
pub proof fn lemma_summaries_count_the_changes(state: FinalStateView, query_id: Seq<char>)
    requires
        listable::<String, ()>(state.query_ids),
    ensures
        ({
            let summary = summary_of(state);
            &&& summary.change_count == state.change_count
            &&& summary.duplicate_count == state.duplicate_count
            &&& summary.upsert_count == state.upsert_count
            &&& summary.missing_before_count == state.missing_before_count
            &&& summary.skipped_record_count == state.skipped_record_count
            &&& summary.normalization_error_count == state.normalization_error_count
            &&& summary.normalization_errors == state.normalization_errors
            &&& summary.key_fields == state.key_fields
            &&& summary.query_ids.contains(query_id) <==> state.query_ids.contains_key(query_id)
            &&& forall|i: int, j: int|
                0 <= i < j < summary.query_ids.len() ==> crate::text::text_before(
                    #[trigger] summary.query_ids[i],
                    #[trigger] summary.query_ids[j],
                )
        }),
{
    let list = listing::<String, ()>(state.query_ids);
    let named = summary_of(state).query_ids;
    lemma_to_map(list);
    if named.contains(query_id) {
        let i = choose|i: int| 0 <= i < named.len() && named[i] == query_id;
        assert(to_map(list).contains_key(list[i].0));
    }
    if state.query_ids.contains_key(query_id) {
        let i = choose|i: int|
            0 <= i < list.len() && (#[trigger] list[i]).0 == query_id && to_map(list)[query_id]
                == list[i].1 && (forall|j: int|
                i < j < list.len() ==> (#[trigger] list[j]).0 != query_id);
        assert(named[i] == query_id);
    }
    assert forall|i: int, j: int| 0 <= i < j < named.len() implies crate::text::text_before(
        #[trigger] named[i],
        #[trigger] named[j],
    ) by {
        assert(list[i].0 == named[i] && list[j].0 == named[j]);
        assert(<String as crate::ordered::OrderedKey>::before(list[i].0, list[j].0));
    }
}

/// What is hashed of the rows is one line for each, in their order: the query, a zero byte and
/// the hash of the row's text.
pub proof fn lemma_states_are_hashed_row_by_row(
    a: Seq<((Seq<char>, Seq<u8>), RowView)>,
    b: Seq<((Seq<char>, Seq<u8>), RowView)>,
    row: ((Seq<char>, Seq<u8>), RowView),
)
    ensures
        aggregate_message(a + b) == aggregate_message(a) + aggregate_message(b),
        aggregate_message(seq![row]) == encode_utf8(row.0.0) + seq![0u8] + encode_utf8(
            sha256_hex(row.1.canonical),
        ) + seq![10u8],
    decreases b.len(),
{
    reveal_with_fuel(aggregate_message, 2);
    assert(seq![row].drop_last() =~= Seq::<((Seq<char>, Seq<u8>), RowView)>::empty());
    assert(aggregate_message(seq![row]) =~= encode_utf8(row.0.0) + seq![0u8] + encode_utf8(
        sha256_hex(row.1.canonical),
    ) + seq![10u8]);
    if b.len() == 0 {
        assert(a + b =~= a);
        assert(aggregate_message(a) + aggregate_message(b) =~= aggregate_message(a));
    } else {
        lemma_states_are_hashed_row_by_row(a, b.drop_last(), row);
        assert((a + b).drop_last() =~= a + b.drop_last());
        assert((a + b).last() == b.last());
        assert(aggregate_message(a + b) =~= aggregate_message(a) + aggregate_message(b));
    }
}

/// The hash of a state is that of its rows, in the order in which its summary lists them.
pub proof fn lemma_state_hashes_are_of_the_listed_rows(state: FinalStateView)
    ensures
        summary_of(state).sha256 == state_hash(state),
        state_hash(state) == sha256_hex(
            aggregate_message(listing::<(String, Vec<u8>), RowView>(state.rows)),
        ),
{
}

/// A change of which a row cannot be told is counted, but alters no row.
pub proof fn lemma_failed_changes_alter_no_row(
    state: FinalStateView,
    query_id: Seq<char>,
    change: RowChangeView,
)
    requires
        after_change(state, query_id, change).1 is Err,
    ensures
        after_change(state, query_id, change).0 == (FinalStateView {
            change_count: state.change_count + 1,
            ..state
        }),
{
}

/// A payload is applied exactly where the counters have room for what it carries.
pub proof fn lemma_room_for_payloads(state: FinalStateView, payload: JsonView)
    requires
        state.skipped_record_count < u64::MAX,
        state.normalization_error_count < usize::MAX,
    ensures
        changes_of(payload) is Err ==> has_room(state, payload),
        changes_of(payload) matches Ok(changes) ==> (has_room(state, payload)
            <==> state.change_count + changes.len() <= u64::MAX),
{
}

/// The canonical form of a value has its keys in order and its whole numbers as integers, at
/// every depth, and holds the canonical forms of what the value holds.
pub proof fn lemma_canonical_forms(json: JsonView)
    ensures
        keys_sorted(canonical_value(json)),
        canonical_value(json) == sorted(normalized(json)),
        match json {
            JsonView::Float(n) => match integral_value(crate::json::number_text(n)) {
                Some(i) => canonical_value(json) == JsonView::Integer(i),
                None => canonical_value(json) == json,
            },
            JsonView::Array(items) => canonical_value(json) matches JsonView::Array(r) && r.len()
                == items.len() && forall|i: int|
                0 <= i < items.len() ==> #[trigger] r[i] == canonical_value(items[i]),
            JsonView::Object(fields) => canonical_value(json) is Object && forall|key: Seq<char>|
                #[trigger]
                json_get(canonical_value(json), key) == (match json_get(json, key) {
                    Some(value) => Some(canonical_value(value)),
                    None => None,
                }),
            _ => canonical_value(json) == json,
        },
{
    lemma_sorting_keeps_the_content(normalized(json));
    match json {
        JsonView::Array(items) => {
            lemma_items_one_by_one(items);
        },
        JsonView::Object(fields) => {
            assert forall|key: Seq<char>| #[trigger]
                json_get(canonical_value(json), key) == (match json_get(json, key) {
                    Some(value) => Some(canonical_value(value)),
                    None => None,
                }) by {
                lemma_normalized_lookup(fields, key);
            }
        },
        _ => {},
    }
}

/// What normalized fields hold under a key.
proof fn lemma_normalized_lookup(fields: Seq<(Seq<char>, JsonView)>, key: Seq<char>)
    ensures
        to_map(normalized_fields(fields)).contains_key(key) == to_map(fields).contains_key(key),
        to_map(fields).contains_key(key) ==> to_map(normalized_fields(fields))[key] == normalized(
            to_map(fields)[key],
        ),
    decreases fields.len(),
{
    if fields.len() > 0 {
        let rest = fields.drop_last();
        assert(rest =~= fields.subrange(0, fields.len() - 1));
        lemma_normalized_lookup(rest, key);
        assert(normalized_fields(fields).drop_last() =~= normalized_fields(rest));
    }
}

} // verus!
