//! What the canonical form of a value keeps, and what is hashed and reported of it.

use crate::common::{HandlerPayload, HandlerRecord};
use crate::hashing::{hex_digit, hex_text, sha256_hex};
use crate::json::{json_get, json_text, keys_sorted, JsonView};
use crate::json_laws::lemma_fields_are_found;
use crate::ordered::{lemma_listing_of_list, to_map};
use crate::reactions::output_loggers::canonical_json::{
    free_of_volatile_keys, is_volatile, lemma_sorted_items, lemma_sorting_sorts,
    lemma_stripped_lookup, lemma_stripping_strips, sorted, sorted_fields, stripped, stripped_fields,
    stripped_items,
};
use crate::reactions::output_loggers::determinism_hash_logger::{
    after_record, logger_summary, ordered_summary, record_fits, row_json, summary_json, texts_json,
    DeterminismHashMode, LoggerView,
};
use crate::reactions::output_loggers::final_state::{
    after_payload, has_room, record_payload, summary_of, FinalRowView, SummaryView,
};
use vstd::prelude::*;

verus! {

/// What sorted fields hold under a key.
proof fn lemma_sorted_lookup(fields: Seq<(Seq<char>, JsonView)>, key: Seq<char>)
    ensures
        to_map(sorted_fields(fields)).contains_key(key) == to_map(fields).contains_key(key),
        to_map(fields).contains_key(key) ==> to_map(sorted_fields(fields))[key] == sorted(
            to_map(fields)[key],
        ),
    decreases fields.len(),
{
    if fields.len() > 0 {
        let rest = fields.drop_last();
        assert(rest =~= fields.subrange(0, fields.len() - 1));
        lemma_sorted_lookup(rest, key);
        assert(sorted_fields(fields).drop_last() =~= sorted_fields(rest));
    }
}

/// Sorting changes nothing but the order of fields: a field is found under its key as before,
/// lists keep their items in their order, and any other value stays as it is.
pub proof fn lemma_sorting_keeps_the_content(json: JsonView)
    ensures
        match json {
            JsonView::Array(items) => sorted(json) matches JsonView::Array(r) && r.len()
                == items.len() && forall|i: int|
                0 <= i < items.len() ==> #[trigger] r[i] == sorted(items[i]),
            JsonView::Object(_) => sorted(json) is Object && forall|key: Seq<char>| #[trigger]
                json_get(sorted(json), key) == (match json_get(json, key) {
                    Some(value) => Some(sorted(value)),
                    None => None,
                }),
            _ => sorted(json) == json,
        },
        keys_sorted(sorted(json)),
{
    lemma_sorting_sorts(json);
    match json {
        JsonView::Array(items) => {
            lemma_sorted_items(items);
        },
        JsonView::Object(fields) => {
            lemma_listing_of_list::<String, JsonView>(sorted_fields(fields));
            assert forall|key: Seq<char>| #[trigger] json_get(sorted(json), key) == (match json_get(
                json,
                key,
            ) {
                Some(value) => Some(sorted(value)),
                None => None,
            }) by {
                lemma_sorted_lookup(fields, key);
            }
        },
        _ => {},
    }
}

/// The items of a list are stripped one by one.
proof fn lemma_stripped_one_by_one(items: Seq<JsonView>)
    ensures
        stripped_items(items).len() == items.len(),
        forall|i: int|
            0 <= i < items.len() ==> #[trigger] stripped_items(items)[i] == stripped(items[i]),
    decreases items.len(),
{
    if items.len() > 0 {
        let rest = items.subrange(0, items.len() - 1);
        lemma_stripped_one_by_one(rest);
        assert forall|i: int| 0 <= i < items.len() implies #[trigger] stripped_items(items)[i]
            == stripped(items[i]) by {
            if i < rest.len() {
                assert(stripped_items(rest)[i] == stripped(rest[i]));
            }
        }
    }
}

/// Nothing is found under a volatile key once the fields are stripped.
proof fn lemma_stripped_keys(fields: Seq<(Seq<char>, JsonView)>, key: Seq<char>)
    requires
        is_volatile(key),
    ensures
        !to_map(stripped_fields(fields)).contains_key(key),
    decreases fields.len(),
{
    if fields.len() > 0 {
        let rest = fields.subrange(0, fields.len() - 1);
        let last = fields[fields.len() - 1];
        lemma_stripped_keys(rest, key);
        if !is_volatile(last.0) {
            let kept = stripped_fields(rest);
            assert(kept.push((last.0, stripped(last.1))).drop_last() =~= kept);
        }
    }
}

/// Stripping takes the time stamps and sequence numbers out at every depth, and nothing else:
/// any other field is found under its key as before, lists keep their items in their order, and
/// any other value stays as it is.
pub proof fn lemma_stripping_keeps_the_rest(json: JsonView)
    ensures
        match json {
            JsonView::Array(items) => stripped(json) matches JsonView::Array(r) && r.len()
                == items.len() && forall|i: int|
                0 <= i < items.len() ==> #[trigger] r[i] == stripped(items[i]),
            JsonView::Object(_) => stripped(json) is Object && forall|key: Seq<char>| #[trigger]
                json_get(stripped(json), key) == if key == "timestamp"@ || key == "sequenceId"@ {
                    None
                } else {
                    match json_get(json, key) {
                        Some(value) => Some(stripped(value)),
                        None => None,
                    }
                },
            _ => stripped(json) == json,
        },
        free_of_volatile_keys(stripped(json)),
{
    lemma_stripping_strips(json);
    match json {
        JsonView::Array(items) => {
            lemma_stripped_one_by_one(items);
        },
        JsonView::Object(fields) => {
            assert forall|key: Seq<char>| #[trigger] json_get(stripped(json), key) == if key
                == "timestamp"@ || key == "sequenceId"@ {
                None
            } else {
                match json_get(json, key) {
                    Some(value) => Some(stripped(value)),
                    None => None,
                }
            } by {
                if is_volatile(key) {
                    lemma_stripped_keys(fields, key);
                } else {
                    lemma_stripped_lookup(fields, key);
                }
            }
        },
        _ => {},
    }
}

/// A record is hashed by what its reaction or its query put out: the text of that value,
/// stripped and sorted, and the end of a line. Only a value with an empty list of results is
/// passed over. Nothing else of the log changes but the count.
pub proof fn lemma_records_are_hashed(log: LoggerView, record: HandlerRecord)
    requires
        log.mode == DeterminismHashMode::OrderedStream,
    ensures
        ({
            let output = match record.payload {
                HandlerPayload::ReactionInvocation { request_body, .. } => request_body@,
                HandlerPayload::ReactionOutput { reaction_output } => reaction_output@,
                HandlerPayload::ResultStream { stored_form, .. } => stored_form@,
            };
            let (next, r) = after_record(log, record);
            let heartbeat = json_get(output, "results"@) matches Some(JsonView::Array(items))
                && items.len() == 0;
            &&& r is Ok
            &&& heartbeat ==> next == log
            &&& !heartbeat ==> {
                &&& next.stream == log.stream + json_text(sorted(stripped(output))) + seq![10u8]
                &&& next.record_count == log.record_count + 1
                &&& next.final_state == log.final_state
                &&& next.mode == log.mode
            }
        }),
{
}

/// In the mode of final states a record is applied to the rows, and counted unless that fails;
/// nothing is hashed of the record itself.
pub proof fn lemma_records_are_applied(log: LoggerView, record: HandlerRecord)
    requires
        log.mode == DeterminismHashMode::FinalState,
    ensures
        ({
            let (next, r) = after_record(log, record);
            let (query_id, payload) = record_payload(record);
            &&& next.final_state == after_payload(log.final_state, query_id, payload).0
            &&& r == after_payload(log.final_state, query_id, payload).1
            &&& next.record_count == log.record_count + if r is Ok {
                1int
            } else {
                0
            }
            &&& next.stream == log.stream
            &&& next.mode == log.mode
        }),
{
}

/// The report of a stream tells its mode, the hash of everything that was hashed, and how many
/// records that was.
pub proof fn lemma_streams_are_reported(log: LoggerView)
    requires
        log.mode == DeterminismHashMode::OrderedStream,
    ensures
        ({
            let report = logger_summary(log);
            &&& json_get(report, "mode"@) == Some(JsonView::Text("ordered_stream"@))
            &&& json_get(report, "sha256"@) == Some(JsonView::Text(sha256_hex(log.stream)))
            &&& json_get(report, "record_count"@) == Some(JsonView::Integer(log.record_count as int))
        }),
{
    reveal_strlit("mode");
    reveal_strlit("sha256");
    reveal_strlit("record_count");
    let fields = ordered_summary(log.stream, log.record_count)->Object_0;
    assert(fields.len() == 3);
    lemma_fields_are_found(fields, "mode"@);
    lemma_fields_are_found(fields, "sha256"@);
    lemma_fields_are_found(fields, "record_count"@);
    assert(fields[0].0 == "mode"@);
    assert(fields[1].0 == "sha256"@);
    assert(fields[2].0 == "record_count"@);
}

/// The row of a report tells the query, the hash and the value.
pub proof fn lemma_rows_are_reported(row: FinalRowView)
    ensures
        json_get(row_json(row), "query_id"@) == Some(JsonView::Text(row.query_id)),
        json_get(row_json(row), "sha256"@) == Some(JsonView::Text(row.sha256)),
        json_get(row_json(row), "value"@) == Some(row.value),
{
    reveal_strlit("query_id");
    reveal_strlit("sha256");
    reveal_strlit("value");
    let fields = row_json(row)->Object_0;
    assert(fields.len() == 3);
    lemma_fields_are_found(fields, "query_id"@);
    lemma_fields_are_found(fields, "sha256"@);
    lemma_fields_are_found(fields, "value"@);
    assert(fields[0].0 == "query_id"@);
    assert(fields[1].0 == "sha256"@);
    assert(fields[2].0 == "value"@);
}

/// The report of a final state tells its hash, each of its counts under its own name, and its
/// rows one by one.
pub proof fn lemma_states_are_reported(summary: SummaryView)
    ensures
        ({
            let report = summary_json(summary);
            &&& json_get(report, "mode"@) == Some(JsonView::Text(summary.mode))
            &&& json_get(report, "sha256"@) == Some(JsonView::Text(summary.sha256))
            &&& json_get(report, "row_count"@) == Some(JsonView::Integer(summary.row_count as int))
            &&& json_get(report, "change_count"@) == Some(
                JsonView::Integer(summary.change_count as int),
            )
            &&& json_get(report, "duplicate_count"@) == Some(
                JsonView::Integer(summary.duplicate_count as int),
            )
            &&& json_get(report, "upsert_count"@) == Some(
                JsonView::Integer(summary.upsert_count as int),
            )
            &&& json_get(report, "missing_before_count"@) == Some(
                JsonView::Integer(summary.missing_before_count as int),
            )
            &&& json_get(report, "skipped_record_count"@) == Some(
                JsonView::Integer(summary.skipped_record_count as int),
            )
            &&& json_get(report, "normalization_error_count"@) == Some(
                JsonView::Integer(summary.normalization_error_count as int),
            )
            &&& json_get(report, "normalization_errors"@) == Some(
                texts_json(summary.normalization_errors),
            )
            &&& json_get(report, "key_fields"@) == Some(texts_json(summary.key_fields))
            &&& json_get(report, "query_ids"@) == Some(texts_json(summary.query_ids))
            &&& json_get(report, "rows"@) matches Some(JsonView::Array(rows)) && rows.len()
                == summary.rows.len() && forall|i: int|
                0 <= i < rows.len() ==> #[trigger] rows[i] == row_json(summary.rows[i])
        }),
{
    reveal_strlit("mode");
    reveal_strlit("sha256");
    reveal_strlit("row_count");
    reveal_strlit("change_count");
    reveal_strlit("duplicate_count");
    reveal_strlit("upsert_count");
    reveal_strlit("missing_before_count");
    reveal_strlit("skipped_record_count");
    reveal_strlit("normalization_error_count");
    reveal_strlit("normalization_errors");
    reveal_strlit("key_fields");
    reveal_strlit("query_ids");
    reveal_strlit("rows");
    let fields = summary_json(summary)->Object_0;
    assert(fields.len() == 13);
    assert(fields[0].0 == "mode"@ && fields[0].0[0] == 'm');
    assert(fields[1].0 == "sha256"@);
    assert(fields[2].0 == "row_count"@ && fields[2].0[0] == 'r');
    assert(fields[3].0 == "change_count"@ && fields[3].0[0] == 'c');
    assert(fields[4].0 == "duplicate_count"@);
    assert(fields[5].0 == "upsert_count"@ && fields[5].0[0] == 'u');
    assert(fields[6].0 == "missing_before_count"@ && fields[6].0[0] == 'm');
    assert(fields[7].0 == "skipped_record_count"@ && fields[7].0[0] == 's');
    assert(fields[8].0 == "normalization_error_count"@);
    assert(fields[9].0 == "normalization_errors"@ && fields[9].0[0] == 'n');
    assert(fields[10].0 == "key_fields"@);
    assert(fields[11].0 == "query_ids"@ && fields[11].0[0] == 'q');
    assert(fields[12].0 == "rows"@ && fields[12].0[0] == 'r');
    lemma_fields_are_found(fields, "mode"@);
    lemma_fields_are_found(fields, "sha256"@);
    lemma_fields_are_found(fields, "row_count"@);
    lemma_fields_are_found(fields, "change_count"@);
    lemma_fields_are_found(fields, "duplicate_count"@);
    lemma_fields_are_found(fields, "upsert_count"@);
    lemma_fields_are_found(fields, "missing_before_count"@);
    lemma_fields_are_found(fields, "skipped_record_count"@);
    lemma_fields_are_found(fields, "normalization_error_count"@);
    lemma_fields_are_found(fields, "normalization_errors"@);
    lemma_fields_are_found(fields, "key_fields"@);
    lemma_fields_are_found(fields, "query_ids"@);
    lemma_fields_are_found(fields, "rows"@);
}

/// A list of texts is reported text by text, in its order.
pub proof fn lemma_texts_are_reported(list: Seq<Seq<char>>)
    ensures
        texts_json(list) matches JsonView::Array(items) && items.len() == list.len() && forall|
            i: int,
        |
            0 <= i < items.len() ==> #[trigger] items[i] == JsonView::Text(list[i]),
{
}

/// A log of final states reports the summary of the rows that it keeps.
pub proof fn lemma_final_states_are_reported(log: LoggerView)
    requires
        log.mode == DeterminismHashMode::FinalState,
    ensures
        logger_summary(log) == summary_json(summary_of(log.final_state)),
        json_get(logger_summary(log), "mode"@) == Some(JsonView::Text("final_state"@)),
{
    lemma_states_are_reported(summary_of(log.final_state));
}

/// The value of a hexadecimal digit.
pub open spec fn hex_value(c: char) -> int {
    if '0' <= c <= '9' {
        c as int - '0' as int
    } else {
        c as int - 'a' as int + 10
    }
}

/// A hash is written in lower case, two digits for each byte, the higher one first.
pub proof fn lemma_bytes_are_written_in_hexadecimal(bytes: Seq<u8>, i: int)
    requires
        0 <= i < bytes.len(),
    ensures
        hex_text(bytes).len() == 2 * bytes.len(),
        hex_value(hex_text(bytes)[2 * i]) * 16 + hex_value(hex_text(bytes)[2 * i + 1]) == bytes[i],
{
    reveal_strlit("0123456789abcdef");
    let high = bytes[i] as int / 16;
    let low = bytes[i] as int % 16;
    assert((2 * i) / 2 == i && (2 * i + 1) / 2 == i);
    assert((2 * i) % 2 == 0 && (2 * i + 1) % 2 == 1);
    assert(hex_text(bytes)[2 * i] == hex_digit(high));
    assert(hex_text(bytes)[2 * i + 1] == hex_digit(low));
    lemma_hex_digit(high);
    lemma_hex_digit(low);
}

/// A digit has the value that it stands for.
proof fn lemma_hex_digit(n: int)
    requires
        0 <= n < 16,
    ensures
        hex_value(hex_digit(n)) == n,
{
    reveal_strlit("0123456789abcdef");
}

/// A record is logged exactly where the counters have room for it.
pub proof fn lemma_room_for_records(log: LoggerView, record: HandlerRecord)
    ensures
        log.mode == DeterminismHashMode::OrderedStream ==> record_fits(log, record) == (
        log.record_count < u64::MAX),
        log.mode == DeterminismHashMode::FinalState ==> record_fits(log, record) == (
        log.record_count < u64::MAX && has_room(log.final_state, record_payload(record).1)),
{
}

} // verus!
