//! What the operations on the output of reactions hand back, in terms of what they are handed.

use crate::common::{HandlerPayload, HandlerRecord};
use crate::json::{json_get, json_text, Json, JsonView};
use crate::reactions::output_loggers::canonical_json::{
    sort_json_keys, sorted, strip_volatile_keys, stripped,
};
use crate::reactions::output_loggers::canonical_laws::{
    lemma_sorting_keeps_the_content, lemma_stripping_keeps_the_rest,
};
use crate::reactions::output_loggers::determinism_hash_logger::{
    DeterminismHashMode, DeterminismHashOutputLogger,
};
use crate::reactions::output_loggers::final_state::{
    canonical_value, change_views, changes_of, normalize_change, normalize_changes,
    payload_query_id, row_of, FinalStateMaterializer, FinalStateSummary, RowChange, RowChangeView,
};
use crate::reactions::output_loggers::performance_metrics_logger::{
    PerformanceMetrics, PerformanceMetricsOutputLogger,
};
use crate::reactions::output_loggers::row_change_laws::{
    has_row, lemma_added_rows_are_there, lemma_changes_apply_in_order, lemma_deleted_rows_are_gone,
    lemma_named_operations, lemma_payloads_are_applied,
};
use crate::reactions::reaction_handlers::handler_status::{HandlerRequest, ReactionHandlerStatus};
use crate::reactions::reaction_handlers::http_reaction_handler::{
    handle_reaction, invocation_views, is_batch, HttpReactionHandlerSettings, ReactionInvocation,
    ReactionRequest,
};
use crate::reactions::reaction_handlers::http_reaction_laws::{
    lemma_lists_are_recognized, lemma_results_keep_their_order, lemma_single_requests_are_recorded,
    tells_result,
};
use crate::text::{ascii_lower, option_text, texts};
use vstd::prelude::*;

verus! {

/// Handling a request that lists results records each of them, with its place in the list.
pub proof fn lemma_listed_results_are_recorded(
    settings: &HttpReactionHandlerSettings,
    request: &ReactionRequest,
    body: &Json,
    now_ns: u64,
    r: Vec<ReactionInvocation>,
    results: Seq<JsonView>,
    i: int,
)
    requires
        call_ensures(handle_reaction, (settings, request, body, now_ns), r),
        json_get(body@, "results"@) == Some(JsonView::Array(results)),
        0 <= i < results.len(),
    ensures
        r@.len() == results.len(),
        tells_result(
            r@[i]@,
            match json_get(body@, "query_id"@) {
                Some(JsonView::Text(id)) => id,
                _ => settings.test_run_query_id.test_query_id@,
            },
            results[i],
            0,
            i,
        ),
{
    let query = settings.test_run_query_id.test_query_id@;
    lemma_lists_are_recognized(request@.path, body@);
    let batches = crate::reactions::reaction_handlers::http_reaction_handler::batches_of(body@);
    lemma_results_keep_their_order(request@, query, now_ns, batches, 0, i);
    assert(batches.take(0) =~= Seq::empty());
    crate::reactions::reaction_handlers::http_reaction_laws::lemma_every_result_is_recorded_once(
        request@,
        query,
        now_ns,
        Seq::empty(),
        body@,
    );
    assert(batches =~= Seq::empty().push(body@));
    assert(invocation_views(r@).len() == r@.len());
    assert(invocation_views(r@)[i] == r@[i]@);
}

/// Handling a request that is no list records it once, with the handler's query and its body.
pub proof fn lemma_plain_requests_are_recorded(
    settings: &HttpReactionHandlerSettings,
    request: &ReactionRequest,
    body: &Json,
    now_ns: u64,
    r: Vec<ReactionInvocation>,
)
    requires
        call_ensures(handle_reaction, (settings, request, body, now_ns), r),
        !is_batch(request@.path, body@),
    ensures
        r@.len() == 1,
        json_get(r@[0].value@, "request_body"@) == Some(body@),
        json_get(r@[0].value@, "query_id"@) == Some(
            JsonView::Text(settings.test_run_query_id.test_query_id@),
        ),
{
    lemma_single_requests_are_recorded(
        request@,
        settings.test_run_query_id.test_query_id@,
        option_text(settings.correlation_header),
        now_ns,
        body@,
    );
    assert(invocation_views(r@).len() == r@.len());
    assert(invocation_views(r@)[0] == r@[0]@);
}

/// A change that names an addition, an update or a deletion is read as such, with its own rows.
pub proof fn lemma_changes_are_read_by_name(
    value: &Json,
    r: Result<RowChange, String>,
    name: Seq<char>,
    before: JsonView,
    after: JsonView,
)
    requires
        call_ensures(normalize_change, (value,), r),
        json_get(value@, "type"@) == Some(JsonView::Text(name)),
    ensures
        (ascii_lower(name) == "add"@ || ascii_lower(name) == "insert"@) && has_row(
            value@,
            "after"@,
            after,
        ) ==> (r matches Ok(change) && change@ == RowChangeView::Add(after)),
        ascii_lower(name) == "delete"@ && has_row(value@, "before"@, before) ==> (r matches Ok(
            change,
        ) && change@ == RowChangeView::Delete(before)),
        ascii_lower(name) == "update"@ && has_row(value@, "before"@, before) && has_row(
            value@,
            "after"@,
            after,
        ) ==> (r matches Ok(change) && change@ == (RowChangeView::Update { before, after })),
{
    lemma_named_operations(value@, name, before, after);
}

/// The changes of a payload are handed out in their order.
pub proof fn lemma_changes_of_payloads(payload: &Json, r: Result<Vec<RowChange>, String>)
    requires
        call_ensures(normalize_changes, (payload,), r),
    ensures
        r is Ok <==> changes_of(payload@) is Ok,
        r matches Ok(changes) ==> changes@.len() == changes_of(payload@)->Ok_0.len() && forall|i: int|
            0 <= i < changes@.len() ==> (#[trigger] changes@[i])@ == changes_of(payload@)->Ok_0[i],
{
    if r is Ok {
        let changes = r->Ok_0@;
        assert(change_views(changes).len() == changes.len());
        assert forall|i: int| 0 <= i < changes.len() implies (#[trigger] changes[i])@ == changes_of(
            payload@,
        )->Ok_0[i] by {
            assert(change_views(changes)[i] == changes[i]@);
        }
    }
}

/// After a payload that adds a row the row is there; after one that deletes it, it is not.
pub proof fn lemma_payloads_change_their_rows(
    state: &mut FinalStateMaterializer,
    query: &str,
    payload: &Json,
    r: Result<(), String>,
    change: RowChangeView,
)
    requires
        call_ensures(FinalStateMaterializer::apply_payload, (state, query, payload), r),
        changes_of(payload@) == Ok::<Seq<RowChangeView>, Seq<char>>(seq![change]),
    ensures
        ({
            let id = payload_query_id(payload@, query@);
            let keys = old(state)@.key_fields;
            &&& change matches RowChangeView::Add(row) ==> row_of(row, keys) is Ok ==> {
                let key = (id, row_of(row, keys)->Ok_0.identity);
                &&& r is Ok
                &&& final(state)@.rows.contains_key(key)
                &&& final(state)@.rows[key].value == canonical_value(row)
            }
            &&& change matches RowChangeView::Delete(row) ==> row_of(row, keys) is Ok ==> {
                let key = (id, row_of(row, keys)->Ok_0.identity);
                r is Ok && !final(state)@.rows.contains_key(key)
            }
            &&& final(state)@.query_ids == old(state)@.query_ids.insert(id, ())
        }),
{
    let id = payload_query_id(payload@, query@);
    lemma_payloads_are_applied(old(state)@, query@, payload@);
    lemma_changes_apply_in_order(old(state)@, id, Seq::empty(), Seq::empty(), change);
    match change {
        RowChangeView::Add(row) => {
            if row_of(row, old(state)@.key_fields) is Ok {
                lemma_added_rows_are_there(old(state)@, id, row);
            }
        },
        RowChangeView::Delete(row) => {
            if row_of(row, old(state)@.key_fields) is Ok {
                lemma_deleted_rows_are_gone(old(state)@, id, row);
            }
        },
        _ => {},
    }
}

/// Logging a record in the mode of streams hashes the line of what its reaction put out, unless
/// that is a value with an empty list of results.
pub proof fn lemma_logged_records_are_hashed(
    log: &mut DeterminismHashOutputLogger,
    record: &HandlerRecord,
    r: Result<(), String>,
)
    requires
        call_ensures(DeterminismHashOutputLogger::log_handler_record, (log, record), r),
        old(log)@.mode == DeterminismHashMode::OrderedStream,
    ensures
        r is Ok,
        ({
            let output = match record.payload {
                HandlerPayload::ReactionInvocation { request_body, .. } => request_body@,
                HandlerPayload::ReactionOutput { reaction_output } => reaction_output@,
                HandlerPayload::ResultStream { stored_form, .. } => stored_form@,
            };
            let heartbeat = json_get(output, "results"@) matches Some(JsonView::Array(items))
                && items.len() == 0;
            &&& heartbeat ==> final(log)@ == old(log)@
            &&& !heartbeat ==> final(log)@.stream == old(log)@.stream + json_text(
                sorted(stripped(output)),
            ) + seq![10u8] && final(log)@.record_count == old(log)@.record_count + 1
        }),
{
}

/// Sorting the keys of a value, and taking the volatile ones out of it, keeps everything else.
pub proof fn lemma_canonical_steps_keep_the_rest(value: Json, r: Json, s: Json, key: Seq<char>)
    requires
        call_ensures(sort_json_keys, (value,), r),
        call_ensures(strip_volatile_keys, (value,), s),
        value@ is Object,
    ensures
        json_get(r@, key) is Some <==> json_get(value@, key) is Some,
        key == "timestamp"@ || key == "sequenceId"@ ==> json_get(s@, key) is None,
        key != "timestamp"@ && key != "sequenceId"@ ==> (json_get(s@, key) is Some <==> json_get(
            value@,
            key,
        ) is Some),
{
    lemma_sorting_keeps_the_content(value@);
    lemma_stripping_keeps_the_rest(value@);
}

/// A summary counts the rows that it lists, and tells the counts of the state.
pub proof fn lemma_summaries_tell_the_state(state: &FinalStateMaterializer, r: FinalStateSummary)
    requires
        call_ensures(FinalStateMaterializer::summary, (state,), r),
    ensures
        r.row_count == r.rows@.len(),
        r.change_count == state@.change_count,
        r.duplicate_count == state@.duplicate_count,
        r.upsert_count == state@.upsert_count,
        r.missing_before_count == state@.missing_before_count,
        r.skipped_record_count == state@.skipped_record_count,
        r.normalization_error_count == state@.normalization_error_count,
        texts(r.normalization_errors@) == state@.normalization_errors,
        texts(r.key_fields@) == state@.key_fields,
{
    assert(r@.rows.len() == r.rows@.len());
}

/// The metrics of a run tell its whole time and all its records.
pub proof fn lemma_metrics_tell_the_run(
    log: &mut PerformanceMetricsOutputLogger,
    now_ns: u64,
    r: PerformanceMetrics,
)
    requires
        call_ensures(PerformanceMetricsOutputLogger::end_test_run, (log, now_ns), r),
        old(log).start_time_ns matches Some(start) && start <= now_ns,
    ensures
        r.start_time_ns == old(log).start_time_ns->0,
        r.end_time_ns == now_ns,
        r.start_time_ns + r.duration_ns == r.end_time_ns,
        r.record_count == old(log).record_count,
        r.bootstrap matches Some(b) ==> b.start_time_ns == r.start_time_ns,
        r.steady_state matches Some(s) ==> s.end_time_ns == now_ns,
{
}

/// A request that a handler takes leads to the status that it asks for, and one that it refuses
/// changes nothing.
pub proof fn lemma_handlers_obey(
    status: &mut ReactionHandlerStatus,
    request: HandlerRequest,
    r: Result<bool, String>,
)
    requires
        call_ensures(ReactionHandlerStatus::request, (status, request), r),
    ensures
        r is Err ==> *final(status) == *old(status),
        r matches Ok(changed) ==> changed == (*final(status) != *old(status)),
        r is Ok ==> *final(status) == (match request {
            HandlerRequest::Init => ReactionHandlerStatus::Paused,
            HandlerRequest::Start => ReactionHandlerStatus::Running,
            HandlerRequest::Pause => ReactionHandlerStatus::Paused,
            HandlerRequest::Stop => ReactionHandlerStatus::Stopped,
        }),
{
}

} // verus!
