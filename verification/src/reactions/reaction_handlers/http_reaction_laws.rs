//! What is recorded of the requests that a reaction sends.

use crate::json::{json_get, JsonView};
use crate::json_laws::lemma_fields_are_found;
use crate::ordered::{lemma_to_map, listable, listing, to_map};
use crate::reactions::reaction_handlers::handler_status::{
    after_request, HandlerRequest, ReactionHandlerStatus,
};
use crate::reactions::reaction_handlers::http_reaction_handler::{
    all_invocations, batch_invocation, batches_of, body_value, headers_json, invocation_name,
    invocations_of, is_batch, metadata_of, numbers_fit, results_of, sequence_of, single_invocation,
    InvocationView, RequestView,
};
use crate::text::{contains_text, decimal, lemma_decimal, parse_unsigned};
use vstd::prelude::*;

verus! {

/// What tells a recorded result of a list: its query, what became of the row, the result
/// itself, and which list and which place in it it comes from.
pub open spec fn tells_result(
    invocation: InvocationView,
    query_id: Seq<char>,
    result: JsonView,
    batch_index: int,
    result_index: int,
) -> bool {
    let before = json_get(result, "before"@) is Some;
    let after = json_get(result, "after"@) is Some;
    &&& json_get(invocation.value, "query_id"@) == Some(JsonView::Text(query_id))
    &&& json_get(invocation.value, "request_body"@) == Some(result)
    &&& json_get(invocation.value, "batch_index"@) == Some(JsonView::Integer(batch_index))
    &&& json_get(invocation.value, "result_index"@) == Some(JsonView::Integer(result_index))
    &&& json_get(invocation.value, "reaction_type"@) matches Some(JsonView::Text(kind)) && {
        &&& kind == "updated"@ <==> before && after
        &&& kind == "added"@ <==> !before && after
        &&& kind == "deleted"@ <==> before && !after
        &&& kind == "unknown"@ <==> !before && !after
    }
    &&& json_get(invocation.metadata, "is_batch"@) == Some(JsonView::Bool(true))
}

/// The kinds of result have different names, and the keys of what is recorded too.
proof fn lemma_names_differ()
    ensures
        "updated"@.len() == 7 && "updated"@[0] == 'u',
        "added"@.len() == 5,
        "deleted"@.len() == 7 && "deleted"@[0] == 'd',
        "unknown"@.len() == 7 && "unknown"@[0] == 'u' && "unknown"@[1] == 'n',
        "updated"@[1] == 'p',
        "query_id"@.len() == 8,
        "reaction_type"@.len() == 13,
        "request_body"@.len() == 12 && "request_body"@[2] == 'q',
        "batch_index"@.len() == 11 && "batch_index"@[0] == 'b',
        "result_index"@.len() == 12 && "result_index"@[2] == 's',
        "request_method"@.len() == 14,
        "request_path"@.len() == 12,
        "headers"@.len() == 7,
        "traceparent"@.len() == 11,
        "tracestate"@.len() == 10,
        "is_batch"@.len() == 8,
{
    reveal_strlit("updated");
    reveal_strlit("added");
    reveal_strlit("deleted");
    reveal_strlit("unknown");
    reveal_strlit("query_id");
    reveal_strlit("reaction_type");
    reveal_strlit("request_body");
    reveal_strlit("batch_index");
    reveal_strlit("result_index");
    reveal_strlit("request_method");
    reveal_strlit("request_path");
    reveal_strlit("headers");
    reveal_strlit("traceparent");
    reveal_strlit("tracestate");
    reveal_strlit("is_batch");
}

/// What is recorded beside a request: its method, its path, its headers, the headers that
/// trace it, and whether it came with a list of results.
pub proof fn lemma_requests_are_described(request: RequestView, batch: bool)
    ensures
        ({
            let metadata = metadata_of(request, batch);
            let trace = |name: Seq<char>|
                if request.headers.contains_key(name) {
                    JsonView::Text(request.headers[name])
                } else {
                    JsonView::Null
                };
            &&& json_get(metadata, "request_method"@) == Some(JsonView::Text(request.method))
            &&& json_get(metadata, "request_path"@) == Some(JsonView::Text(request.path))
            &&& json_get(metadata, "headers"@) == Some(headers_json(request.headers))
            &&& json_get(metadata, "traceparent"@) == Some(trace("traceparent"@))
            &&& json_get(metadata, "tracestate"@) == Some(trace("tracestate"@))
            &&& json_get(metadata, "is_batch"@) == Some(JsonView::Bool(batch))
        }),
{
    lemma_names_differ();
    let fields = metadata_of(request, batch)->Object_0;
    assert(fields.len() == 6);
    lemma_fields_are_found(fields, "request_method"@);
    lemma_fields_are_found(fields, "request_path"@);
    lemma_fields_are_found(fields, "headers"@);
    lemma_fields_are_found(fields, "traceparent"@);
    lemma_fields_are_found(fields, "tracestate"@);
    lemma_fields_are_found(fields, "is_batch"@);
    assert(fields[0].0 == "request_method"@);
    assert(fields[1].0 == "request_path"@);
    assert(fields[2].0 == "headers"@);
    assert(fields[3].0 == "traceparent"@);
    assert(fields[4].0 == "tracestate"@);
    assert(fields[5].0 == "is_batch"@);
}

/// Of the headers of a request, each is recorded with its text under its name.
pub proof fn lemma_headers_are_recorded(headers: Map<Seq<char>, Seq<char>>, name: Seq<char>)
    requires
        listable::<String, Seq<char>>(headers),
    ensures
        json_get(headers_json(headers), name) == if headers.contains_key(name) {
            Some(JsonView::Text(headers[name]))
        } else {
            None
        },
{
    let list = listing::<String, Seq<char>>(headers);
    let fields = headers_json(headers)->Object_0;
    lemma_to_map(list);
    lemma_fields_are_found(fields, name);
    if headers.contains_key(name) {
        let i = choose|i: int|
            0 <= i < list.len() && (#[trigger] list[i]).0 == name && to_map(list)[name]
                == list[i].1 && (forall|j: int|
                i < j < list.len() ==> (#[trigger] list[j]).0 != name);
        assert(fields[i].0 == name);
        assert forall|j: int| i < j < fields.len() implies (#[trigger] fields[j]).0 != name by {
            assert(list[j].0 != name);
        }
    } else {
        assert forall|j: int| 0 <= j < fields.len() implies (#[trigger] fields[j]).0 != name by {
            assert(list[j].0 != name);
        }
    }
}

/// A result is recorded with its query, what became of the row, itself, and its place.
pub proof fn lemma_results_are_recorded(
    request: RequestView,
    query_id: Seq<char>,
    now_ns: u64,
    result: JsonView,
    batch_index: int,
    result_index: int,
)
    ensures
        ({
            let invocation = batch_invocation(
                request,
                query_id,
                now_ns,
                result,
                batch_index,
                result_index,
            );
            &&& tells_result(invocation, query_id, result, batch_index, result_index)
            &&& (invocation.timestamp_ns - now_ns) % 0x1_0000_0000_0000_0000 == 0
            &&& json_get(invocation.metadata, "request_path"@) == Some(JsonView::Text(request.path))
        }),
{
    lemma_names_differ();
    let invocation = batch_invocation(request, query_id, now_ns, result, batch_index, result_index);
    let fields = invocation.value->Object_0;
    assert(fields.len() == 5);
    lemma_requests_are_described(request, true);
    lemma_fields_are_found(fields, "query_id"@);
    lemma_fields_are_found(fields, "reaction_type"@);
    lemma_fields_are_found(fields, "request_body"@);
    lemma_fields_are_found(fields, "batch_index"@);
    lemma_fields_are_found(fields, "result_index"@);
    assert(fields[0].0 == "query_id"@);
    assert(fields[1].0 == "reaction_type"@);
    assert(fields[2].0 == "request_body"@);
    assert(fields[3].0 == "batch_index"@);
    assert(fields[4].0 == "result_index"@);
    assert("updated"@[1] != "unknown"@[1]);
    assert("updated"@[0] != "deleted"@[0]);
    assert("unknown"@[0] != "deleted"@[0]);
}

/// The results of a list of batches are recorded in their order: those of a batch stand behind
/// those of the batches before it, each with its own place, under the query that the batch
/// names or else the handler's. Nothing else is recorded.
pub proof fn lemma_results_keep_their_order(
    request: RequestView,
    query_id: Seq<char>,
    now_ns: u64,
    batches: Seq<JsonView>,
    b: int,
    r: int,
)
    requires
        0 <= b < batches.len(),
        0 <= r < results_of(batches[b]).len(),
    ensures
        ({
            let all = all_invocations(request, query_id, now_ns, batches);
            let earlier = all_invocations(request, query_id, now_ns, batches.take(b));
            let own = match json_get(batches[b], "query_id"@) {
                Some(JsonView::Text(id)) => id,
                _ => query_id,
            };
            &&& earlier.len() + r < all.len()
            &&& all.take(earlier.len() as int) == earlier
            &&& tells_result(all[earlier.len() + r], own, results_of(batches[b])[r], b, r)
            &&& all[earlier.len() + r].invocation_id == own + "-"@ + decimal((b * 1000 + r) as nat)
        }),
    decreases batches.len(),
{
    let all = all_invocations(request, query_id, now_ns, batches);
    let earlier = all_invocations(request, query_id, now_ns, batches.take(b));
    let front = batches.drop_last();
    if b < front.len() {
        lemma_results_keep_their_order(request, query_id, now_ns, front, b, r);
        assert(front.take(b) =~= batches.take(b));
        assert(front[b] == batches[b]);
        let shorter = all_invocations(request, query_id, now_ns, front);
        assert(all.take(earlier.len() as int) =~= shorter.take(earlier.len() as int));
        assert(all[earlier.len() + r] == shorter[earlier.len() + r]);
    } else {
        assert(front =~= batches.take(b));
        let own = match json_get(batches[b], "query_id"@) {
            Some(JsonView::Text(id)) => id,
            _ => query_id,
        };
        assert(batches.last() == batches[b]);
        assert(all.take(earlier.len() as int) =~= earlier);
        lemma_results_are_recorded(request, own, now_ns, results_of(batches[b])[r], b, r);
    }
}

/// So many are recorded as there are results in all the batches.
pub proof fn lemma_every_result_is_recorded_once(
    request: RequestView,
    query_id: Seq<char>,
    now_ns: u64,
    batches: Seq<JsonView>,
    batch: JsonView,
)
    ensures
        all_invocations(request, query_id, now_ns, batches.push(batch)).len() == all_invocations(
            request,
            query_id,
            now_ns,
            batches,
        ).len() + results_of(batch).len(),
        all_invocations(request, query_id, now_ns, Seq::empty()).len() == 0,
{
    assert(batches.push(batch).drop_last() =~= batches);
}

/// What is taken for a list of results: a request to a path for lists, a body that is a list,
/// or one that has results. A body that is a list is a list of batches; one with results is a
/// batch by itself; the results of a batch are those that it lists.
pub proof fn lemma_lists_are_recognized(path: Seq<char>, body: JsonView)
    ensures
        body is Array ==> is_batch(path, body),
        json_get(body, "results"@) is Some ==> is_batch(path, body),
        contains_text(path, "/batch"@) ==> is_batch(path, body),
        is_batch(path, body) ==> body is Array || json_get(body, "results"@) is Some
            || contains_text(path, "/batch"@),
        body matches JsonView::Array(items) ==> batches_of(body) == items,
        json_get(body, "results"@) matches Some(JsonView::Array(items)) ==> {
            &&& batches_of(body).len() == 1
            &&& batches_of(body)[0] == body
            &&& results_of(body) == items
        },
        !(body is Array) && !(json_get(body, "results"@) matches Some(JsonView::Array(_)))
            ==> batches_of(body).len() == 0 && results_of(body).len() == 0,
{
}

/// A request that is no list is recorded once: with the handler's query, the body, the kind
/// that its path or else its body names, and the number that it is told by.
pub proof fn lemma_single_requests_are_recorded(
    request: RequestView,
    query_id: Seq<char>,
    correlation_header: Option<Seq<char>>,
    now_ns: u64,
    body: JsonView,
)
    requires
        !is_batch(request.path, body),
    ensures
        ({
            let all = invocations_of(request, query_id, correlation_header, now_ns, body);
            &&& all.len() == 1
            &&& json_get(all[0].value, "query_id"@) == Some(JsonView::Text(query_id))
            &&& json_get(all[0].value, "request_body"@) == Some(body)
            &&& json_get(all[0].value, "reaction_type"@) matches Some(JsonView::Text(kind)) && {
                let added = contains_text(request.path, "/added"@);
                let updated = contains_text(request.path, "/updated"@);
                let deleted = contains_text(request.path, "/deleted"@);
                &&& added ==> kind == "added"@
                &&& !added && updated ==> kind == "updated"@
                &&& !added && !updated && deleted ==> kind == "deleted"@
                &&& !added && !updated && !deleted ==> match json_get(body, "type"@) {
                    Some(JsonView::Text(own)) => kind == own,
                    _ => kind == "unknown"@,
                }
            }
            &&& all[0].invocation_id == query_id + "-"@ + decimal(
                sequence_of(request, body, correlation_header),
            )
            &&& (all[0].timestamp_ns - now_ns) % 0x1_0000_0000_0000_0000 == 0
            &&& json_get(all[0].metadata, "is_batch"@) == Some(JsonView::Bool(false))
        }),
{
    lemma_names_differ();
    let invocation = single_invocation(request, query_id, correlation_header, now_ns, body);
    let fields = invocation.value->Object_0;
    assert(fields.len() == 3);
    lemma_requests_are_described(request, false);
    lemma_fields_are_found(fields, "query_id"@);
    lemma_fields_are_found(fields, "reaction_type"@);
    lemma_fields_are_found(fields, "request_body"@);
    assert(fields[0].0 == "query_id"@);
    assert(fields[1].0 == "reaction_type"@);
    assert(fields[2].0 == "request_body"@);
}

/// The number that tells a request is the one in the configured header, and without such a
/// header that in the body; zero where there is none.
pub proof fn lemma_numbers_tell_requests(
    request: RequestView,
    body: JsonView,
    header: Option<Seq<char>>,
    n: u64,
)
    ensures
        header matches Some(name) && request.headers.contains_key(name) && parse_unsigned(
            request.headers[name],
            u64::MAX as nat,
        ) == Some(n as nat) ==> sequence_of(request, body, header) == n,
        header matches Some(name) && (!request.headers.contains_key(name) || parse_unsigned(
            request.headers[name],
            u64::MAX as nat,
        ) is None) ==> sequence_of(request, body, header) == 0,
        header is None && json_get(body, "sequence"@) == Some(JsonView::Integer(n as int))
            ==> sequence_of(request, body, header) == n,
        header is None && !(json_get(body, "sequence"@) matches Some(JsonView::Integer(m)) && 0 <= m
            <= u64::MAX) ==> sequence_of(request, body, header) == 0,
{
}

/// Requests of one query that are told by different numbers have different names.
pub proof fn lemma_invocations_are_told_apart(query_id: Seq<char>, n: nat, m: nat)
    requires
        invocation_name(query_id, n) == invocation_name(query_id, m),
    ensures
        n == m,
{
    let start = query_id + "-"@;
    lemma_decimal(n);
    lemma_decimal(m);
    assert(invocation_name(query_id, n).skip(start.len() as int) =~= decimal(n));
    assert(invocation_name(query_id, m).skip(start.len() as int) =~= decimal(m));
}

/// A body that is JSON is recorded as it is; any other is kept whole as a text.
pub proof fn lemma_bodies_are_kept(parsed: Option<JsonView>, body: Seq<char>)
    ensures
        parsed matches Some(json) ==> body_value(parsed, body) == json,
        parsed is None ==> json_get(body_value(parsed, body), "raw"@) == Some(JsonView::Text(body)),
{
    if parsed is None {
        let fields = body_value(parsed, body)->Object_0;
        lemma_fields_are_found(fields, "raw"@);
        assert(fields[0].0 == "raw"@);
    }
}

/// A request that a handler takes leads to the status that it asks for: initialized handlers
/// are paused, started ones run, paused ones pause, stopped ones are stopped. Only a new handler
/// can be initialized, only one that is neither new nor stopped started or paused; any but a new
/// one can be stopped. One in error takes none.
pub proof fn lemma_requests_lead_where_they_say(
    status: ReactionHandlerStatus,
    request: HandlerRequest,
)
    ensures
        ({
            let fresh = status == ReactionHandlerStatus::Uninitialized;
            let live = status == ReactionHandlerStatus::Running || status
                == ReactionHandlerStatus::Paused;
            let stopped = status == ReactionHandlerStatus::Stopped;
            let taken = match request {
                HandlerRequest::Init => fresh,
                HandlerRequest::Start => live,
                HandlerRequest::Pause => live,
                HandlerRequest::Stop => live || stopped,
            };
            &&& after_request(status, request) is Ok <==> taken
            &&& after_request(status, request) matches Ok(next) ==> match request {
                HandlerRequest::Init => next == ReactionHandlerStatus::Paused,
                HandlerRequest::Start => next == ReactionHandlerStatus::Running,
                HandlerRequest::Pause => next == ReactionHandlerStatus::Paused,
                HandlerRequest::Stop => next == ReactionHandlerStatus::Stopped,
            }
        }),
{
}

/// The places of a list of batches can be numbered where a thousand times the place of each
/// batch, and its results, fit.
pub proof fn lemma_short_lists_can_be_numbered(batches: Seq<JsonView>)
    requires
        batches.len() <= 0x1_0000_0000,
        forall|i: int|
            0 <= i < batches.len() ==> results_of(#[trigger] batches[i]).len() <= 0x1_0000_0000,
    ensures
        numbers_fit(batches),
{
}

} // verus!
