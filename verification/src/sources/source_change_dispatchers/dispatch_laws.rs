//! What is sent of a list of events, to whom, and in which order.

use crate::grpc_converters::{source_change_of, SourceChangeModel};
use crate::json::{json_get, JsonView};
use crate::scripts::ChangeEventView;
use crate::sources::source_change_dispatchers::{grpc_dispatcher, http_dispatcher};
use crate::sources::source_change_dispatchers::adaptive_http_dispatcher::{
    batch_config, batch_plan, metrics_fit, named_endpoint, named_source, AdaptiveBatchConfig,
    BatcherMetrics,
};
use crate::sources::source_change_dispatchers::direct_format::{
    direct_change, direct_changes, labels_or_none, HttpChangeView,
};
use crate::sources::source_change_dispatchers::grpc_dispatcher::{
    acknowledgment_error, endpoint_address, grpc_plan, BatchAcknowledgments, GrpcPlanView,
};
use crate::sources::source_change_dispatchers::http_dispatcher::{
    default_endpoint, http_plan, url_of, HttpPlanView,
};
use crate::test_repo_storage::models::HttpSourceChangeDispatcherDefinition;
use crate::text::{is_numeral, lemma_decimal, numeral_value};
use vstd::prelude::*;

verus! {

/// The changes sent keep the order of the events: those of two lists put together are those of
/// the first, followed by those of the second. An event by itself gives its own change, or
/// none.
pub proof fn lemma_changes_keep_the_order(
    a: Seq<ChangeEventView>,
    b: Seq<ChangeEventView>,
    event: ChangeEventView,
)
    ensures
        direct_changes(a + b) == direct_changes(a) + direct_changes(b),
        direct_changes(seq![event]) == (match direct_change(event) {
            Some(change) => seq![change],
            None => Seq::empty(),
        }),
    decreases b.len(),
{
    reveal_with_fuel(direct_changes, 2);
    assert(seq![event].drop_last() =~= Seq::<ChangeEventView>::empty());
    if let Some(change) = direct_change(event) {
        assert(direct_changes(seq![event]) =~= seq![change]);
    }
    if b.len() == 0 {
        assert(a + b =~= a);
        assert(direct_changes(a) + direct_changes(b) =~= direct_changes(a));
    } else {
        lemma_changes_keep_the_order(a, b.drop_last(), event);
        assert((a + b).drop_last() =~= a + b.drop_last());
        assert((a + b).last() == b.last());
        assert(direct_changes(a + b) =~= direct_changes(a) + direct_changes(b));
    }
}

/// The change made from an event stands behind those of the events before it.
proof fn lemma_place(events: Seq<ChangeEventView>, i: int)
    requires
        0 <= i < events.len(),
    ensures
        direct_changes(events.take(i)).len() <= direct_changes(events).len(),
        direct_change(events[i]) matches Some(change) ==> {
            &&& direct_changes(events.take(i + 1)).len() == direct_changes(events.take(i)).len() + 1
            &&& direct_changes(events.take(i)).len() < direct_changes(events).len()
            &&& direct_changes(events)[direct_changes(events.take(i)).len() as int] == change
        },
{
    let event = events[i];
    lemma_changes_keep_the_order(events.take(i), seq![event], event);
    lemma_changes_keep_the_order(events.take(i + 1), events.skip(i + 1), event);
    assert(events.take(i) + seq![event] =~= events.take(i + 1));
    assert(events.take(i + 1) + events.skip(i + 1) =~= events);
}

/// Of two events, the change made from the earlier one stands before the change made from the
/// later one.
pub proof fn lemma_earlier_events_are_sent_first(events: Seq<ChangeEventView>, i: int, j: int)
    requires
        0 <= i < j < events.len(),
        direct_change(events[i]) is Some,
        direct_change(events[j]) is Some,
    ensures
        exists|p: int, q: int|
            0 <= p < q < direct_changes(events).len() && Some(#[trigger] direct_changes(events)[p])
                == direct_change(events[i]) && Some(#[trigger] direct_changes(events)[q])
                == direct_change(events[j]),
{
    let p = direct_changes(events.take(i)).len() as int;
    let q = direct_changes(events.take(j)).len() as int;
    lemma_place(events, i);
    lemma_place(events, j);
    let front = events.take(j);
    lemma_place(front, i);
    assert(front.take(i) =~= events.take(i));
    assert(Some(direct_changes(events)[p]) == direct_change(events[i]));
    assert(Some(direct_changes(events)[q]) == direct_change(events[j]));
}

/// Every change that is sent was made from one of the events, and there are no more of them
/// than events.
pub proof fn lemma_nothing_else_is_sent(events: Seq<ChangeEventView>)
    ensures
        direct_changes(events).len() <= events.len(),
        forall|p: int|
            0 <= p < direct_changes(events).len() ==> exists|i: int|
                0 <= i < events.len() && direct_change(#[trigger] events[i]) == Some(
                    #[trigger] direct_changes(events)[p],
                ),
    decreases events.len(),
{
    if events.len() > 0 {
        let front = events.drop_last();
        lemma_nothing_else_is_sent(front);
        assert forall|p: int| 0 <= p < direct_changes(events).len() implies exists|i: int|
            0 <= i < events.len() && direct_change(#[trigger] events[i]) == Some(
                #[trigger] direct_changes(events)[p],
            ) by {
            if p < direct_changes(front).len() {
                let i = choose|i: int|
                    0 <= i < front.len() && direct_change(#[trigger] front[i]) == Some(
                        direct_changes(front)[p],
                    );
                assert(events[i] == front[i]);
            } else {
                assert(events[events.len() - 1] == events.last());
            }
        }
    }
}

/// The change sent for an insert or an update is the element as it is after the event: with
/// its identifier, its labels, its properties and its ends. It says when the event was made.
pub proof fn lemma_direct_changes_carry_the_after_state(event: ChangeEventView)
    requires
        event.op == "i"@ || event.op == "u"@,
    ensures
        match json_get(event.after, "id"@) {
            Some(JsonView::Text(id)) => direct_change(event) matches Some(change) && {
                &&& change.operation == if event.op == "i"@ {
                    "insert"@
                } else {
                    "update"@
                }
                &&& change.id is None
                &&& change.labels is None
                &&& change.timestamp matches Some(t) && (t - event.reactivator_start_ns)
                    % 0x1_0000_0000_0000_0000 == 0
                &&& change.element matches Some(element) && {
                    &&& element.id == id
                    &&& element.labels == labels_or_none(event.after)
                    &&& match json_get(event.after, "properties"@) {
                        Some(JsonView::Object(fields)) => element.properties == fields,
                        _ => element.properties.len() == 0,
                    }
                    &&& match json_get(event.after, "start_id"@) {
                        Some(JsonView::Text(start)) => element.from == Some(start),
                        _ => element.from is None,
                    }
                    &&& match json_get(event.after, "end_id"@) {
                        Some(JsonView::Text(end)) => element.to == Some(end),
                        _ => element.to is None,
                    }
                    &&& element.element_type == if (element.from is Some && element.to is Some)
                        || event.table == "relation"@ || event.table == "edge"@ {
                        "relation"@
                    } else {
                        "node"@
                    }
                }
            },
            _ => direct_change(event) is None,
        },
{
    reveal_strlit("i");
    reveal_strlit("u");
    reveal_strlit("d");
    assert("i"@[0] != "d"@[0] && "u"@[0] != "d"@[0]);
}

/// The change sent for a delete names the element that the event has before it, with the
/// labels that it had there. No element is sent.
pub proof fn lemma_direct_deletes_name_what_is_gone(event: ChangeEventView)
    requires
        event.op == "d"@,
    ensures
        match json_get(event.before, "id"@) {
            Some(JsonView::Text(id)) => direct_change(event) matches Some(change) && {
                &&& change.operation == "delete"@
                &&& change.element is None
                &&& change.id == Some(id)
                &&& change.labels == if json_get(event.before, "labels"@) matches Some(
                    JsonView::Array(_),
                ) {
                    Some(labels_or_none(event.before))
                } else {
                    None
                }
                &&& change.timestamp matches Some(t) && (t - event.reactivator_start_ns)
                    % 0x1_0000_0000_0000_0000 == 0
            },
            _ => direct_change(event) is None,
        },
{
}

/// What is sent for an insert or an update does not depend on the state before, what is sent
/// for a delete not on the state after. Other operations send nothing.
pub proof fn lemma_direct_changes_ignore_the_other_state(event: ChangeEventView, other: JsonView)
    ensures
        event.op != "d"@ ==> direct_change(event) == direct_change(
            ChangeEventView { before: other, ..event },
        ),
        event.op == "d"@ ==> direct_change(event) == direct_change(
            ChangeEventView { after: other, ..event },
        ),
        event.op != "i"@ && event.op != "u"@ && event.op != "d"@ ==> direct_change(event) is None,
{
}

/// Every change of the events is sent, whether in one request or each in its own: in one to
/// the address for lists, else to the address itself. Nothing is sent where there is no event,
/// and a list of events of which none can be converted is an error.
pub proof fn lemma_plans_send_every_change(
    url: Seq<char>,
    batch: bool,
    events: Seq<ChangeEventView>,
)
    ensures
        events.len() == 0 ==> (http_plan(url, batch, events) matches Ok(HttpPlanView::Nothing)),
        events.len() > 0 && !batch ==> (http_plan(url, batch, events) matches Ok(
            HttpPlanView::Each { url: to, changes },
        ) && to == url && changes == direct_changes(events)),
        events.len() > 0 && batch && direct_changes(events).len() > 0 ==> (http_plan(
            url,
            batch,
            events,
        ) matches Ok(HttpPlanView::Batch { url: to, changes }) && to == url + "/batch"@ && changes
            == direct_changes(events)),
        events.len() > 0 && batch && direct_changes(events).len() == 0 ==> http_plan(
            url,
            batch,
            events,
        ) is Err,
{
}

/// The same holds of a list that the adaptive sender gathered: nothing is lost, and more than
/// one change goes in one request exactly where that is allowed.
pub proof fn lemma_gathered_plans_send_every_change(
    url: Seq<char>,
    batch_url: Seq<char>,
    batch_enabled: bool,
    events: Seq<ChangeEventView>,
)
    ensures
        match batch_plan(url, batch_url, batch_enabled, events) {
            HttpPlanView::Nothing => direct_changes(events).len() == 0,
            HttpPlanView::Batch { url: to, changes } => to == batch_url && batch_enabled
                && changes.len() > 1 && changes == direct_changes(events),
            HttpPlanView::Each { url: to, changes } => to == url && changes.len() > 0 && (
            batch_enabled ==> changes.len() == 1) && changes == direct_changes(events),
        },
{
}

/// Every event is sent to the gRPC source as its own change, in the order of the events.
pub proof fn lemma_grpc_plans_send_every_event(
    batch: bool,
    source_id: Seq<char>,
    events: Seq<ChangeEventView>,
)
    ensures
        match grpc_plan(batch, source_id, events) {
            GrpcPlanView::Nothing => events.len() == 0,
            GrpcPlanView::Batch(changes) => batch && changes.len() == events.len() && events.len()
                > 0 && forall|i: int|
                0 <= i < events.len() ==> #[trigger] changes[i] == source_change_of(
                    events[i],
                    source_id,
                ),
            GrpcPlanView::Each(changes) => !batch && changes.len() == events.len() && events.len()
                > 0 && forall|i: int|
                0 <= i < events.len() ==> #[trigger] changes[i] == source_change_of(
                    events[i],
                    source_id,
                ),
        },
{
}

/// An address names the host, then the port in digits, then the endpoint.
pub proof fn lemma_addresses_name_host_port_and_endpoint(
    base: Seq<char>,
    port: u16,
    endpoint: Seq<char>,
)
    ensures
        ({
            let url = url_of(base, port, endpoint);
            let n = url.len() - endpoint.len();
            &&& base.len() + 1 < n
            &&& url.take(base.len() as int) == base
            &&& url[base.len() as int] == ':'
            &&& is_numeral(url.subrange(base.len() as int + 1, n))
            &&& numeral_value(url.subrange(base.len() as int + 1, n)) == port
            &&& url.skip(n) == endpoint
        }),
{
    reveal_strlit(":");
    let url = url_of(base, port, endpoint);
    let n = url.len() - endpoint.len();
    let digits = crate::text::decimal(port as nat);
    lemma_decimal(port as nat);
    assert(url.take(base.len() as int) =~= base);
    assert(url.subrange(base.len() as int + 1, n) =~= digits);
    assert(url.skip(n) =~= endpoint);
}

/// Each configured setting of the adaptive sender bears on its own values alone: a size on the
/// sizes, a time on the waits, the switch on itself. What is not configured is as by default.
pub proof fn lemma_settings_bear_on_their_own(
    defaults: AdaptiveBatchConfig,
    batch_size: Option<u64>,
    timeout_ms: Option<u64>,
    adaptive_enabled: Option<bool>,
)
    ensures
        ({
            let config = batch_config(defaults, batch_size, timeout_ms, adaptive_enabled);
            &&& match batch_size {
                Some(size) => config.max_batch_size == size && 1 <= config.min_batch_size <= 10
                    && config.min_batch_size * 10 <= (if size < 10 {
                    10
                } else {
                    size as int
                }) && (size < 110 && size >= 10 ==> size < config.min_batch_size * 10 + 10) && (
                size >= 100 ==> config.min_batch_size == 10),
                None => config.max_batch_size == defaults.max_batch_size && config.min_batch_size
                    == defaults.min_batch_size,
            }
            &&& match timeout_ms {
                Some(ms) => config.max_wait_ms == ms && config.min_wait_ms * 10 <= ms
                    < config.min_wait_ms * 10 + 10,
                None => config.max_wait_ms == defaults.max_wait_ms && config.min_wait_ms
                    == defaults.min_wait_ms,
            }
            &&& config.adaptive_enabled == (adaptive_enabled != Some(false))
        }),
{
}

/// An acknowledgment is accepted exactly where it reports success and its number lies between
/// what was acknowledged before and what was sent.
pub proof fn lemma_accepted_acknowledgments(
    acknowledged: BatchAcknowledgments,
    success: bool,
    processed: u64,
    error: Seq<char>,
)
    ensures
        acknowledgment_error(acknowledged, success, processed, error) is None <==> success
            && acknowledged.processed <= processed <= acknowledged.expected,
{
}

/// A source is reached at its configured endpoint, and else at one that has its name in it.
pub proof fn lemma_endpoints_name_their_source(source_id: Seq<char>)
    ensures
        ({
            let endpoint = default_endpoint(source_id);
            let n = endpoint.len() - 7;
            &&& n == 9 + source_id.len()
            &&& endpoint.take(9) == "/sources/"@
            &&& endpoint.subrange(9, n) == source_id
            &&& endpoint.skip(n) == "/events"@
        }),
{
    reveal_strlit("/sources/");
    reveal_strlit("/events");
    let endpoint = default_endpoint(source_id);
    let n = endpoint.len() - 7;
    assert(endpoint.take(9) =~= "/sources/"@);
    assert(endpoint.subrange(9, n) =~= source_id);
    assert(endpoint.skip(n) =~= "/events"@);
}

/// The adaptive sender uses the configured endpoint, and else that of the configured source, or
/// of a source for tests where none is configured.
pub proof fn lemma_adaptive_endpoints(definition: HttpSourceChangeDispatcherDefinition)
    ensures
        definition.source_id matches Some(id) ==> named_source(definition) == id@,
        definition.source_id is None ==> named_source(definition) == "test-source"@,
        definition.endpoint matches Some(endpoint) ==> named_endpoint(definition) == endpoint@,
        definition.endpoint is None ==> named_endpoint(definition) == default_endpoint(
            named_source(definition),
        ),
{
}

/// A gRPC source is addressed by its scheme, its host and its port: the scheme is the secure one
/// exactly where that is configured.
pub proof fn lemma_grpc_addresses(tls: bool, host: Seq<char>, port: u16)
    ensures
        ({
            let address = endpoint_address(tls, host, port);
            let n: int = if tls {
                8
            } else {
                7
            };
            let m = n + host.len();
            &&& m + 1 < address.len()
            &&& address.take(n) == if tls {
                "https://"@
            } else {
                "http://"@
            }
            &&& address.subrange(n, m) == host
            &&& address[m] == ':'
            &&& is_numeral(address.skip(m + 1))
            &&& numeral_value(address.skip(m + 1)) == port
        }),
{
    reveal_strlit("https");
    reveal_strlit("http");
    reveal_strlit("://");
    reveal_strlit("https://");
    reveal_strlit("http://");
    reveal_strlit(":");
    lemma_decimal(port as nat);
    let address = endpoint_address(tls, host, port);
    let n: int = if tls {
        8
    } else {
        7
    };
    let m = n + host.len();
    assert(address.take(n) =~= if tls {
        "https://"@
    } else {
        "http://"@
    });
    assert(address.subrange(n, m) =~= host);
    assert(address.skip(m + 1) =~= crate::text::decimal(port as nat));
}

/// A list of changes in one request takes one request, changes by themselves one each, nothing
/// none.
pub proof fn lemma_requests_are_counted(
    url: Seq<char>,
    http: Seq<HttpChangeView>,
    grpc: Seq<SourceChangeModel>,
)
    ensures
        http_dispatcher::request_count(HttpPlanView::Nothing) == 0,
        http_dispatcher::request_count(HttpPlanView::Batch { url, changes: http }) == 1,
        http_dispatcher::request_count(HttpPlanView::Each { url, changes: http }) == http.len(),
        grpc_dispatcher::request_count(GrpcPlanView::Nothing) == 0,
        grpc_dispatcher::request_count(GrpcPlanView::Batch(grpc)) == 1,
        grpc_dispatcher::request_count(GrpcPlanView::Each(grpc)) == grpc.len(),
{
}

/// A batch is counted exactly where the counters have room for it.
pub proof fn lemma_room_for_batches(metrics: BatcherMetrics, size: nat)
    ensures
        metrics_fit(metrics, size) <==> metrics.total_events + size <= u64::MAX
            && metrics.successful_batches + metrics.failed_batches < u64::MAX,
{
}

} // verus!
