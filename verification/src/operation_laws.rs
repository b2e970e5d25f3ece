//! What the operations on sources hand back, in terms of what they are handed.

use crate::grpc_converters::{
    convert_from_drasi_query_result, convert_to_drasi_source_change, create_element_from_json,
    extract_properties, json_to_proto_value, proto_of, proto_value_to_json, struct_json, Change,
    ChangeType, Element, ElementMetadata, ProtoValue, ProtoView, QueryResultItem, ReceivedValue,
    ReceivedView, SourceChange,
};
use crate::grpc_converters_laws::{
    is_end, lemma_deletes_name_what_is_gone, lemma_inserts_and_updates_carry_the_after_state,
    lemma_labels_are_those_listed, lemma_properties_are_those_held, lemma_relations_keep_their_ends,
    lemma_sent_values_are_those_given, lemma_updates_carry_both_rows, metadata_in,
};
use crate::json::{json_get, json_views, Json, JsonView};
use crate::ordered::{entry_views, to_map};
use crate::scripts::{
    event_views, node_views, relation_views, BootstrapData, ChangeEventView, SourceChangeEvent,
};
use crate::sources::model_data_generators::{building_hierarchy, stock_trades};
use crate::sources::model_data_generators::building_hierarchy::{
    BuildingHierarchyDataGeneratorSettings, GraphElementType,
};
use crate::sources::model_data_generators::building_hierarchy_laws::{
    lemma_inserts_are_what_is_added, lemma_labelled_ends_are_listed,
    lemma_relations_join_their_kinds, lists_node, lists_relation, tells_node, tells_relation,
};
use crate::sources::model_data_generators::change_stream::{
    element_views, ChangeStep, ChangeStream, CommandStep, ElementInsert, ExternalState,
    FailurePolicy, FollowUp, GeneratorCommand, ModelUpdate, ResultSummary,
    ScheduledChangeEventMessage, StreamSettings,
};
use crate::sources::model_data_generators::generator_driver::{
    GeneratorAction, GeneratorDriver, GeneratorEvent,
};
use crate::sources::model_data_generators::stock_trades::StockTradeDataGeneratorSettings;
use crate::sources::source_change_dispatchers::adaptive_http_dispatcher::{
    AdaptiveHttpSourceChangeDispatcherSettings, BatcherMetrics,
};
use crate::sources::source_change_dispatchers::direct_format::{
    convert_all, convert_to_direct_format, direct_change, direct_changes, http_views,
    HttpChangeEvent,
};
use crate::sources::source_change_dispatchers::dispatch_laws::{
    lemma_changes_keep_the_order, lemma_direct_changes_carry_the_after_state,
    lemma_direct_deletes_name_what_is_gone, lemma_earlier_events_are_sent_first,
};
use crate::sources::source_change_dispatchers::grpc_dispatcher::{
    change_views, BatchAcknowledgments, GrpcDispatchPlan, GrpcSourceChangeDispatcherSettings,
};
use crate::sources::source_change_dispatchers::http_dispatcher::{
    url_of, HttpDispatchPlan, HttpSourceChangeDispatcherSettings,
};
use crate::sources::source_change_generators::SourceChangeGeneratorStatus;
use crate::test_repo_storage::models::TimeMode;
use crate::text::texts;
use vstd::prelude::*;

verus! {

/// Scheduling an update leaves the stream with an event that carries the model's state before
/// and after it, numbered and timed as the stream says.
pub proof fn lemma_scheduling_keeps_both_states(
    stream: &mut ChangeStream,
    now_ns: u64,
    update: ModelUpdate,
    r: Result<Option<ScheduledChangeEventMessage>, String>,
)
    requires
        call_ensures(ChangeStream::schedule_update, (stream, now_ns, update), r),
        update is Updated,
    ensures
        final(stream)@.next_event matches Some(event) && {
            &&& event.before == update->before@
            &&& event.after == update->after@
            &&& event.op == "u"@
            &&& event.lsn == old(stream)@.event_seq_num
            &&& event.ts_ns == old(stream)@.virtual_time_ns_next
            &&& event.reactivator_start_ns == now_ns
            &&& event.db == old(stream)@.settings.test_source_id
        },
        final(stream)@.stats == old(stream)@.stats,
        final(stream)@.status == old(stream)@.status,
        old(stream)@.status.processing() ==> (r matches Ok(Some(message)) && message.seq_num
            == old(stream)@.event_seq_num),
{
}

/// Beginning a change that is due hands out the event that was scheduled, with both its states.
pub proof fn lemma_beginning_hands_out_the_scheduled_event(
    stream: &mut ChangeStream,
    now_ns: u64,
    r: ChangeStep,
)
    requires
        call_ensures(ChangeStream::begin_change, (stream, now_ns), r),
    ensures
        r matches ChangeStep::Dispatch(event) ==> {
            &&& old(stream)@.next_event matches Some(scheduled)
                && event.payload.before@ == scheduled.before && event.payload.after@
                == scheduled.after && event.op@ == scheduled.op && event.payload.source.lsn
                == scheduled.lsn && event.payload.source.ts_ns == scheduled.ts_ns
            &&& event.reactivator_end_ns == now_ns
            &&& old(stream)@.status == SourceChangeGeneratorStatus::Running || old(stream)@.status
                == SourceChangeGeneratorStatus::Stepping
        },
        r matches ChangeStep::Skip(event) ==> old(stream)@.status
            == SourceChangeGeneratorStatus::Skipping,
        old(stream)@.next_event is Some && old(stream)@.status
            == SourceChangeGeneratorStatus::Running ==> r is Dispatch,
{
}

/// Completing a change counts it, reports it as the last one, and finishes the stream exactly
/// where its limit is reached.
pub proof fn lemma_completing_counts_the_change(
    stream: &mut ChangeStream,
    event: SourceChangeEvent,
    seq_num: u64,
    now_ns: u64,
    r: Result<FollowUp, String>,
)
    requires
        call_ensures(ChangeStream::complete_change, (stream, event, seq_num, now_ns, Ok(())), r),
        old(stream)@.stats.num_source_change_events < u64::MAX,
        old(stream)@.status.processing(),
    ensures
        ({
            let done = old(stream)@.stats.num_source_change_events + 1
                >= old(stream)@.settings.change_count;
            &&& final(stream)@.stats.num_source_change_events
                == old(stream)@.stats.num_source_change_events + 1
            &&& final(stream)@.previous_event matches Some(processed) && processed.event == event@
                && processed.seq == seq_num && processed.dispatch_status == old(stream)@.status
            &&& final(stream)@.status == SourceChangeGeneratorStatus::Finished <==> done
            &&& done ==> r == Ok::<FollowUp, String>(FollowUp::Close)
            &&& !done ==> r == Ok::<FollowUp, String>(FollowUp::Schedule)
        }),
{
}

/// A command that is accepted leads to the status that it asks for.
pub proof fn lemma_commands_lead_where_they_say(
    stream: &mut ChangeStream,
    command: GeneratorCommand,
    now_ns: u64,
    r: CommandStep,
)
    requires
        call_ensures(ChangeStream::on_command, (stream, command, now_ns), r),
    ensures
        r is Refuse ==> final(stream)@ == old(stream)@,
        !(r is Refuse) ==> match command {
            GeneratorCommand::Pause => final(stream)@.status == SourceChangeGeneratorStatus::Paused,
            GeneratorCommand::Stop => final(stream)@.status == SourceChangeGeneratorStatus::Stopped
                && final(stream)@.stats.actual_end_time_ns == now_ns,
            GeneratorCommand::Start => final(stream)@.status
                == SourceChangeGeneratorStatus::Running,
            GeneratorCommand::Step { steps, .. } => final(stream)@.status
                == SourceChangeGeneratorStatus::Stepping && final(stream)@.steps_remaining == steps,
            GeneratorCommand::Skip { skips, .. } => final(stream)@.status
                == SourceChangeGeneratorStatus::Skipping && final(stream)@.skips_remaining == skips,
            _ => final(stream)@ == old(stream)@,
        },
{
}

/// The first inserts carry the elements one by one, in their order, each as the after part of
/// its own event.
pub proof fn lemma_first_inserts_carry_the_elements(
    stream: &mut ChangeStream,
    elements: Vec<ElementInsert>,
    now_ns: u64,
    r: Vec<SourceChangeEvent>,
)
    requires
        call_ensures(ChangeStream::initial_inserts, (stream, elements, now_ns), r),
        old(stream)@.event_seq_num + elements@.len() <= u64::MAX,
    ensures
        r@.len() == elements@.len(),
        forall|i: int|
            0 <= i < r@.len() ==> {
                let event = #[trigger] r@[i];
                &&& event.payload.after@ == elements@[i].after@
                &&& event.payload.before@ is Null
                &&& event.op@ == "i"@
                &&& event.payload.source.lsn == old(stream)@.event_seq_num + i
                &&& event.payload.source.table@ == if elements@[i].is_relation {
                    "relation"@
                } else {
                    "node"@
                }
            },
{
    assert(event_views(r@).len() == r@.len());
    assert(element_views(elements@).len() == elements@.len());
    assert forall|i: int| 0 <= i < r@.len() implies {
        let event = #[trigger] r@[i];
        &&& event.payload.after@ == elements@[i].after@
        &&& event.payload.before@ is Null
        &&& event.op@ == "i"@
        &&& event.payload.source.lsn == old(stream)@.event_seq_num + i
        &&& event.payload.source.table@ == if elements@[i].is_relation {
            "relation"@
        } else {
            "node"@
        }
    } by {
        assert(event_views(r@)[i] == r@[i]@);
        assert(element_views(elements@)[i] == elements@[i]@);
    }
}

/// What is reported of a stream is its own state.
pub proof fn lemma_reported_states_are_the_streams(stream: &ChangeStream, r: ExternalState)
    requires
        call_ensures(ChangeStream::external_state, (stream,), r),
    ensures
        r.status == stream@.status,
        r.stats == stream@.stats,
        r.event_seq_num == stream@.event_seq_num,
        r.steps_remaining == stream@.steps_remaining,
        r.skips_remaining == stream@.skips_remaining,
        r.virtual_time_ns_current == stream@.virtual_time_ns_current,
        r.virtual_time_ns_next == stream@.virtual_time_ns_next,
        r.virtual_time_ns_start == stream@.virtual_time_ns_start,
        texts(r.error_messages@) == stream@.error_messages,
        r.next_event is Some <==> stream@.next_event is Some,
        r.next_event matches Some(event) ==> stream@.next_event == Some(event@),
        r.previous_event is Some <==> stream@.previous_event is Some,
        r.previous_event matches Some(event) ==> stream@.previous_event == Some(event@),
{
}

/// What tells an element that is sent.
pub open spec fn metadata_of_element(element: Element) -> ElementMetadata {
    match element {
        Element::Node { metadata, .. } => metadata,
        Element::Relation { metadata, .. } => metadata,
    }
}

/// The element sent to a gRPC source for an insert or an update is the one in the event's after
/// state: it has the identifier and the labels found there.
pub proof fn lemma_grpc_changes_carry_the_after_state(
    event: &SourceChangeEvent,
    source_id: &str,
    r: SourceChange,
    id: Seq<char>,
    labels: Seq<JsonView>,
)
    requires
        call_ensures(convert_to_drasi_source_change, (event, source_id), r),
        event.op@ == "i"@ || event.op@ == "insert"@ || event.op@ == "u"@ || event.op@ == "update"@,
        json_get(event.payload.after@, "id"@) == Some(JsonView::Text(id)),
        json_get(event.payload.after@, "labels"@) == Some(JsonView::Array(labels)),
        forall|i: int| 0 <= i < labels.len() ==> (#[trigger] labels[i]) is Text,
    ensures
        r.source_id@ == source_id@,
        r.change_type == if event.op@ == "i"@ || event.op@ == "insert"@ {
            ChangeType::Insert
        } else {
            ChangeType::Update
        },
        r.change matches Some(Change::Element(element)) && {
            let metadata = metadata_of_element(element);
            &&& metadata.reference.element_id@ == id
            &&& metadata.reference.source_id@ == source_id@
            &&& metadata.labels@.len() == labels.len()
            &&& forall|i: int|
                0 <= i < labels.len() ==> labels[i] == JsonView::Text(
                    (#[trigger] metadata.labels@[i])@,
                )
            &&& metadata.effective_from == event.payload.source.ts_ns
        },
{
    lemma_inserts_and_updates_carry_the_after_state(event@, source_id@, Seq::empty());
    lemma_labels_are_those_listed(event@.after);
    let element = r.change->Some_0->Element_0;
    let metadata = metadata_of_element(element);
    assert(metadata_in(element@) == metadata@);
    assert(texts(metadata.labels@).len() == metadata.labels@.len());
    assert forall|i: int| 0 <= i < labels.len() implies labels[i] == JsonView::Text(
        (#[trigger] metadata.labels@[i])@,
    ) by {
        assert(texts(metadata.labels@)[i] == metadata.labels@[i]@);
    }
}

/// What is sent to a gRPC source for an insert or an update is the same whatever the event's
/// before state is.
pub proof fn lemma_grpc_changes_ignore_the_before_state(
    a: &SourceChangeEvent,
    b: &SourceChangeEvent,
    source_id: &str,
    r: SourceChange,
    s: SourceChange,
)
    requires
        call_ensures(convert_to_drasi_source_change, (a, source_id), r),
        call_ensures(convert_to_drasi_source_change, (b, source_id), s),
        a.op@ == b.op@,
        a.op@ != "d"@ && a.op@ != "delete"@,
        a.payload.after@ == b.payload.after@,
        a.payload.source.ts_ns == b.payload.source.ts_ns,
    ensures
        r@ == s@,
{
}

/// What is sent to a gRPC source for a delete names the element that was there before.
pub proof fn lemma_grpc_deletes_name_what_is_gone(
    event: &SourceChangeEvent,
    source_id: &str,
    r: SourceChange,
    id: Seq<char>,
)
    requires
        call_ensures(convert_to_drasi_source_change, (event, source_id), r),
        event.op@ == "d"@ || event.op@ == "delete"@,
        json_get(event.payload.before@, "id"@) == Some(JsonView::Text(id)),
    ensures
        r.change_type == ChangeType::Delete,
        r.change matches Some(Change::Metadata(metadata)) && metadata.reference.element_id@ == id
            && metadata.reference.source_id@ == source_id@ && metadata.effective_from
            == event.payload.source.ts_ns,
{
    lemma_deletes_name_what_is_gone(event@, source_id@);
}

/// The results of a query are read one by one, in their order; of an update, the row after is
/// found under "after" and the row before under "before".
pub proof fn lemma_query_results_are_read_in_order(
    results: &Vec<QueryResultItem>,
    r: Vec<Json>,
    i: int,
)
    requires
        call_ensures(convert_from_drasi_query_result, (results,), r),
        0 <= i < results@.len(),
    ensures
        r@.len() == results@.len(),
        results@[i].item_type@ == "UPDATE"@ ==> {
            &&& results@[i].after matches Some(row) ==> json_get(r@[i]@, "after"@) == Some(
                JsonView::Object(struct_json(entry_views(row@))),
            )
            &&& results@[i].before matches Some(row) ==> json_get(r@[i]@, "before"@) == Some(
                JsonView::Object(struct_json(entry_views(row@))),
            )
        },
        r@[i]@ == crate::grpc_converters::item_json(results@[i]),
{
    let read = Seq::new(
        results@.len(),
        |k: int| crate::grpc_converters::item_json(results@[k]),
    );
    assert(json_views(r@) == read);
    assert(json_views(r@).len() == r@.len());
    assert(json_views(r@)[i] == r@[i]@);
    if results@[i].item_type@ == "UPDATE"@ {
        lemma_updates_carry_both_rows(results@[i]);
    }
}

/// The changes sent of two lists of events put together are those of the first, followed by
/// those of the second.
pub proof fn lemma_sent_changes_keep_the_order(
    a: &Vec<SourceChangeEvent>,
    b: &Vec<SourceChangeEvent>,
    both: &Vec<SourceChangeEvent>,
    r: Vec<HttpChangeEvent>,
    s: Vec<HttpChangeEvent>,
    t: Vec<HttpChangeEvent>,
)
    requires
        call_ensures(convert_all, (a,), r),
        call_ensures(convert_all, (b,), s),
        call_ensures(convert_all, (both,), t),
        both@ == a@ + b@,
    ensures
        t@.len() == r@.len() + s@.len(),
        forall|i: int| 0 <= i < r@.len() ==> (#[trigger] t@[i])@ == r@[i]@,
        forall|i: int| 0 <= i < s@.len() ==> t@[r@.len() + i]@ == (#[trigger] s@[i])@,
{
    let x = event_views(a@);
    let y = event_views(b@);
    assert(event_views(both@) =~= x + y);
    lemma_changes_keep_the_order(x, y, arbitrary());
    assert(http_views(t@) == http_views(r@) + http_views(s@));
    assert(http_views(t@).len() == t@.len());
    assert(http_views(r@).len() == r@.len());
    assert(http_views(s@).len() == s@.len());
    assert forall|i: int| 0 <= i < r@.len() implies (#[trigger] t@[i])@ == r@[i]@ by {
        assert(http_views(t@)[i] == t@[i]@);
        assert(http_views(r@)[i] == r@[i]@);
    }
    assert forall|i: int| 0 <= i < s@.len() implies t@[r@.len() + i]@ == (#[trigger] s@[i])@ by {
        assert(http_views(t@)[r@.len() + i] == t@[r@.len() + i]@);
        assert(http_views(s@)[i] == s@[i]@);
    }
}

/// Of two events that are sent, the change made from the earlier one stands first.
pub proof fn lemma_earlier_changes_stand_first(
    events: &Vec<SourceChangeEvent>,
    r: Vec<HttpChangeEvent>,
    i: int,
    j: int,
)
    requires
        call_ensures(convert_all, (events,), r),
        0 <= i < j < events@.len(),
        direct_change(events@[i]@) is Some,
        direct_change(events@[j]@) is Some,
    ensures
        exists|p: int, q: int|
            0 <= p < q < r@.len() && Some((#[trigger] r@[p])@) == direct_change(events@[i]@) && Some(
                (#[trigger] r@[q])@,
            ) == direct_change(events@[j]@),
{
    let views = event_views(events@);
    assert(views[i] == events@[i]@ && views[j] == events@[j]@);
    lemma_earlier_events_are_sent_first(views, i, j);
    let sent = direct_changes(views);
    let (p, q) = choose|p: int, q: int|
        0 <= p < q < sent.len() && Some(#[trigger] sent[p]) == direct_change(views[i]) && Some(
            #[trigger] sent[q],
        ) == direct_change(views[j]);
    assert(http_views(r@).len() == r@.len());
    assert(http_views(r@)[p] == r@[p]@);
    assert(http_views(r@)[q] == r@[q]@);
}

/// The change sent over HTTP for an insert or an update carries the element of the after state,
/// for a delete the name of the element of the before state.
pub proof fn lemma_http_changes_carry_their_state(
    event: &SourceChangeEvent,
    r: Option<HttpChangeEvent>,
    id: Seq<char>,
)
    requires
        call_ensures(convert_to_direct_format, (event,), r),
    ensures
        (event.op@ == "i"@ || event.op@ == "u"@) && json_get(event.payload.after@, "id"@) == Some(
            JsonView::Text(id),
        ) ==> (r matches Some(change) && change.element matches Some(element) && element.id@ == id),
        event.op@ == "d"@ && json_get(event.payload.before@, "id"@) == Some(JsonView::Text(id))
            ==> (r matches Some(change) && change.id matches Some(name) && name@ == id
            && change.element is None),
{
    if event.op@ == "d"@ {
        lemma_direct_deletes_name_what_is_gone(event@);
    }
    if event.op@ == "i"@ || event.op@ == "u"@ {
        lemma_direct_changes_carry_the_after_state(event@);
    }
}

/// Whatever way changes go over HTTP, all that can be converted go, in their order, to the
/// configured address or, in one list, to the one for lists.
pub proof fn lemma_http_plans_lose_nothing(
    settings: &HttpSourceChangeDispatcherSettings,
    events: &Vec<SourceChangeEvent>,
    r: Result<HttpDispatchPlan, String>,
)
    requires
        call_ensures(HttpSourceChangeDispatcherSettings::plan_dispatch, (settings, events), r),
        direct_changes(event_views(events@)).len() > 0,
    ensures
        ({
            let address = url_of(settings.url@, settings.port, settings.endpoint@);
            let sent = direct_changes(event_views(events@));
            &&& settings.batch_events ==> (r matches Ok(HttpDispatchPlan::Batch { url, changes })
                && url@ == address + "/batch"@ && http_views(changes@) == sent)
            &&& !settings.batch_events ==> (r matches Ok(HttpDispatchPlan::Each { url, changes })
                && url@ == address && http_views(changes@) == sent)
        }),
{
    assert(events@.len() > 0) by {
        if events@.len() == 0 {
            assert(event_views(events@) =~= Seq::empty());
        }
    }
}

/// A list that the adaptive sender gathered loses nothing either.
pub proof fn lemma_adaptive_plans_lose_nothing(
    settings: &AdaptiveHttpSourceChangeDispatcherSettings,
    events: &Vec<SourceChangeEvent>,
    r: HttpDispatchPlan,
)
    requires
        call_ensures(AdaptiveHttpSourceChangeDispatcherSettings::plan_batch, (settings, events), r),
        direct_changes(event_views(events@)).len() > 0,
    ensures
        ({
            let sent = direct_changes(event_views(events@));
            let single = url_of(settings.url@, settings.port, settings.endpoint@);
            let listed = url_of(settings.url@, settings.port, settings.batch_endpoint@);
            match r {
                HttpDispatchPlan::Nothing => false,
                HttpDispatchPlan::Batch { url, changes } => settings.batch_enabled && url@ == listed
                    && http_views(changes@) == sent,
                HttpDispatchPlan::Each { url, changes } => url@ == single && http_views(changes@)
                    == sent && (settings.batch_enabled ==> sent.len() == 1),
            }
        }),
{
}

/// Every event goes to the gRPC source as its own change, in the order of the events.
pub proof fn lemma_grpc_plans_lose_nothing(
    settings: &GrpcSourceChangeDispatcherSettings,
    events: &Vec<SourceChangeEvent>,
    r: GrpcDispatchPlan,
    i: int,
)
    requires
        call_ensures(GrpcSourceChangeDispatcherSettings::plan_dispatch, (settings, events), r),
        0 <= i < events@.len(),
    ensures
        match r {
            GrpcDispatchPlan::Nothing => false,
            GrpcDispatchPlan::Batch(changes) => settings.batch_events && changes@.len()
                == events@.len() && changes@[i]@ == crate::grpc_converters::source_change_of(
                events@[i]@,
                settings.source_id@,
            ),
            GrpcDispatchPlan::Each(changes) => !settings.batch_events && changes@.len()
                == events@.len() && changes@[i]@ == crate::grpc_converters::source_change_of(
                events@[i]@,
                settings.source_id@,
            ),
        },
{
    let views = event_views(events@);
    assert(views.len() == events@.len());
    assert(views[i] == events@[i]@);
    match r {
        GrpcDispatchPlan::Nothing => {},
        GrpcDispatchPlan::Batch(changes) => {
            assert(change_views(changes@).len() == changes@.len());
            assert(change_views(changes@)[i] == changes@[i]@);
        },
        GrpcDispatchPlan::Each(changes) => {
            assert(change_views(changes@).len() == changes@.len());
            assert(change_views(changes@)[i] == changes@[i]@);
        },
    }
}

/// In the initial data of a building model, a relation under the label of the relations from
/// buildings to floors has the label of buildings at its start and that of floors at its end,
/// and one under that of the relations from floors to rooms those of floors and rooms.
pub proof fn lemma_bootstrap_relations_join_their_kinds(
    node_changes: &Vec<building_hierarchy::ModelChange>,
    rel_changes: &Vec<building_hierarchy::ModelChange>,
    labels: &GraphElementType,
    r: BootstrapData,
    g: int,
    k: int,
)
    requires
        call_ensures(building_hierarchy::get_data, (node_changes, rel_changes, labels), r),
        labels.building_floor@ != labels.floor_room@,
        0 <= g < r.rels@.len(),
        0 <= k < r.rels@[g].1@.len(),
    ensures
        ({
            let label = r.rels@[g].0@;
            let relation = r.rels@[g].1@[k];
            &&& relation.start_label matches Some(start) && relation.end_label matches Some(end) && {
                &&& label == labels.building_floor@ ==> start@ == labels.building@ && end@
                    == labels.floor@
                &&& label == labels.floor_room@ ==> start@ == labels.floor@ && end@ == labels.room@
            }
            &&& label == labels.building_floor@ || label == labels.floor_room@
        }),
{
    let label = r.rels@[g].0@;
    let relation = r.rels@[g].1@[k];
    assert(r@.rels[g] == (r.rels@[g].0@, relation_views(r.rels@[g].1@)));
    assert(relation_views(r.rels@[g].1@)[k] == relation@);
    assert(r@.rels[g].1[k] == relation@);
    assert(lists_relation(r@, label, relation@));
    lemma_relations_join_their_kinds(node_changes@, rel_changes@, *labels, label, relation@);
}

/// Each labelled end of a relation in the initial data names a label under which the node at
/// that end is listed, whenever the model holds that node.
pub proof fn lemma_bootstrap_ends_are_listed(
    node_changes: &Vec<building_hierarchy::ModelChange>,
    rel_changes: &Vec<building_hierarchy::ModelChange>,
    labels: &GraphElementType,
    r: BootstrapData,
    g: int,
    k: int,
    i: int,
)
    requires
        call_ensures(building_hierarchy::get_data, (node_changes, rel_changes, labels), r),
        labels.building_floor@ != labels.floor_room@,
        0 <= g < r.rels@.len(),
        0 <= k < r.rels@[g].1@.len(),
        0 <= i < node_changes@.len(),
    ensures
        ({
            let label = r.rels@[g].0@;
            let relation = r.rels@[g].1@[k];
            match node_changes@[i] {
                building_hierarchy::ModelChange::BuildingAdded(node) => label
                    == labels.building_floor@ && node.id@ == relation.start_id@ ==> (
                relation.start_label matches Some(at) && lists_node(r@, at@, node.id@)),
                building_hierarchy::ModelChange::FloorAdded(node) => {
                    &&& label == labels.building_floor@ && node.id@ == relation.end_id@ ==> (
                    relation.end_label matches Some(at) && lists_node(r@, at@, node.id@))
                    &&& label == labels.floor_room@ && node.id@ == relation.start_id@ ==> (
                    relation.start_label matches Some(at) && lists_node(r@, at@, node.id@))
                },
                building_hierarchy::ModelChange::RoomAdded(node) => label == labels.floor_room@
                    && node.id@ == relation.end_id@ ==> (relation.end_label matches Some(at)
                    && lists_node(r@, at@, node.id@)),
                _ => true,
            }
        }),
{
    let label = r.rels@[g].0@;
    let relation = r.rels@[g].1@[k];
    assert(r@.rels[g] == (r.rels@[g].0@, relation_views(r.rels@[g].1@)));
    assert(relation_views(r.rels@[g].1@)[k] == relation@);
    assert(r@.rels[g].1[k] == relation@);
    assert(lists_relation(r@, label, relation@));
    lemma_labelled_ends_are_listed(node_changes@, rel_changes@, *labels, label, relation@, i);
}

/// The element to be inserted for a single change of a building model is the one that is added.
pub proof fn lemma_building_inserts_are_what_is_added(
    changes: &Vec<building_hierarchy::ModelChange>,
    r: Vec<ElementInsert>,
)
    requires
        call_ensures(building_hierarchy::element_inserts, (changes,), r),
        changes@.len() == 1,
    ensures
        match changes@[0] {
            building_hierarchy::ModelChange::RoomAdded(node) => r@.len() == 1 && tells_node(
                r@[0]@,
                node.id@,
                texts(node.labels@),
                node.properties@,
            ),
            building_hierarchy::ModelChange::BuildingFloorRelationAdded(relation) => r@.len() == 1
                && tells_relation(r@[0]@, relation.id@, relation.start_id@, relation.end_id@),
            building_hierarchy::ModelChange::FloorRoomRelationAdded(relation) => r@.len() == 1
                && tells_relation(r@[0]@, relation.id@, relation.start_id@, relation.end_id@),
            building_hierarchy::ModelChange::RoomUpdated(_, _) => r@.len() == 0,
            building_hierarchy::ModelChange::Other(_) => r@.len() == 0,
            _ => r@.len() == 1,
        },
{
    reveal_with_fuel(building_hierarchy::inserts_of, 2);
    lemma_inserts_are_what_is_added(changes@[0]);
    assert(changes@.drop_last() =~= Seq::empty());
    assert(changes@.last() == changes@[0]);
    assert(element_views(r@).len() == r@.len());
    if r@.len() == 1 {
        assert(element_views(r@)[0] == r@[0]@);
    }
}

/// The stocks of the initial data are those that were added, in their order.
pub proof fn lemma_stock_data_are_what_is_added(
    changes: &Vec<stock_trades::ModelChange>,
    r: BootstrapData,
)
    requires
        call_ensures(stock_trades::get_data, (changes,), r),
    ensures
        r.rels@.len() == 0,
        stock_trades::stocks_of(changes@).len() == 0 ==> r.nodes@.len() == 0,
        stock_trades::stocks_of(changes@).len() > 0 ==> r.nodes@.len() == 1 && r.nodes@[0].0@
            == "Stock"@ && node_views(r.nodes@[0].1@) == stock_trades::stocks_of(changes@),
{
    assert(r@.rels.len() == r.rels@.len());
    assert(r@.nodes.len() == r.nodes@.len());
    if r.nodes@.len() > 0 {
        assert(r@.nodes[0] == (r.nodes@[0].0@, node_views(r.nodes@[0].1@)));
    }
}

/// An update of a room or a stock comes to the stream with its states before and after; nothing
/// else comes as an update.
pub proof fn lemma_model_updates_keep_both_states(
    room: Option<building_hierarchy::ModelChange>,
    stock: Option<stock_trades::ModelChange>,
    shown: String,
    r: ModelUpdate,
    s: ModelUpdate,
)
    requires
        call_ensures(building_hierarchy::model_update, (room, shown), r),
        call_ensures(stock_trades::model_update, (stock, shown), s),
    ensures
        room matches Some(building_hierarchy::ModelChange::RoomUpdated(before, after)) ==> r == (
        ModelUpdate::Updated { before, after }),
        r matches ModelUpdate::Updated { before, after } ==> room == Some(
            building_hierarchy::ModelChange::RoomUpdated(before, after),
        ),
        room is None ==> r is Nothing,
        stock matches Some(stock_trades::ModelChange::StockUpdated(before, after)) ==> s == (
        ModelUpdate::Updated { before, after }),
        s matches ModelUpdate::Updated { before, after } ==> stock == Some(
            stock_trades::ModelChange::StockUpdated(before, after),
        ),
        stock is None ==> s is Nothing,
{
}

/// A generator that is told of a due change dispatches the event that was scheduled, by itself
/// and with both its states.
pub proof fn lemma_generators_dispatch_the_scheduled_event(
    driver: &mut GeneratorDriver,
    message: ScheduledChangeEventMessage,
    now_ns: u64,
    r: GeneratorAction,
    scheduled: ChangeEventView,
)
    requires
        call_ensures(
            GeneratorDriver::handle,
            (driver, GeneratorEvent::ChangeDue(message), now_ns),
            r,
        ),
        old(driver)@.phase is Idle,
        old(driver)@.stream.status == SourceChangeGeneratorStatus::Running,
        old(driver)@.stream.next_event == Some(scheduled),
        message.seq_num == old(driver)@.stream.event_seq_num,
    ensures
        r matches GeneratorAction::Dispatch(events) && events@.len() == 1 && {
            &&& events@[0].payload.before@ == scheduled.before
            &&& events@[0].payload.after@ == scheduled.after
            &&& events@[0].op@ == scheduled.op
            &&& events@[0].payload.source.lsn == scheduled.lsn
            &&& events@[0].payload.source.ts_ns == scheduled.ts_ns
            &&& events@[0].reactivator_end_ns == now_ns
        },
{
    let events = r->Dispatch_0@;
    assert(event_views(events).len() == events.len());
    assert(event_views(events)[0] == events[0]@);
}

/// A generator that is stopped closes its dispatchers, one that is paused answers at once, and
/// one that is started waits for its rate or first lists the elements.
pub proof fn lemma_generators_obey(
    driver: &mut GeneratorDriver,
    command: GeneratorCommand,
    now_ns: u64,
    r: GeneratorAction,
)
    requires
        call_ensures(
            GeneratorDriver::handle,
            (driver, GeneratorEvent::Command(command), now_ns),
            r,
        ),
        old(driver)@.phase is Idle,
        old(driver)@.stream.status == SourceChangeGeneratorStatus::Paused,
    ensures
        match command {
            GeneratorCommand::Stop => r is Close && final(driver)@.stream.status
                == SourceChangeGeneratorStatus::Stopped,
            GeneratorCommand::Start => final(driver)@.stream.status
                == SourceChangeGeneratorStatus::Running && (
            old(driver)@.stream.settings.send_initial_inserts ==> r is ListElements) && (
            !old(driver)@.stream.settings.send_initial_inserts ==> r is AwaitRate),
            GeneratorCommand::Step { steps, .. } => r is AwaitRate
                && final(driver)@.stream.steps_remaining == steps,
            GeneratorCommand::Skip { skips, .. } => r is AwaitRate
                && final(driver)@.stream.skips_remaining == skips,
            GeneratorCommand::Reset => r is CloseToRebuild,
            GeneratorCommand::SetTestRunHost => r is ConfigureDispatchers,
            _ => r is Reply && final(driver)@.stream == old(driver)@.stream,
        },
{
}

/// A list to be sent has its items one by one, in their order; a text and a truth value are sent
/// as they are.
pub proof fn lemma_sent_lists_keep_their_order(json: &Json, r: ProtoValue, i: int)
    requires
        call_ensures(json_to_proto_value, (json,), r),
    ensures
        match json@ {
            JsonView::Text(text) => r@ == ProtoView::Text(text),
            JsonView::Bool(b) => r@ == ProtoView::Bool(b),
            JsonView::Null => r@ == ProtoView::Null,
            JsonView::Integer(n) => r@ == ProtoView::Integer(n),
            JsonView::Float(n) => r@ == ProtoView::Float(n),
            JsonView::Array(items) => r@ matches ProtoView::List(sent) && sent.len() == items.len()
                && (0 <= i < items.len() ==> sent[i] == proto_of(items[i])),
            JsonView::Object(_) => r@ is Struct,
        },
{
    lemma_sent_values_are_those_given(json@);
}

/// A value that is read is the one that was received; what was not set is no value.
pub proof fn lemma_received_values_are_read(value: &ReceivedValue, r: Option<Json>)
    requires
        call_ensures(proto_value_to_json, (value,), r),
    ensures
        match value@ {
            ReceivedView::Unset => r is None,
            ReceivedView::NotFinite => r is None,
            ReceivedView::Null => r matches Some(json) && json@ == JsonView::Null,
            ReceivedView::Bool(b) => r matches Some(json) && json@ == JsonView::Bool(b),
            ReceivedView::Number(n) => r matches Some(json) && json@ == JsonView::Float(n),
            ReceivedView::Text(text) => r matches Some(json) && json@ == JsonView::Text(text),
            ReceivedView::List(_) => r matches Some(json) && json@ is Array,
            ReceivedView::Struct(_) => r matches Some(json) && json@ is Object,
        },
{
}

/// Scheduling the time of a change moves the stream's next time on by the interval, and starts
/// the clock with the first change.
pub proof fn lemma_scheduled_times(
    stream: &mut ChangeStream,
    now_ns: u64,
    interval: Option<u64>,
    r: u64,
)
    requires
        call_ensures(ChangeStream::schedule_times, (stream, now_ns, interval), r),
        interval matches Some(interval) ==> old(stream)@.virtual_time_ns_current + interval
            <= u64::MAX,
    ensures
        r == final(stream)@.virtual_time_ns_next,
        interval matches Some(interval) ==> r == old(stream)@.virtual_time_ns_current + interval
            && final(stream)@.stats == old(stream)@.stats,
        interval is None ==> final(stream)@.stats.actual_start_time_ns == now_ns && r == (
        match old(stream)@.settings.time_mode {
            TimeMode::Rebased(base_ns) => base_ns,
            _ => now_ns,
        }),
{
}

/// The summary of a stream tells how long it ran and what it did.
pub proof fn lemma_summaries_tell_the_stream(stream: &ChangeStream, r: ResultSummary)
    requires
        call_ensures(ChangeStream::result_summary, (stream,), r),
    ensures
        r.actual_start_time_ns + r.run_duration_ns == r.actual_end_time_ns,
        r.actual_start_time_ns == stream@.stats.actual_start_time_ns,
        r.num_source_change_events == stream@.stats.num_source_change_events,
        r.num_skipped_source_events == stream@.stats.num_skipped_source_change_events,
        r.test_run_source_id@ == stream@.settings.test_run_source_id,
{
}

/// Inserts that were dispatched count as changes; a reset that succeeds leads to the start; what
/// is closed without a failure leaves the stream as it is.
pub proof fn lemma_dispatched_and_closed(
    a: &mut ChangeStream,
    b: &mut ChangeStream,
    c: &mut ChangeStream,
    count: usize,
    r: Result<(), String>,
    s: Result<(), String>,
    t: Result<(), String>,
)
    requires
        call_ensures(ChangeStream::on_inserts_dispatched, (a, count, Ok(())), r),
        call_ensures(ChangeStream::on_rebuilt, (b, Ok(()), Ok(())), s),
        call_ensures(ChangeStream::on_closed, (c, Ok(())), t),
        old(a)@.stats.num_source_change_events + count <= u64::MAX,
    ensures
        r is Ok && s is Ok && t is Ok,
        final(a)@.stats.num_source_change_events == old(a)@.stats.num_source_change_events + count,
        final(a)@.status == old(a)@.status,
        final(b)@.status == SourceChangeGeneratorStatus::Paused,
        final(b)@.stats.num_source_change_events == 0,
        final(b)@.event_seq_num == 0,
        final(b)@.next_event is None,
        final(b)@.previous_event is None,
        final(b)@.settings == old(b)@.settings,
        final(c)@ == old(c)@,
{
}

/// A stream of a building model passes failures of dispatchers over, one of a stock model reports
/// them; otherwise both follow their settings.
pub proof fn lemma_streams_follow_their_settings(
    building: &BuildingHierarchyDataGeneratorSettings,
    stock: &StockTradeDataGeneratorSettings,
    id: &str,
    r: StreamSettings,
    s: StreamSettings,
)
    requires
        call_ensures(BuildingHierarchyDataGeneratorSettings::stream_settings, (building, id), r),
        call_ensures(StockTradeDataGeneratorSettings::stream_settings, (stock, id), s),
    ensures
        r.failures == FailurePolicy::Ignore && s.failures == FailurePolicy::Report,
        r.change_count == building.change_count && s.change_count == stock.change_count,
        r.send_initial_inserts == building.send_initial_inserts && s.send_initial_inserts
            == stock.send_initial_inserts,
        r.time_mode == building.time_mode && s.time_mode == stock.time_mode,
        r.spacing_mode == building.spacing_mode && s.spacing_mode == stock.spacing_mode,
        r.test_source_id@ == building.id.test_source_id@ && s.test_source_id@
            == stock.id.test_source_id@,
        r.test_run_source_id@ == id@ && s.test_run_source_id@ == id@,
{
}

/// An element with a start and an end is sent as a relation from that start to that end.
pub proof fn lemma_sent_relations_keep_their_ends(
    element: &Json,
    source_id: &str,
    ts_ns: u64,
    r: Element,
    start: Seq<char>,
    end: Seq<char>,
)
    requires
        call_ensures(create_element_from_json, (element, source_id, ts_ns), r),
        is_end(element@, "startId"@, "start_id"@, start),
        is_end(element@, "endId"@, "end_id"@, end),
    ensures
        r matches Element::Relation { in_node, out_node, .. } && in_node.element_id@ == start
            && out_node.element_id@ == end,
{
    lemma_relations_keep_their_ends(element@, source_id@, ts_ns, start, end);
}

/// The properties sent of an element are those that it has under "properties".
pub proof fn lemma_sent_properties(
    element: &Json,
    r: Vec<(String, ProtoValue)>,
    fields: Seq<(Seq<char>, JsonView)>,
    key: Seq<char>,
)
    requires
        call_ensures(extract_properties, (element,), r),
        json_get(element@, "properties"@) == Some(JsonView::Object(fields)),
    ensures
        to_map(entry_views(r@)).contains_key(key) <==> json_get(JsonView::Object(fields), key)
            is Some,
        json_get(JsonView::Object(fields), key) matches Some(value) ==> to_map(entry_views(r@))[key]
            == proto_of(value),
{
    lemma_properties_are_those_held(element@, key);
}

/// Acknowledgments only grow and never pass what was sent; a batch is done exactly where all of
/// it was acknowledged.
pub proof fn lemma_batches_are_acknowledged(
    batch: &mut BatchAcknowledgments,
    success: bool,
    processed: u64,
    error: &str,
    r: Result<(), String>,
    done: &BatchAcknowledgments,
    s: Result<(), String>,
)
    requires
        call_ensures(BatchAcknowledgments::observe, (batch, success, processed, error), r),
        call_ensures(BatchAcknowledgments::finish, (done,), s),
    ensures
        final(batch).expected == old(batch).expected,
        r is Ok <==> success && old(batch).processed <= processed <= old(batch).expected,
        r is Ok ==> final(batch).processed == processed,
        r is Err ==> final(batch).processed == old(batch).processed,
        s is Ok <==> done.processed == done.expected,
{
}

/// Counting a batch adds its events; counting its outcome adds one to the batches of that
/// outcome alone.
pub proof fn lemma_batches_are_counted(
    a: &mut BatcherMetrics,
    b: &mut BatcherMetrics,
    size: usize,
    success: bool,
    report: bool,
)
    requires
        call_ensures(BatcherMetrics::count_events, (a, size), ()),
        call_ensures(BatcherMetrics::count_outcome, (b, success), report),
        old(a).total_events + size <= u64::MAX,
        old(b).successful_batches + old(b).failed_batches < u64::MAX,
    ensures
        final(a).total_events == old(a).total_events + size,
        final(a).successful_batches == old(a).successful_batches,
        final(a).failed_batches == old(a).failed_batches,
        final(b).total_events == old(b).total_events,
        success ==> final(b).successful_batches == old(b).successful_batches + 1
            && final(b).failed_batches == old(b).failed_batches,
        !success ==> final(b).failed_batches == old(b).failed_batches + 1
            && final(b).successful_batches == old(b).successful_batches,
{
}

} // verus!
