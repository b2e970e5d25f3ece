//! What the model of a value tells is what its fields hold, and the model of a list tells its
//! items one by one, in their order.

use crate::grpc_converters::{
    proto_views, received_views, Change, ChangeModel, Element, ElementModel, ElementReference,
    ProtoValue, ProtoView, ReceivedValue, ReceivedView, SourceChange,
};
use crate::ids::{TestRunId, TestRunSourceId};
use crate::json::{json_views, Json, JsonView};
use crate::ordered::entry_views;
use crate::reactions::output_loggers::final_state;
use crate::reactions::output_loggers::final_state::{
    FinalStateRow, FinalStateSummary, RowChange, RowChangeView,
};
use crate::reactions::reaction_handlers::http_reaction_handler::{
    invocation_views, ReactionInvocation, ReactionRequest,
};
use crate::scripts::{
    event_views, node_views, relation_views, BootstrapData, NodeRecord, RelationRecord,
    SourceChangeEvent,
};
use crate::sequence::{NextStep, NextStepView};
use crate::sources::model_data_generators::change_stream::{
    element_views, ChangeStep, ChangeStepView, ElementInsert, ExternalState, ProcessedChangeEvent,
    StreamSettings,
};
use crate::sources::model_data_generators::generator_driver::{
    ActionView, GeneratorAction, Reply, ReplyView,
};
use crate::sources::model_data_generators::graph_elements::GraphRelation;
use crate::sources::source_change_dispatchers::direct_format::{
    http_views, DirectElement, HttpChangeEvent,
};
use crate::sources::source_change_dispatchers::grpc_dispatcher::{
    change_views, GrpcDispatchPlan, GrpcPlanView,
};
use crate::sources::source_change_dispatchers::http_dispatcher::{HttpDispatchPlan, HttpPlanView};
use crate::test_repo_storage::storage::{path_views, PathList};
use crate::test_run_completion::completion_handlers::final_state_check::{
    CheckAction, CheckActionView,
};
use crate::test_run_completion::completion_handlers::final_state_manifest::{
    row_views, FinalStateReaction, FinalStateReactionVerdict,
};
use crate::test_run_completion::completion_handlers::sha256_determinism::OrderedReactionVerdict;
use crate::test_run_completion::completion_monitor::{told_views, MonitorAction, MonitorActionView};
use crate::test_run_host::{
    by_name, config_views, id_views, kind_views, step_views, ComponentKind, HostError,
    HostErrorView, RunChangeEnd, RunChangeEndView, RunStatusView, RunStep, RunStepView, SourceEvent,
    SourceEventView, TestRun, TestRunComponentConfig, TestRunStatus,
};
use crate::text::{option_text, texts};
use vstd::prelude::*;

verus! {

/// What an event is told by.
pub proof fn lemma_event_view(event: SourceChangeEvent)
    ensures
        event@.op == event.op@,
        event@.reactivator_start_ns == event.reactivator_start_ns,
        event@.reactivator_end_ns == event.reactivator_end_ns,
        event@.db == event.payload.source.db@,
        event@.lsn == event.payload.source.lsn,
        event@.table == event.payload.source.table@,
        event@.ts_ns == event.payload.source.ts_ns,
        event@.before == event.payload.before@,
        event@.after == event.payload.after@,
{
}

/// What a node and a relation of initial data are told by.
pub proof fn lemma_record_views(node: NodeRecord, relation: RelationRecord)
    ensures
        node@.id == node.id@,
        node@.labels == texts(node.labels@),
        node@.properties == node.properties@,
        relation@.id == relation.id@,
        relation@.labels == texts(relation.labels@),
        relation@.properties == relation.properties@,
        relation@.start_id == relation.start_id@,
        relation@.start_label == option_text(relation.start_label),
        relation@.end_id == relation.end_id@,
        relation@.end_label == option_text(relation.end_label),
{
}

/// What initial data are told by.
pub proof fn lemma_bootstrap_view(data: BootstrapData)
    ensures
        data@.nodes.len() == data.nodes@.len(),
        data@.rels.len() == data.rels@.len(),
        forall|i: int|
            0 <= i < data.nodes@.len() ==> #[trigger] data@.nodes[i] == (
                data.nodes@[i].0@,
                node_views(data.nodes@[i].1@),
            ),
        forall|i: int|
            0 <= i < data.rels@.len() ==> #[trigger] data@.rels[i] == (
                data.rels@[i].0@,
                relation_views(data.rels@[i].1@),
            ),
{
}

/// What a relation of a model and an element to be inserted are told by.
pub proof fn lemma_model_views(relation: GraphRelation, element: ElementInsert)
    ensures
        relation@.id == relation.id@,
        relation@.labels == texts(relation.labels@),
        relation@.start_id == relation.start_id@,
        relation@.end_id == relation.end_id@,
        element@.is_relation == element.is_relation,
        element@.after == element.after@,
{
}

/// What a change to be sent over HTTP is told by.
pub proof fn lemma_http_change_view(element: DirectElement, change: HttpChangeEvent)
    ensures
        element@.element_type == element.element_type@,
        element@.id == element.id@,
        element@.labels == texts(element.labels@),
        element@.properties == entry_views(element.properties@),
        element@.from == option_text(element.from),
        element@.to == option_text(element.to),
        change@.operation == change.operation@,
        change.element matches Some(element) ==> change@.element == Some(element@),
        change.element is None ==> change@.element is None,
        change@.id == option_text(change.id),
        change.labels matches Some(labels) ==> change@.labels == Some(texts(labels@)),
        change.labels is None ==> change@.labels is None,
        change@.timestamp == change.timestamp,
{
}

/// What a plan to send changes is told by.
pub proof fn lemma_plan_views(http: HttpDispatchPlan, grpc: GrpcDispatchPlan)
    ensures
        match http {
            HttpDispatchPlan::Nothing => http@ == HttpPlanView::Nothing,
            HttpDispatchPlan::Batch { url, changes } => http@ == (HttpPlanView::Batch {
                url: url@,
                changes: http_views(changes@),
            }),
            HttpDispatchPlan::Each { url, changes } => http@ == (HttpPlanView::Each {
                url: url@,
                changes: http_views(changes@),
            }),
        },
        match grpc {
            GrpcDispatchPlan::Nothing => grpc@ == GrpcPlanView::Nothing,
            GrpcDispatchPlan::Batch(changes) => grpc@ == GrpcPlanView::Batch(
                change_views(changes@),
            ),
            GrpcDispatchPlan::Each(changes) => grpc@ == GrpcPlanView::Each(change_views(changes@)),
        },
{
}

/// What an element to be sent to a gRPC source is told by.
pub proof fn lemma_element_view(reference: ElementReference, element: Element)
    ensures
        reference@.source_id == reference.source_id@,
        reference@.element_id == reference.element_id@,
        match element {
            Element::Node { metadata, properties } => element@ matches ElementModel::Node {
                metadata: m,
                properties: p,
            } && m.reference == metadata.reference@ && m.labels == texts(metadata.labels@)
                && m.effective_from == metadata.effective_from && p == entry_views(properties@),
            Element::Relation {
                metadata,
                in_node,
                out_node,
                properties,
            } => element@ matches ElementModel::Relation {
                metadata: m,
                in_node: i,
                out_node: o,
                properties: p,
            } && m.reference == metadata.reference@ && m.labels == texts(metadata.labels@)
                && m.effective_from == metadata.effective_from && i == in_node@ && o == out_node@
                && p == entry_views(properties@),
        },
{
}

/// What a change to be sent to a gRPC source is told by.
pub proof fn lemma_source_change_view(change: SourceChange)
    ensures
        change@.change_type == change.change_type,
        change@.timestamp_seconds == change.timestamp_seconds,
        change@.timestamp_nanos == change.timestamp_nanos,
        change@.source_id == change.source_id@,
        match change.change {
            Some(Change::Element(element)) => change@.change == Some(
                ChangeModel::Element(element@),
            ),
            Some(Change::Metadata(metadata)) => change@.change == Some(
                ChangeModel::Metadata(metadata@),
            ) && metadata@.reference == metadata.reference@ && metadata@.labels == texts(
                metadata.labels@,
            ) && metadata@.effective_from == metadata.effective_from,
            None => change@.change is None,
        },
{
}

/// What a value is told by.
pub proof fn lemma_json_view(json: Json)
    ensures
        match json {
            Json::Null => json@ == JsonView::Null,
            Json::Bool(b) => json@ == JsonView::Bool(b),
            Json::Unsigned(n) => json@ == JsonView::Integer(n as int),
            Json::Signed(n) => json@ == JsonView::Integer(n as int),
            Json::Float(f) => json@ == JsonView::Float(f@),
            Json::Text(s) => json@ == JsonView::Text(s@),
            Json::Array(items) => json@ == JsonView::Array(json_views(items@)),
            Json::Object(fields) => json@ == JsonView::Object(entry_views(fields@)),
        },
{
    match json {
        Json::Array(items) => {
            crate::json::lemma_array_view(items);
        },
        Json::Object(fields) => {
            crate::json::lemma_object_view(fields);
        },
        _ => {},
    }
}

/// What a value to be sent is told by.
pub proof fn lemma_proto_view(value: ProtoValue)
    ensures
        match value {
            ProtoValue::Null => value@ == ProtoView::Null,
            ProtoValue::Bool(b) => value@ == ProtoView::Bool(b),
            ProtoValue::Signed(n) => value@ == ProtoView::Integer(n as int),
            ProtoValue::Unsigned(n) => value@ == ProtoView::Integer(n as int),
            ProtoValue::Float(f) => value@ == ProtoView::Float(f@),
            ProtoValue::Text(s) => value@ == ProtoView::Text(s@),
            ProtoValue::List(items) => value@ == ProtoView::List(proto_views(items@)),
            ProtoValue::Struct(fields) => value@ == ProtoView::Struct(entry_views(fields@)),
        },
{
    match value {
        ProtoValue::List(items) => {
            crate::grpc_converters::lemma_list_view(items);
        },
        ProtoValue::Struct(fields) => {
            crate::grpc_converters::lemma_struct_view(fields);
        },
        _ => {},
    }
}

/// What a value that was received is told by.
pub proof fn lemma_received_view(value: ReceivedValue)
    ensures
        match value {
            ReceivedValue::Unset => value@ == ReceivedView::Unset,
            ReceivedValue::Null => value@ == ReceivedView::Null,
            ReceivedValue::Bool(b) => value@ == ReceivedView::Bool(b),
            ReceivedValue::Number(f) => value@ == ReceivedView::Number(f@),
            ReceivedValue::NotFinite => value@ == ReceivedView::NotFinite,
            ReceivedValue::Text(s) => value@ == ReceivedView::Text(s@),
            ReceivedValue::List(items) => value@ == ReceivedView::List(received_views(items@)),
            ReceivedValue::Struct(fields) => value@ == ReceivedView::Struct(entry_views(fields@)),
        },
{
    match value {
        ReceivedValue::List(items) => {
            crate::grpc_converters::lemma_received_list_view(items);
        },
        ReceivedValue::Struct(fields) => {
            crate::grpc_converters::lemma_received_struct_view(fields);
        },
        _ => {},
    }
}

/// What the state and the settings of a change stream are told by.
pub proof fn lemma_stream_views(
    state: ExternalState,
    processed: ProcessedChangeEvent,
    settings: StreamSettings,
)
    ensures
        state@.error_messages == texts(state.error_messages@),
        state@.event_seq_num == state.event_seq_num,
        state.next_event matches Some(event) ==> state@.next_event == Some(event@),
        state.next_event is None ==> state@.next_event is None,
        state.previous_event matches Some(event) ==> state@.previous_event == Some(event@),
        state.previous_event is None ==> state@.previous_event is None,
        state@.skips_remaining == state.skips_remaining,
        state@.steps_remaining == state.steps_remaining,
        state@.spacing_mode == state.spacing_mode,
        state@.time_mode == state.time_mode,
        state@.stats == state.stats,
        state@.status == state.status,
        state@.test_run_source_id == state.test_run_source_id@,
        state@.virtual_time_ns_current == state.virtual_time_ns_current,
        state@.virtual_time_ns_next == state.virtual_time_ns_next,
        state@.virtual_time_ns_rebase_adjustment == state.virtual_time_ns_rebase_adjustment,
        state@.virtual_time_ns_start == state.virtual_time_ns_start,
        processed@.dispatch_status == processed.dispatch_status,
        processed@.event == processed.event@,
        processed@.seq == processed.seq,
        settings@.test_run_source_id == settings.test_run_source_id@,
        settings@.test_source_id == settings.test_source_id@,
        settings@.change_count == settings.change_count,
        settings@.spacing_mode == settings.spacing_mode,
        settings@.time_mode == settings.time_mode,
        settings@.send_initial_inserts == settings.send_initial_inserts,
        settings@.failures == settings.failures,
{
}

/// What the steps and actions of a generator are told by.
pub proof fn lemma_generator_views(step: ChangeStep, action: GeneratorAction, reply: Reply)
    ensures
        match step {
            ChangeStep::Dispatch(event) => step@ == ChangeStepView::Dispatch(event@),
            ChangeStep::Skip(event) => step@ == ChangeStepView::Skip(event@),
            ChangeStep::Nothing => step@ == ChangeStepView::Nothing,
            ChangeStep::Failed(message) => step@ == ChangeStepView::Failed(message@),
        },
        match action {
            GeneratorAction::Wait => action@ == ActionView::Wait,
            GeneratorAction::Reply(reply) => action@ == ActionView::Reply(reply@),
            GeneratorAction::ConfigureDispatchers => action@ == ActionView::ConfigureDispatchers,
            GeneratorAction::ListElements => action@ == ActionView::ListElements,
            GeneratorAction::Dispatch(events) => action@ == ActionView::Dispatch(
                event_views(events@),
            ),
            GeneratorAction::AwaitRate => action@ == ActionView::AwaitRate,
            GeneratorAction::DrawInterval => action@ == ActionView::DrawInterval,
            GeneratorAction::GenerateUpdate(due_ns) => action@ == ActionView::GenerateUpdate(
                due_ns,
            ),
            GeneratorAction::Send(message) => action@ == ActionView::Send(message),
            GeneratorAction::Close => action@ == ActionView::Close,
            GeneratorAction::CloseToRebuild => action@ == ActionView::CloseToRebuild,
            GeneratorAction::Rebuild => action@ == ActionView::Rebuild,
            GeneratorAction::Overflow => action@ == ActionView::Overflow,
            GeneratorAction::Exit => action@ == ActionView::Exit,
        },
        match reply {
            Reply::Done => reply@ == ReplyView::Done,
            Reply::Refused(error) => reply@ == ReplyView::Refused(error),
            Reply::Failed(message) => reply@ == ReplyView::Failed(message@),
        },
{
}

/// What a request and what is recorded of it are told by.
pub proof fn lemma_reaction_views(invocation: ReactionInvocation, request: ReactionRequest)
    ensures
        invocation@.value == invocation.value@,
        invocation@.timestamp_ns == invocation.timestamp_ns,
        invocation@.invocation_id == invocation.invocation_id@,
        invocation@.metadata == invocation.metadata@,
        request@.method == request.method@,
        request@.path == request.path@,
        request@.headers == request.headers@,
{
}

/// What a change of a row is told by.
pub proof fn lemma_row_change_view(change: RowChange)
    ensures
        match change {
            RowChange::Add(after) => change@ == RowChangeView::Add(after@),
            RowChange::Update { before, after } => change@ == (RowChangeView::Update {
                before: before@,
                after: after@,
            }),
            RowChange::Delete(before) => change@ == RowChangeView::Delete(before@),
        },
{
}

/// What a row and the summary of a final state are told by.
pub proof fn lemma_summary_view(row: FinalStateRow, summary: FinalStateSummary)
    ensures
        row@.query_id == row.query_id@,
        row@.sha256 == row.sha256@,
        row@.value == row.value@,
        summary@.mode == summary.mode@,
        summary@.sha256 == summary.sha256@,
        summary@.row_count == summary.row_count,
        summary@.change_count == summary.change_count,
        summary@.duplicate_count == summary.duplicate_count,
        summary@.upsert_count == summary.upsert_count,
        summary@.missing_before_count == summary.missing_before_count,
        summary@.skipped_record_count == summary.skipped_record_count,
        summary@.normalization_error_count == summary.normalization_error_count,
        summary@.normalization_errors == texts(summary.normalization_errors@),
        summary@.key_fields == texts(summary.key_fields@),
        summary@.query_ids == texts(summary.query_ids@),
        summary@.rows == row_views(summary.rows@),
{
    assert(summary@.rows =~= row_views(summary.rows@));
}

/// What a stored final state is told by.
pub proof fn lemma_stored_state_view(reaction: FinalStateReaction)
    ensures
        reaction@.mode == reaction.mode@,
        reaction@.sha256 == reaction.sha256@,
        reaction@.row_count == reaction.row_count,
        reaction@.change_count == reaction.change_count,
        reaction@.duplicate_count == reaction.duplicate_count,
        reaction@.missing_before_count == reaction.missing_before_count,
        reaction@.skipped_record_count == reaction.skipped_record_count,
        reaction@.normalization_error_count == reaction.normalization_error_count,
        reaction@.normalization_errors == texts(reaction.normalization_errors@),
        reaction@.query_ids == texts(reaction.query_ids@),
        reaction@.rows == row_views(reaction.rows@),
{
}

/// What the verdicts on reactions are told by.
pub proof fn lemma_verdict_views(
    verdict: FinalStateReactionVerdict,
    ordered: OrderedReactionVerdict,
)
    ensures
        verdict@.passed == verdict.passed,
        verdict@.expected_sha256 == option_text(verdict.expected_sha256),
        verdict@.actual_sha256 == option_text(verdict.actual_sha256),
        verdict.expected_row_count matches Some(n) ==> verdict@.expected_row_count == Some(
            n as nat,
        ),
        verdict.expected_row_count is None ==> verdict@.expected_row_count is None,
        verdict.actual_row_count matches Some(n) ==> verdict@.actual_row_count == Some(n as nat),
        verdict.actual_row_count is None ==> verdict@.actual_row_count is None,
        verdict@.missing_rows == row_views(verdict.missing_rows@),
        verdict@.unexpected_rows == row_views(verdict.unexpected_rows@),
        verdict@.missing_row_count == verdict.missing_row_count,
        verdict@.unexpected_row_count == verdict.unexpected_row_count,
        verdict.actual_duplicate_count matches Some(n) ==> verdict@.actual_duplicate_count == Some(
            n as nat,
        ),
        verdict.actual_duplicate_count is None ==> verdict@.actual_duplicate_count is None,
        verdict.actual_missing_before_count matches Some(n)
            ==> verdict@.actual_missing_before_count == Some(n as nat),
        verdict.actual_missing_before_count is None ==> verdict@.actual_missing_before_count
            is None,
        ordered@.reaction_id == ordered.reaction_id@,
        ordered@.actual == option_text(ordered.actual),
        ordered@.expected == option_text(ordered.expected),
        ordered@.passed == ordered.passed,
{
}

/// What the actions at a test run's completion are told by.
pub proof fn lemma_completion_views(check: CheckAction, monitor: MonitorAction)
    ensures
        match check {
            CheckAction::WriteCandidate => check@ == CheckActionView::WriteCandidate,
            CheckAction::ReadGolden => check@ == CheckActionView::ReadGolden,
            CheckAction::WriteVerdict => check@ == CheckActionView::WriteVerdict,
            CheckAction::Finish(result) => match result {
                Ok(_) => check@ == CheckActionView::Finish(Ok(())),
                Err(error) => check@ == CheckActionView::Finish(Err(error@)),
            },
        },
        match monitor {
            MonitorAction::Wait => monitor@ == MonitorActionView::Wait,
            MonitorAction::Tell(events) => monitor@ == MonitorActionView::Tell(
                told_views(events@),
            ),
            MonitorAction::Collect => monitor@ == MonitorActionView::Collect,
            MonitorAction::Handle(index) => monitor@ == MonitorActionView::Handle(index as nat),
            MonitorAction::Fail(status) => monitor@ == MonitorActionView::Fail(status@),
            MonitorAction::End => monitor@ == MonitorActionView::End,
        },
{
}

/// What test runs and their components are told by.
pub proof fn lemma_run_views(
    id: TestRunId,
    source: TestRunSourceId,
    run: TestRun,
    config: TestRunComponentConfig,
)
    ensures
        id@.test_repo_id == id.test_repo_id@,
        id@.test_id == id.test_id@,
        id@.test_run_id == id.test_run_id@,
        source@.test_run_id == source.test_run_id@,
        source@.test_source_id == source.test_source_id@,
        run@.status == run.status@,
        run@.drasi_lib_instances == by_name(run.drasi_lib_instances@),
        run@.queries == by_name(run.queries@),
        run@.reactions == by_name(run.reactions@),
        run@.sources == by_name(run.sources@),
        config@.component_id == config.component_id@,
        config@.test_id == option_text(config.test_id),
        config@.test_repo_id == option_text(config.test_repo_id),
        config@.test_run_id == option_text(config.test_run_id),
        config@.starts_with_run == config.starts_with_run,
{
}

/// What the steps of a test run are told by.
pub proof fn lemma_step_views(step: RunStep, next: NextStep, end: RunChangeEnd)
    ensures
        match step {
            RunStep::StartInstance(id) => step@ == RunStepView::StartInstance(id@),
            RunStep::StartSource(id) => step@ == RunStepView::StartSource(id@),
            RunStep::StartQuery(id) => step@ == RunStepView::StartQuery(id@),
            RunStep::StartReaction(id) => step@ == RunStepView::StartReaction(id@),
            RunStep::StopReaction(id) => step@ == RunStepView::StopReaction(id@),
            RunStep::StopQuery(id) => step@ == RunStepView::StopQuery(id@),
            RunStep::StopSource(id) => step@ == RunStepView::StopSource(id@),
            RunStep::StopInstance(id) => step@ == RunStepView::StopInstance(id@),
            RunStep::HandHostToSource(id) => step@ == RunStepView::HandHostToSource(id@),
            RunStep::HandHostToReaction(id) => step@ == RunStepView::HandHostToReaction(id@),
            RunStep::AwaitReactions => step@ == RunStepView::AwaitReactions,
        },
        match next {
            NextStep::Take(index) => next@ == NextStepView::Take(index as nat),
            NextStep::Done => next@ == NextStepView::Done,
            NextStep::Failed(message) => next@ == NextStepView::Failed(message@),
        },
        match end {
            RunChangeEnd::Changed => end@ == RunChangeEndView::Changed,
            RunChangeEnd::Failed(message) => end@ == RunChangeEndView::Failed(message@),
            RunChangeEnd::Unfinished => end@ == RunChangeEndView::Unfinished,
        },
{
}

/// What statuses, events and errors of the host are told by.
pub proof fn lemma_status_views(status: TestRunStatus, event: SourceEvent, error: HostError)
    ensures
        match status {
            TestRunStatus::Initialized => status@ == RunStatusView::Initialized,
            TestRunStatus::Running => status@ == RunStatusView::Running,
            TestRunStatus::Stopped => status@ == RunStatusView::Stopped,
            TestRunStatus::Error(message) => status@ == RunStatusView::Error(message@),
        },
        match event {
            SourceEvent::Started => event@ == SourceEventView::Started,
            SourceEvent::Paused => event@ == SourceEventView::Paused,
            SourceEvent::Stopped => event@ == SourceEventView::Stopped,
            SourceEvent::Finished => event@ == SourceEventView::Finished,
            SourceEvent::Error(message) => event@ == SourceEventView::Error(message@),
        },
        match error {
            HostError::HostInError(message) => error@ == HostErrorView::HostInError(message@),
            HostError::RunExists => error@ == HostErrorView::RunExists,
            HostError::RunNotFound => error@ == HostErrorView::RunNotFound,
            HostError::ComponentExists(kind, id) => error@ == HostErrorView::ComponentExists(
                kind,
                id@,
            ),
            HostError::ComponentNotFound(kind) => error@ == HostErrorView::ComponentNotFound(kind),
        },
{
}

/// The model of a list of events, elements or records tells them one by one.
pub proof fn lemma_lists_of_events(
    events: Seq<SourceChangeEvent>,
    elements: Seq<ElementInsert>,
    nodes: Seq<NodeRecord>,
    relations: Seq<RelationRecord>,
)
    ensures
        event_views(events).len() == events.len(),
        forall|i: int| 0 <= i < events.len() ==> #[trigger] event_views(events)[i] == events[i]@,
        element_views(elements).len() == elements.len(),
        forall|i: int|
            0 <= i < elements.len() ==> #[trigger] element_views(elements)[i] == elements[i]@,
        node_views(nodes).len() == nodes.len(),
        forall|i: int| 0 <= i < nodes.len() ==> #[trigger] node_views(nodes)[i] == nodes[i]@,
        relation_views(relations).len() == relations.len(),
        forall|i: int|
            0 <= i < relations.len() ==> #[trigger] relation_views(relations)[i] == relations[i]@,
{
}

/// The model of a list of changes to be sent tells them one by one.
pub proof fn lemma_lists_of_changes(
    http: Seq<HttpChangeEvent>,
    grpc: Seq<SourceChange>,
    rows: Seq<RowChange>,
)
    ensures
        http_views(http).len() == http.len(),
        forall|i: int| 0 <= i < http.len() ==> #[trigger] http_views(http)[i] == http[i]@,
        change_views(grpc).len() == grpc.len(),
        forall|i: int| 0 <= i < grpc.len() ==> #[trigger] change_views(grpc)[i] == grpc[i]@,
        final_state::change_views(rows).len() == rows.len(),
        forall|i: int| 0 <= i < rows.len() ==> #[trigger] final_state::change_views(rows)[i] == rows[i]@,
{
}

/// The model of a list of values tells them one by one.
pub proof fn lemma_lists_of_values(
    json: Seq<Json>,
    proto: Seq<ProtoValue>,
    received: Seq<ReceivedValue>,
    strings: Seq<String>,
    fields: Seq<(String, Json)>,
)
    ensures
        json_views(json).len() == json.len(),
        forall|i: int| 0 <= i < json.len() ==> #[trigger] json_views(json)[i] == json[i]@,
        proto_views(proto).len() == proto.len(),
        forall|i: int| 0 <= i < proto.len() ==> #[trigger] proto_views(proto)[i] == proto[i]@,
        received_views(received).len() == received.len(),
        forall|i: int|
            0 <= i < received.len() ==> #[trigger] received_views(received)[i] == received[i]@,
        texts(strings).len() == strings.len(),
        forall|i: int| 0 <= i < strings.len() ==> #[trigger] texts(strings)[i] == strings[i]@,
        entry_views(fields).len() == fields.len(),
        forall|i: int|
            0 <= i < fields.len() ==> #[trigger] entry_views(fields)[i] == (
                fields[i].0@,
                fields[i].1@,
            ),
{
}

/// The model of a list of what is recorded, kept or compared tells it one by one.
pub proof fn lemma_lists_of_records(
    invocations: Seq<ReactionInvocation>,
    rows: Seq<FinalStateRow>,
    paths: PathList,
    told: Seq<(String, SourceEvent)>,
)
    ensures
        invocation_views(invocations).len() == invocations.len(),
        forall|i: int|
            0 <= i < invocations.len() ==> #[trigger] invocation_views(invocations)[i]
                == invocations[i]@,
        row_views(rows).len() == rows.len(),
        forall|i: int| 0 <= i < rows.len() ==> #[trigger] row_views(rows)[i] == rows[i]@,
        paths@ == path_views(paths.paths@),
        paths@.len() == paths.paths@.len(),
        forall|i: int| 0 <= i < paths.paths@.len() ==> #[trigger] paths@[i] == paths.paths@[i]@,
        told_views(told).len() == told.len(),
        forall|i: int|
            0 <= i < told.len() ==> #[trigger] told_views(told)[i] == (told[i].0@, told[i].1@),
{
}

/// The model of a list of steps, runs or components tells them one by one.
pub proof fn lemma_lists_of_steps(
    steps: Seq<RunStep>,
    ids: Seq<TestRunId>,
    configs: Seq<TestRunComponentConfig>,
    created: Seq<(ComponentKind, TestRunComponentConfig)>,
)
    ensures
        step_views(steps).len() == steps.len(),
        forall|i: int| 0 <= i < steps.len() ==> #[trigger] step_views(steps)[i] == steps[i]@,
        id_views(ids).len() == ids.len(),
        forall|i: int| 0 <= i < ids.len() ==> #[trigger] id_views(ids)[i] == ids[i]@,
        config_views(configs).len() == configs.len(),
        forall|i: int|
            0 <= i < configs.len() ==> #[trigger] config_views(configs)[i] == configs[i]@,
        kind_views(created).len() == created.len(),
        forall|i: int|
            0 <= i < created.len() ==> #[trigger] kind_views(created)[i] == (
                created[i].0,
                created[i].1@,
            ),
{
}

} // verus!
