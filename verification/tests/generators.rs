use e2e_test_framework::ids::{TestRunId, TestRunSourceId};
use e2e_test_framework::json::{parse_json, to_value, Json};
use e2e_test_framework::reactions::output_loggers::canonical_json::sort_json_keys;
use e2e_test_framework::scripts::{NodeRecord, SourceChangeEvent};
use e2e_test_framework::sources::model_data_generators::building_hierarchy;
use e2e_test_framework::sources::model_data_generators::building_hierarchy::{
    BuildingHierarchyDataGeneratorSettings, GraphElementType,
};
use e2e_test_framework::sources::model_data_generators::change_stream::{
    clamp_interval, ChangeStep, ChangeStream, CommandStep, FailurePolicy, FollowUp, GeneratorCommand,
    GeneratorError, ModelUpdate, ScheduledChangeEventMessage, StreamSettings,
};
use e2e_test_framework::sources::model_data_generators::graph_elements::GraphRelation;
use e2e_test_framework::sources::model_data_generators::stock_trades;
use e2e_test_framework::sources::model_data_generators::stock_trades::StockTradeDataGeneratorSettings;
use e2e_test_framework::sources::source_change_generators::SourceChangeGeneratorStatus;
use e2e_test_framework::test_repo_storage::models::{
    BuildingHierarchyDataGeneratorDefinition, CommonModelDataGeneratorDefinition, FloatBits,
    SpacingMode, StockTradeDataGeneratorDefinition, TimeMode,
};

fn settings(change_count: u64, time_mode: TimeMode, failures: FailurePolicy) -> StreamSettings {
    StreamSettings {
        test_run_source_id: "repo.test.run.src".to_string(),
        test_source_id: "src".to_string(),
        change_count,
        spacing_mode: SpacingMode::Unspaced,
        time_mode,
        send_initial_inserts: false,
        failures,
    }
}

fn stream(change_count: u64) -> ChangeStream {
    ChangeStream::new(settings(change_count, TimeMode::Live, FailurePolicy::Ignore))
}

fn json(text: &str) -> Json {
    parse_json(text).unwrap()
}

/// Schedules the next change and returns its message.
fn schedule(stream: &mut ChangeStream, now_ns: u64, interval: u64) -> Option<ScheduledChangeEventMessage> {
    let interval = if stream.needs_interval() {
        Some(interval)
    } else {
        None
    };
    assert!(stream.can_schedule(now_ns, interval));
    stream.schedule_times(now_ns, interval);
    stream
        .schedule_update(
            now_ns,
            ModelUpdate::Updated {
                before: json(r#"{"v": 1}"#),
                after: json(r#"{"v": 2}"#),
            },
        )
        .unwrap()
}

/// Processes a change that is due and returns the event that was dispatched, if any.
fn process(
    stream: &mut ChangeStream,
    message: ScheduledChangeEventMessage,
    now_ns: u64,
) -> (Option<SourceChangeEvent>, FollowUp) {
    assert!(stream.accepts(message));
    let (event, dispatched) = match stream.begin_change(now_ns) {
        ChangeStep::Dispatch(event) => (event.copy(), Some(event)),
        ChangeStep::Skip(event) => (event, None),
        other => panic!("no change was taken up: {other:?}"),
    };
    assert!(stream.ready_to_complete());
    let follow_up = stream
        .complete_change(event, message.seq_num, now_ns, Ok(()))
        .unwrap();
    (dispatched, follow_up)
}

#[test]
fn a_running_stream_finishes_at_its_change_count() {
    let mut stream = stream(3);
    assert_eq!(stream.status(), SourceChangeGeneratorStatus::Paused);
    assert_eq!(
        stream.on_command(GeneratorCommand::Start, 1),
        CommandStep::Schedule
    );
    let mut message = schedule(&mut stream, 1000, 0).unwrap();
    assert_eq!(message, ScheduledChangeEventMessage { delay_ns: 0, seq_num: 0 });
    for i in 0..3u64 {
        let (dispatched, follow_up) = process(&mut stream, message, 2000 + i);
        let event = dispatched.unwrap();
        assert_eq!(event.op, "u");
        assert_eq!(event.payload.source.lsn, i);
        assert_eq!(event.payload.source.db, "src");
        assert_eq!(event.payload.source.table, "node");
        assert_eq!(event.payload.source.ts_ns, 1000 + 10 * i);
        assert_eq!(event.reactivator_end_ns, 2000 + i);
        // The same message is not due again.
        assert!(!stream.accepts(message));
        if i < 2 {
            assert_eq!(follow_up, FollowUp::Schedule);
            message = schedule(&mut stream, 3000, 10).unwrap();
            assert_eq!(message, ScheduledChangeEventMessage { delay_ns: 10, seq_num: i + 1 });
        } else {
            assert_eq!(follow_up, FollowUp::Close);
        }
    }
    assert_eq!(stream.status(), SourceChangeGeneratorStatus::Finished);
    stream.on_closed(Err("ignored".to_string())).unwrap();
    let state = stream.external_state();
    assert_eq!(state.stats.num_source_change_events, 3);
    assert_eq!(state.stats.actual_start_time_ns, 1000);
    assert_eq!(state.stats.actual_end_time_ns, 2002);
    assert_eq!(state.event_seq_num, 3);
    assert_eq!(state.previous_event.unwrap().seq, 2);
    assert_eq!(state.test_run_source_id, "repo.test.run.src");
    assert!(stream.can_summarize());
    let summary = stream.result_summary();
    assert_eq!(summary.run_duration_ns, 1002);
    assert_eq!(summary.num_source_change_events, 3);
    assert_eq!(summary.num_skipped_source_events, 0);
    assert_eq!(summary.actual_start_time, "1970-01-01T00:00:00.000001Z");
    assert_eq!(summary.actual_end_time, "1970-01-01T00:00:00.000002002Z");
    assert_eq!(summary.test_run_source_id, "repo.test.run.src");
}

#[test]
fn stepping_pauses_after_the_last_step() {
    let mut stream = stream(100);
    assert_eq!(
        stream.on_command(
            GeneratorCommand::Step { steps: 2, spacing_mode: None },
            1
        ),
        CommandStep::Schedule
    );
    let message = schedule(&mut stream, 10, 0).unwrap();
    let (dispatched, _) = process(&mut stream, message, 11);
    assert!(dispatched.is_some());
    assert_eq!(stream.status(), SourceChangeGeneratorStatus::Stepping);
    assert_eq!(
        stream.on_command(GeneratorCommand::Start, 1),
        CommandStep::Refuse(GeneratorError::CurrentlyStepping(1))
    );
    let message = schedule(&mut stream, 12, 5).unwrap();
    let (_, follow_up) = process(&mut stream, message, 13);
    assert_eq!(follow_up, FollowUp::Schedule);
    assert_eq!(stream.status(), SourceChangeGeneratorStatus::Paused);
    // The next change is made ready, but not sent while the stream is paused.
    assert!(schedule(&mut stream, 14, 5).is_none());
    assert!(stream.external_state().next_event.is_some());
}

#[test]
fn skipped_changes_are_counted_but_not_dispatched() {
    let mut stream = stream(100);
    stream.on_command(GeneratorCommand::Skip { skips: 2, spacing_mode: None }, 1);
    for i in 0..2 {
        let message = schedule(&mut stream, 10, 1).unwrap();
        let (dispatched, _) = process(&mut stream, message, 20 + i);
        assert!(dispatched.is_none());
    }
    assert_eq!(stream.status(), SourceChangeGeneratorStatus::Paused);
    let stats = stream.external_state().stats;
    assert_eq!(stats.num_source_change_events, 2);
    assert_eq!(stats.num_skipped_source_change_events, 2);
    assert_eq!(
        stream.on_command(GeneratorCommand::Skip { skips: 7, spacing_mode: None }, 1),
        CommandStep::Schedule
    );
    assert_eq!(
        stream.on_command(GeneratorCommand::Reset, 1),
        CommandStep::Refuse(GeneratorError::CurrentlySkipping(7))
    );
    assert_eq!(stream.on_command(GeneratorCommand::Pause, 1), CommandStep::Done);
    assert_eq!(stream.external_state().skips_remaining, 0);
}

#[test]
fn running_streams_pause_before_anything_else() {
    let mut stream = stream(100);
    stream.on_command(GeneratorCommand::Start, 1);
    for (command, refusal) in [
        (GeneratorCommand::Reset, GeneratorError::PauseToReset),
        (
            GeneratorCommand::Skip { skips: 1, spacing_mode: None },
            GeneratorError::PauseToSkip,
        ),
        (
            GeneratorCommand::Step { steps: 1, spacing_mode: None },
            GeneratorError::PauseToStep,
        ),
    ] {
        assert_eq!(stream.on_command(command, 1), CommandStep::Refuse(refusal));
    }
    assert_eq!(stream.on_command(GeneratorCommand::Start, 1), CommandStep::Done);
    assert_eq!(stream.on_command(GeneratorCommand::GetState, 1), CommandStep::Done);
    assert_eq!(
        stream.on_command(GeneratorCommand::SetTestRunHost, 1),
        CommandStep::ConfigureDispatchers
    );
    assert_eq!(stream.on_command(GeneratorCommand::Pause, 1), CommandStep::Done);
    assert_eq!(stream.status(), SourceChangeGeneratorStatus::Paused);
}

#[test]
fn only_a_reset_leads_out_of_the_end() {
    let mut stream = stream(100);
    stream.on_command(GeneratorCommand::Start, 1);
    let message = schedule(&mut stream, 10, 1).unwrap();
    assert_eq!(stream.on_command(GeneratorCommand::Stop, 77), CommandStep::Close);
    assert_eq!(stream.status(), SourceChangeGeneratorStatus::Stopped);
    assert_eq!(stream.external_state().stats.actual_end_time_ns, 77);
    assert!(!stream.accepts(message));
    assert_eq!(
        stream.on_command(GeneratorCommand::Start, 1),
        CommandStep::Refuse(GeneratorError::AlreadyStopped)
    );
    assert_eq!(stream.on_command(GeneratorCommand::GetState, 1), CommandStep::Done);
    assert_eq!(stream.on_command(GeneratorCommand::Reset, 1), CommandStep::Rebuild);
    assert_eq!(
        stream.on_rebuilt(Ok(()), Err("no model".to_string())).unwrap_err(),
        "no model"
    );
    assert_eq!(stream.status(), SourceChangeGeneratorStatus::Stopped);
    stream.on_rebuilt(Err("ignored".to_string()), Ok(())).unwrap();
    let state = stream.external_state();
    assert_eq!(state.status, SourceChangeGeneratorStatus::Paused);
    assert_eq!(state.event_seq_num, 0);
    assert!(state.next_event.is_none());
    assert_eq!(state.virtual_time_ns_next, 0);
}

#[test]
fn refusals_have_messages() {
    let name = "StockTradeDataGenerator";
    assert_eq!(
        GeneratorError::AlreadyFinished.text(name),
        "StockTradeDataGenerator is already finished. Reset to start over."
    );
    assert_eq!(
        GeneratorError::AlreadyStopped.text(name),
        "StockTradeDataGenerator is already stopped. Reset to start over."
    );
    assert_eq!(
        GeneratorError::CurrentlySkipping(12).text(name),
        "StockTradeDataGenerator is currently Skipping. 12 skips remaining. Pause before Skip, Step, or Reset."
    );
    assert_eq!(
        GeneratorError::CurrentlyStepping(3).text(name),
        "StockTradeDataGenerator is currently Stepping. 3 steps remaining. Pause before Skip, Step, or Reset."
    );
    assert_eq!(
        GeneratorError::Error(SourceChangeGeneratorStatus::Error).text(name),
        "StockTradeDataGenerator is currently in an Error state - Error"
    );
    assert_eq!(
        GeneratorError::PauseToSkip.text(name),
        "StockTradeDataGenerator is currently Running. Pause before trying to Skip."
    );
    assert_eq!(
        GeneratorError::PauseToStep.text(name),
        "StockTradeDataGenerator is currently Running. Pause before trying to Step."
    );
    assert_eq!(
        GeneratorError::PauseToReset.text(name),
        "StockTradeDataGenerator is currently Running. Pause before trying to Reset."
    );
}

#[test]
fn failures_are_reported_where_the_policy_says_so() {
    let mut stream =
        ChangeStream::new(settings(100, TimeMode::Recorded, FailurePolicy::Report));
    stream.on_command(GeneratorCommand::Start, 1);
    let message = schedule(&mut stream, 10, 1).unwrap();
    let event = match stream.begin_change(11) {
        ChangeStep::Dispatch(event) => event,
        other => panic!("{other:?}"),
    };
    let error = stream
        .complete_change(event, message.seq_num, 12, Err("unreachable".to_string()))
        .unwrap_err();
    assert_eq!(error, "unreachable");
    assert_eq!(stream.external_state().stats.num_source_change_events, 0);
    stream.on_change_failed(&error);
    let state = stream.external_state();
    assert_eq!(state.status, SourceChangeGeneratorStatus::Error);
    assert_eq!(
        state.error_messages,
        vec!["Error calling process_change_stream_message: unreachable".to_string()]
    );
    // A failure that was reported already is not reported again.
    stream.on_change_failed("again");
    assert_eq!(stream.external_state().error_messages.len(), 1);

    assert_eq!(
        stream.on_closed(Err("open".to_string())).unwrap_err(),
        "open"
    );
    assert_eq!(
        stream.external_state().error_messages[1],
        "Failed to close source dispatchers: open"
    );
    assert_eq!(
        stream.on_inserts_dispatched(4, Err("late".to_string())).unwrap_err(),
        "late"
    );
    assert_eq!(
        stream.external_state().error_messages[2],
        "Failed to send initial inserts: late"
    );
    assert_eq!(
        stream.on_command(GeneratorCommand::Pause, 1),
        CommandStep::Refuse(GeneratorError::Error(SourceChangeGeneratorStatus::Error))
    );
}

#[test]
fn failures_are_passed_over_where_the_policy_says_so() {
    let mut stream = stream(100);
    stream.on_command(GeneratorCommand::Start, 1);
    let message = schedule(&mut stream, 10, 1).unwrap();
    let event = match stream.begin_change(11) {
        ChangeStep::Dispatch(event) => event,
        other => panic!("{other:?}"),
    };
    stream
        .complete_change(event, message.seq_num, 12, Err("unreachable".to_string()))
        .unwrap();
    assert_eq!(stream.external_state().stats.num_source_change_events, 1);
    stream.on_change_failed("first");
    stream.on_change_failed("second");
    stream.on_command_failed("third");
    stream.on_commands_closed();
    stream.on_changes_closed();
    assert_eq!(
        stream.external_state().error_messages,
        vec![
            "Error calling process_change_stream_message: first".to_string(),
            "Error calling process_change_stream_message: second".to_string(),
            "Error calling process_command_message.: third".to_string(),
            "Command channel closed.".to_string(),
            "Change stream channel closed.".to_string(),
        ]
    );
}

#[test]
fn a_change_without_an_event_is_an_error() {
    let mut stream = stream(100);
    stream.on_command(GeneratorCommand::Start, 1);
    match stream.begin_change(5) {
        ChangeStep::Failed(message) => assert_eq!(message, "No next_event to process"),
        other => panic!("{other:?}"),
    }
    assert_eq!(stream.status(), SourceChangeGeneratorStatus::Error);
    assert!(!stream.ready_to_complete());
}

#[test]
fn steps_of_nothing_are_errors() {
    let mut stream = stream(100);
    stream.on_command(GeneratorCommand::Step { steps: 0, spacing_mode: None }, 1);
    schedule(&mut stream, 10, 1).unwrap();
    assert!(matches!(stream.begin_change(11), ChangeStep::Nothing));
    assert_eq!(
        stream.external_state().error_messages,
        vec!["Stepping with no steps remaining".to_string()]
    );
}

#[test]
fn model_failures_leave_the_event_as_it_was() {
    let mut stream = stream(100);
    for (update, message) in [
        (
            ModelUpdate::Unexpected("Other".to_string()),
            "Unexpected model change: Other",
        ),
        (ModelUpdate::Nothing, "No model change generated"),
        (ModelUpdate::Failed("broken".to_string()), "broken"),
    ] {
        assert_eq!(stream.schedule_update(1, update).unwrap_err(), message);
    }
    assert!(stream.external_state().next_event.is_none());
}

#[test]
fn rebased_streams_start_at_their_base() {
    let mut stream = ChangeStream::new(settings(
        10,
        TimeMode::Rebased(500),
        FailurePolicy::Ignore,
    ));
    stream.on_command(GeneratorCommand::Start, 1);
    let message = schedule(&mut stream, 2000, 0).unwrap();
    assert_eq!(message.delay_ns, 0);
    let state = stream.external_state();
    assert_eq!(state.virtual_time_ns_start, 500);
    assert_eq!(state.virtual_time_ns_next, 500);
    assert_eq!(state.virtual_time_ns_rebase_adjustment, -1500);
    assert_eq!(state.stats.actual_start_time_ns, 2000);
    process(&mut stream, message, 2001);
    assert!(!stream.can_schedule(2002, Some(u64::MAX)));
    assert!(!stream.can_schedule(2002, None));
}

#[test]
fn intervals_are_kept_within_bounds() {
    assert_eq!(clamp_interval(5, 10, 20), 10);
    assert_eq!(clamp_interval(15, 10, 20), 15);
    assert_eq!(clamp_interval(25, 10, 20), 20);
    assert_eq!(clamp_interval(15, 20, 10), 20);
}

fn source_id() -> TestRunSourceId {
    TestRunSourceId::new(&TestRunId::new("repo", "test", "run"), "src")
}

fn common() -> CommonModelDataGeneratorDefinition {
    CommonModelDataGeneratorDefinition {
        change_count: None,
        change_interval: None,
        seed: None,
        spacing_mode: SpacingMode::Rate(5),
        time_mode: TimeMode::Live,
    }
}

#[test]
fn building_settings_have_defaults() {
    let definition = BuildingHierarchyDataGeneratorDefinition {
        common: common(),
        building_count: None,
        floor_count: Some((7, FloatBits { bits: 1 })),
        room_count: None,
        room_sensors: vec![],
        send_initial_inserts: true,
    };
    let settings = BuildingHierarchyDataGeneratorSettings::with_seed(source_id(), definition, vec![], 99);
    assert_eq!(settings.building_count, (1, FloatBits { bits: 0f64.to_bits() }));
    assert_eq!(settings.floor_count, (7, FloatBits { bits: 1 }));
    assert_eq!(settings.room_count, (10, FloatBits { bits: 0 }));
    assert_eq!(settings.change_count, 100000);
    assert_eq!(
        settings.change_interval,
        (1000000000, FloatBits { bits: 0 }, u64::MIN, u64::MAX)
    );
    assert_eq!(settings.seed, 99);
    assert_eq!(settings.get_id().test_source_id, "src");
    let stream = settings.stream_settings("repo.test.run.src");
    assert_eq!(stream.failures, FailurePolicy::Ignore);
    assert!(stream.send_initial_inserts);
    assert_eq!(stream.spacing_mode, SpacingMode::Rate(5));
}

#[test]
fn stock_settings_have_defaults() {
    let definition = StockTradeDataGeneratorDefinition {
        common: common(),
        stock_definitions: vec![],
        price_init: None,
        price_change: None,
        price_momentum: None,
        price_range: None,
        volume_init: None,
        volume_change: None,
        volume_momentum: None,
        volume_range: None,
        send_initial_inserts: false,
    };
    let s = StockTradeDataGeneratorSettings::with_seed(source_id(), definition, vec![], 99);
    let f = |bits: FloatBits| f64::from_bits(bits.bits);
    assert_eq!((f(s.price_init.0), f(s.price_init.1)), (100.0, 10.0));
    assert_eq!((f(s.price_change.0), f(s.price_change.1)), (1.0, 2.0));
    assert_eq!(s.price_momentum.0, 5);
    assert_eq!((f(s.price_momentum.1), f(s.price_momentum.2)), (2.0, 0.3));
    assert_eq!((f(s.price_range.0), f(s.price_range.1)), (1.0, 10000.0));
    assert_eq!((s.volume_init.0, f(s.volume_init.1)), (1000000, 500000.0));
    assert_eq!((s.volume_change.0, f(s.volume_change.1)), (10000, 5000.0));
    assert_eq!(s.volume_momentum.0, 3);
    assert_eq!((f(s.volume_momentum.1), f(s.volume_momentum.2)), (1.0, 0.5));
    assert_eq!(s.volume_range, (0, 1000000000));
    assert_eq!(s.stream_settings("x").failures, FailurePolicy::Report);
    assert_eq!(s.get_id().test_run_id.test_id, "test");
}

fn node(id: &str, label: &str, properties: &str) -> NodeRecord {
    NodeRecord {
        id: id.to_string(),
        labels: vec![label.to_string()],
        properties: json(properties),
    }
}

fn relation(id: &str, from: &str, to: &str) -> GraphRelation {
    GraphRelation {
        id: id.to_string(),
        labels: vec!["L".to_string()],
        start_id: from.to_string(),
        end_id: to.to_string(),
    }
}

fn building_changes() -> Vec<building_hierarchy::ModelChange> {
    vec![
        building_hierarchy::ModelChange::BuildingAdded(node("b", "Building", r#"{"x": 1}"#)),
        building_hierarchy::ModelChange::FloorAdded(node("f", "Floor", r#"{"x": 1}"#)),
        building_hierarchy::ModelChange::RoomAdded(node("r", "Room", r#"{"t": 20}"#)),
        building_hierarchy::ModelChange::BuildingFloorRelationAdded(relation("bf", "b", "f")),
        building_hierarchy::ModelChange::FloorRoomRelationAdded(relation("fr", "f", "r")),
        building_hierarchy::ModelChange::Other("?".to_string()),
    ]
}

#[test]
fn initial_inserts_cover_the_whole_model() {
    let mut stream = stream(100);
    stream.on_command(GeneratorCommand::Start, 1);
    let events =
        building_hierarchy::send_initial_inserts(&mut stream, &building_changes(), 50).unwrap();
    assert_eq!(events.len(), 5);
    let after = |i: usize| to_value(&sort_json_keys(events[i].payload.after.copy())).to_string();
    assert_eq!(after(0), r#"{"id":"b","labels":["Building"],"properties":{}}"#);
    assert_eq!(after(1), r#"{"id":"f","labels":["Floor"],"properties":{}}"#);
    assert_eq!(after(2), r#"{"id":"r","labels":["Room"],"properties":{"t":20}}"#);
    assert_eq!(
        after(3),
        r#"{"end_id":"f","id":"bf","labels":["L"],"properties":{},"start_id":"b"}"#
    );
    assert_eq!(
        after(4),
        r#"{"end_id":"r","id":"fr","labels":["L"],"properties":{},"start_id":"f"}"#
    );
    for (i, event) in events.iter().enumerate() {
        assert_eq!(event.op, "i");
        assert_eq!(event.payload.source.lsn, i as u64);
        assert_eq!(event.payload.source.ts_ns, 0);
        assert_eq!(event.reactivator_start_ns, 50);
        assert_eq!(event.payload.before, Json::Null);
        let table = if i < 3 { "node" } else { "relation" };
        assert_eq!(event.payload.source.table, table);
    }
    stream.on_inserts_dispatched(events.len(), Ok(())).unwrap();
    let state = stream.external_state();
    assert_eq!(state.event_seq_num, 5);
    assert_eq!(state.stats.num_source_change_events, 5);
}

#[test]
fn bootstrap_data_are_grouped_by_label() {
    let labels = GraphElementType {
        building: "Building".to_string(),
        floor: "Floor".to_string(),
        room: "Room".to_string(),
        building_floor: "BF".to_string(),
        floor_room: "FR".to_string(),
    };
    let changes = building_changes();
    let data = building_hierarchy::get_data(&changes, &changes, &labels);
    let names: Vec<&str> = data.nodes.iter().map(|n| n.0.as_str()).collect();
    assert_eq!(names, vec!["Building", "Floor", "Room"]);
    let names: Vec<&str> = data.rels.iter().map(|n| n.0.as_str()).collect();
    assert_eq!(names, vec!["BF", "FR"]);
    assert_eq!(data.nodes[2].1[0].properties.get("t").unwrap().as_u64(), Some(20));
    assert!(data.nodes[0].1[0].properties.get("x").is_none());
    let rel = &data.rels[1].1[0];
    assert_eq!(rel.start_id, "f");
    assert_eq!(rel.start_label.as_deref(), Some("Floor"));
    assert_eq!(rel.end_label.as_deref(), Some("Room"));
    let empty = building_hierarchy::get_data(&vec![], &vec![], &labels);
    assert_eq!(empty.nodes.len(), 0);
    assert_eq!(empty.rels.len(), 0);

    let stocks = vec![
        stock_trades::ModelChange::StockAdded(node("s", "Stock", r#"{"p": 1}"#)),
        stock_trades::ModelChange::Other("?".to_string()),
    ];
    let data = stock_trades::get_data(&stocks);
    assert_eq!(data.nodes.len(), 1);
    assert_eq!(data.nodes[0].0, "Stock");
    let mut stream = stream(10);
    let events = stock_trades::send_initial_inserts(&mut stream, &stocks, 1).unwrap();
    assert_eq!(events.len(), 1);
    assert_eq!(
        to_value(&sort_json_keys(events[0].payload.after.copy())).to_string(),
        r#"{"id":"s","labels":["Stock"],"properties":{"p":1}}"#
    );
}

#[test]
fn only_updates_are_expected_of_a_model() {
    let shown = || "shown".to_string();
    assert!(matches!(
        building_hierarchy::model_update(
            Some(building_hierarchy::ModelChange::RoomUpdated(Json::Null, Json::Bool(true))),
            shown()
        ),
        ModelUpdate::Updated { before: Json::Null, after: Json::Bool(true) }
    ));
    assert!(matches!(
        building_hierarchy::model_update(
            Some(building_hierarchy::ModelChange::Other(shown())),
            shown()
        ),
        ModelUpdate::Unexpected(_)
    ));
    assert!(matches!(
        building_hierarchy::model_update(None, shown()),
        ModelUpdate::Nothing
    ));
    assert!(matches!(
        stock_trades::model_update(
            Some(stock_trades::ModelChange::StockUpdated(Json::Null, Json::Null)),
            shown()
        ),
        ModelUpdate::Updated { .. }
    ));
    assert!(matches!(
        stock_trades::model_update(
            Some(stock_trades::ModelChange::StockAdded(node("s", "S", "{}"))),
            shown()
        ),
        ModelUpdate::Unexpected(_)
    ));
    assert!(matches!(stock_trades::model_update(None, shown()), ModelUpdate::Nothing));
}

fn seeded_building(seed: Option<u64>) -> BuildingHierarchyDataGeneratorSettings {
    let definition = BuildingHierarchyDataGeneratorDefinition {
        common: CommonModelDataGeneratorDefinition { seed, ..common() },
        building_count: None,
        floor_count: None,
        room_count: None,
        room_sensors: vec![],
        send_initial_inserts: false,
    };
    BuildingHierarchyDataGeneratorSettings::new(source_id(), definition, vec![])
}

#[test]
fn seeds_are_drawn_where_none_is_named() {
    assert_eq!(seeded_building(Some(5)).seed, 5);
    let drawn: Vec<u64> = (0..8).map(|_| seeded_building(None).seed).collect();
    assert!(drawn.iter().any(|seed| *seed != drawn[0]));
    let definition = StockTradeDataGeneratorDefinition {
        common: CommonModelDataGeneratorDefinition { seed: Some(6), ..common() },
        stock_definitions: vec![],
        price_init: None,
        price_change: None,
        price_momentum: None,
        price_range: None,
        volume_init: None,
        volume_change: None,
        volume_momentum: None,
        volume_range: None,
        send_initial_inserts: false,
    };
    let settings = StockTradeDataGeneratorSettings::new(source_id(), definition, vec![]);
    assert_eq!(settings.seed, 6);
}
