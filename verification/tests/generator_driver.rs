use e2e_test_framework::json::{parse_json, Json};
use e2e_test_framework::sources::model_data_generators::building_hierarchy;
use e2e_test_framework::sources::model_data_generators::change_stream::{
    ElementInsert, FailurePolicy, GeneratorCommand, GeneratorError, ModelUpdate,
    ScheduledChangeEventMessage, StreamSettings,
};
use e2e_test_framework::sources::model_data_generators::generator_driver::{
    GeneratorAction, GeneratorDriver, GeneratorEvent, Reply,
};
use e2e_test_framework::sources::model_data_generators::stock_trades;
use e2e_test_framework::sources::source_change_generators::SourceChangeGeneratorStatus;
use e2e_test_framework::test_repo_storage::models::{SpacingMode, TimeMode};

fn driver(change_count: u64, send_initial_inserts: bool, failures: FailurePolicy) -> GeneratorDriver {
    GeneratorDriver::new(StreamSettings {
        test_run_source_id: "repo.test.run.src".to_string(),
        test_source_id: "src".to_string(),
        change_count,
        spacing_mode: SpacingMode::Unspaced,
        time_mode: TimeMode::Live,
        send_initial_inserts,
        failures,
    })
}

fn json(text: &str) -> Json {
    parse_json(text).unwrap()
}

fn update() -> GeneratorEvent {
    GeneratorEvent::ModelUpdated(ModelUpdate::Updated {
        before: json(r#"{"v": 1}"#),
        after: json(r#"{"v": 2}"#),
    })
}

/// Answers everything from the wait for the rate up to the message that is to be sent.
fn schedule(driver: &mut GeneratorDriver, now_ns: u64, interval: u64) -> ScheduledChangeEventMessage {
    let mut action = driver.handle(GeneratorEvent::RateReady, now_ns);
    if matches!(action, GeneratorAction::DrawInterval) {
        action = driver.handle(GeneratorEvent::IntervalDrawn(interval), now_ns + 1);
    }
    assert!(matches!(action, GeneratorAction::GenerateUpdate(_)));
    match driver.handle(update(), now_ns + 2) {
        GeneratorAction::Send(message) => message,
        other => panic!("a message was expected: {other:?}"),
    }
}

#[test]
fn a_run_inserts_then_changes_then_closes() {
    let mut driver = driver(4, true, FailurePolicy::Report);
    let command = GeneratorEvent::Command(GeneratorCommand::Start);
    assert!(matches!(driver.handle(command, 1), GeneratorAction::ListElements));
    let elements = vec![
        ElementInsert { is_relation: false, after: json(r#"{"id": "a"}"#) },
        ElementInsert { is_relation: true, after: json(r#"{"id": "r"}"#) },
    ];
    match driver.handle(GeneratorEvent::ElementsListed(elements), 5) {
        GeneratorAction::Dispatch(events) => {
            assert_eq!(events.len(), 2);
            assert_eq!(events[0].op, "i");
            assert_eq!(events[1].payload.source.table, "relation");
        }
        other => panic!("inserts were expected: {other:?}"),
    }
    // Nothing else is taken up before the inserts are through.
    let command = GeneratorEvent::Command(GeneratorCommand::Stop);
    assert!(matches!(driver.handle(command, 6), GeneratorAction::Wait));
    assert!(matches!(
        driver.handle(GeneratorEvent::Dispatched(Ok(())), 7),
        GeneratorAction::AwaitRate
    ));
    let message = schedule(&mut driver, 100, 0);
    assert!(matches!(
        driver.handle(GeneratorEvent::Sent(Ok(())), 103),
        GeneratorAction::Reply(Reply::Done)
    ));

    assert!(matches!(
        driver.handle(GeneratorEvent::ChangeDue(message), 110),
        GeneratorAction::Dispatch(_)
    ));
    assert!(matches!(
        driver.handle(GeneratorEvent::Dispatched(Ok(())), 111),
        GeneratorAction::AwaitRate
    ));
    let message = schedule(&mut driver, 120, 9);
    assert_eq!(message.delay_ns, 9);
    assert!(matches!(
        driver.handle(GeneratorEvent::Sent(Ok(())), 123),
        GeneratorAction::Wait
    ));
    assert!(matches!(
        driver.handle(GeneratorEvent::ChangeDue(message), 130),
        GeneratorAction::Dispatch(_)
    ));
    assert!(matches!(
        driver.handle(GeneratorEvent::Dispatched(Ok(())), 131),
        GeneratorAction::Close
    ));
    assert!(matches!(
        driver.handle(GeneratorEvent::Closed(Ok(())), 132),
        GeneratorAction::Wait
    ));
    assert_eq!(driver.stream().status(), SourceChangeGeneratorStatus::Finished);
    assert_eq!(driver.stream().external_state().stats.num_source_change_events, 4);
}

#[test]
fn commands_are_answered_once() {
    let mut driver = driver(10, false, FailurePolicy::Ignore);
    assert!(matches!(
        driver.handle(GeneratorEvent::Command(GeneratorCommand::GetState), 1),
        GeneratorAction::Reply(Reply::Done)
    ));
    assert!(matches!(
        driver.handle(GeneratorEvent::Command(GeneratorCommand::SetTestRunHost), 2),
        GeneratorAction::ConfigureDispatchers
    ));
    assert!(matches!(
        driver.handle(GeneratorEvent::DispatchersConfigured, 3),
        GeneratorAction::Reply(Reply::Done)
    ));
    assert!(matches!(
        driver.handle(GeneratorEvent::DispatchersConfigured, 4),
        GeneratorAction::Wait
    ));
    let command = GeneratorEvent::Command(GeneratorCommand::Stop);
    assert!(matches!(driver.handle(command, 5), GeneratorAction::Close));
    // A failure to close is passed over.
    assert!(matches!(
        driver.handle(GeneratorEvent::Closed(Err("broken".to_string())), 6),
        GeneratorAction::Reply(Reply::Done)
    ));
    assert!(matches!(
        driver.handle(GeneratorEvent::Command(GeneratorCommand::Start), 7),
        GeneratorAction::Reply(Reply::Refused(GeneratorError::AlreadyStopped))
    ));
    assert!(matches!(
        driver.handle(GeneratorEvent::Command(GeneratorCommand::Reset), 8),
        GeneratorAction::CloseToRebuild
    ));
    assert!(matches!(
        driver.handle(GeneratorEvent::Closed(Ok(())), 9),
        GeneratorAction::Rebuild
    ));
    assert!(matches!(
        driver.handle(GeneratorEvent::Rebuilt(Ok(())), 10),
        GeneratorAction::Reply(Reply::Done)
    ));
    assert_eq!(driver.stream().status(), SourceChangeGeneratorStatus::Paused);
}

#[test]
fn failures_are_answered_or_noted() {
    let mut failing = driver(10, false, FailurePolicy::Report);
    let command = GeneratorEvent::Command(GeneratorCommand::Start);
    assert!(matches!(failing.handle(command, 1), GeneratorAction::AwaitRate));
    let message = schedule(&mut failing, 10, 0);
    match failing.handle(GeneratorEvent::Sent(Err("closed".to_string())), 13) {
        GeneratorAction::Reply(Reply::Failed(error)) => {
            assert_eq!(error, "Error sending ScheduledChangeEventMessage: closed");
        }
        other => panic!("a failure was expected: {other:?}"),
    }
    assert!(matches!(
        failing.handle(GeneratorEvent::ChangeDue(message), 20),
        GeneratorAction::Dispatch(_)
    ));
    assert!(matches!(
        failing.handle(GeneratorEvent::Dispatched(Err("refused".to_string())), 21),
        GeneratorAction::Wait
    ));
    assert_eq!(failing.stream().status(), SourceChangeGeneratorStatus::Error);

    let mut closed = driver(10, false, FailurePolicy::Report);
    assert!(matches!(
        closed.handle(GeneratorEvent::CommandsClosed, 1),
        GeneratorAction::Exit
    ));
    assert_eq!(closed.stream().status(), SourceChangeGeneratorStatus::Error);
    assert_eq!(
        closed.stream().external_state().error_messages,
        vec!["Command channel closed.".to_string()]
    );
}

#[test]
fn a_failed_reset_leaves_the_stream_as_it_is() {
    let mut driver = driver(10, false, FailurePolicy::Report);
    driver.handle(GeneratorEvent::Command(GeneratorCommand::Stop), 1);
    driver.handle(GeneratorEvent::Closed(Ok(())), 2);
    driver.handle(GeneratorEvent::Command(GeneratorCommand::Reset), 3);
    match driver.handle(GeneratorEvent::Closed(Err("stuck".to_string())), 4) {
        GeneratorAction::Reply(Reply::Failed(error)) => assert_eq!(error, "stuck"),
        other => panic!("a failure was expected: {other:?}"),
    }
    assert_eq!(driver.stream().status(), SourceChangeGeneratorStatus::Stopped);
}

#[test]
fn times_that_outgrow_their_type_end_the_work() {
    let mut driver = driver(10, false, FailurePolicy::Ignore);
    driver.handle(GeneratorEvent::Command(GeneratorCommand::Start), 1);
    let message = schedule(&mut driver, 100, 0);
    driver.handle(GeneratorEvent::Sent(Ok(())), 101);
    driver.handle(GeneratorEvent::ChangeDue(message), 102);
    driver.handle(GeneratorEvent::Dispatched(Ok(())), 103);
    assert!(matches!(
        driver.handle(GeneratorEvent::RateReady, 104),
        GeneratorAction::DrawInterval
    ));
    assert!(matches!(
        driver.handle(GeneratorEvent::IntervalDrawn(u64::MAX), 105),
        GeneratorAction::Overflow
    ));
}

#[test]
fn generators_name_themselves_in_refusals() {
    assert_eq!(
        building_hierarchy::refusal_text(GeneratorError::PauseToSkip),
        "BuildingHierarchyDataGenerator is currently Running. Pause before trying to Skip."
    );
    assert_eq!(
        stock_trades::refusal_text(GeneratorError::AlreadyStopped),
        "StockTradeDataGenerator is already stopped. Reset to start over."
    );
}
