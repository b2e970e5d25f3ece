use e2e_test_framework::sources::source_change_generators::SourceChangeGeneratorStatus;
use e2e_test_framework::test_run_completion::completion_monitor::{
    CompletionMonitor, MonitorAction, MonitorEvent, SourcePoll,
};
use e2e_test_framework::test_run_host::{SourceEvent, TestRunStatus};

fn poll(id: &str, status: Option<SourceChangeGeneratorStatus>) -> SourcePoll {
    SourcePoll { source_id: id.to_string(), status }
}

#[test]
fn sources_are_told_of_once() {
    let mut monitor = CompletionMonitor::new(1);
    let polls = vec![
        poll("a", Some(SourceChangeGeneratorStatus::Running)),
        poll("b", None),
        poll("a", Some(SourceChangeGeneratorStatus::Running)),
        poll("b", Some(SourceChangeGeneratorStatus::Error)),
    ];
    match monitor.handle(MonitorEvent::Polled(polls)) {
        MonitorAction::Tell(news) => {
            assert_eq!(news.len(), 2);
            assert_eq!(news[0].0, "a");
            assert!(matches!(news[0].1, SourceEvent::Started));
            assert_eq!(news[1].0, "b");
            assert!(matches!(news[1].1, SourceEvent::Error(_)));
        }
        other => panic!("news were expected: {other:?}"),
    }
    assert!(matches!(
        monitor.handle(MonitorEvent::Told { all_finished: false }),
        MonitorAction::Wait
    ));
    let polls = vec![poll("a", Some(SourceChangeGeneratorStatus::Running))];
    match monitor.handle(MonitorEvent::Polled(polls)) {
        MonitorAction::Tell(news) => assert!(news.is_empty()),
        other => panic!("a list was expected: {other:?}"),
    }
}

#[test]
fn every_handler_is_called_and_all_errors_are_kept() {
    let mut monitor = CompletionMonitor::new(3);
    assert!(matches!(
        monitor.handle(MonitorEvent::Reported { all_finished: false }),
        MonitorAction::Wait
    ));
    assert!(matches!(
        monitor.handle(MonitorEvent::Reported { all_finished: true }),
        MonitorAction::Collect
    ));
    // Reports that come late change nothing.
    assert!(matches!(
        monitor.handle(MonitorEvent::Reported { all_finished: true }),
        MonitorAction::Wait
    ));
    assert!(matches!(monitor.handle(MonitorEvent::Collected), MonitorAction::Handle(0)));
    assert!(matches!(
        monitor.handle(MonitorEvent::Handled(Err("one".to_string()))),
        MonitorAction::Handle(1)
    ));
    assert!(matches!(monitor.handle(MonitorEvent::Handled(Ok(()))), MonitorAction::Handle(2)));
    match monitor.handle(MonitorEvent::Handled(Err("three".to_string()))) {
        MonitorAction::Fail(TestRunStatus::Error(message)) => assert_eq!(message, "one; three"),
        other => panic!("a failure was expected: {other:?}"),
    }
}

#[test]
fn runs_without_errors_keep_their_status() {
    let mut monitor = CompletionMonitor::new(1);
    monitor.handle(MonitorEvent::Polled(vec![]));
    assert!(matches!(
        monitor.handle(MonitorEvent::Told { all_finished: true }),
        MonitorAction::Collect
    ));
    monitor.handle(MonitorEvent::Collected);
    assert!(matches!(monitor.handle(MonitorEvent::Handled(Ok(()))), MonitorAction::End));

    let mut closed = CompletionMonitor::new(1);
    assert!(matches!(closed.handle(MonitorEvent::ReportsClosed), MonitorAction::End));
}
