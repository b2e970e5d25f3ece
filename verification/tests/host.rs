use e2e_test_framework::ids::{TestRunId, TestRunSourceId};
use e2e_test_framework::sources::source_change_generators::SourceChangeGeneratorStatus;
use e2e_test_framework::test_run_host::{
    completion_status, needs_monitoring, ComponentKind, HostError, InstanceState,
    RunChangeEnd, RunGoal, RunStep, SourceEvent, SourceStatusTracker,
    TestRunComponentConfig, TestRunConfig, TestRunHost, TestRunHostConfig, TestRunHostStatus,
    TestRunStatus,
};

fn component(id: &str, starts_with_run: bool) -> TestRunComponentConfig {
    TestRunComponentConfig {
        component_id: id.to_string(),
        test_id: None,
        test_repo_id: None,
        test_run_id: None,
        starts_with_run,
    }
}

fn config(run: &str) -> TestRunConfig {
    TestRunConfig {
        test_id: "test".to_string(),
        test_repo_id: "repo".to_string(),
        test_run_id: run.to_string(),
        drasi_lib_instances: vec![component("i", false)],
        queries: vec![component("q2", false), component("q1", false)],
        reactions: vec![component("r1", true), component("r2", false)],
        sources: vec![component("s1", false), component("s2", true)],
    }
}

#[test]
fn test_new_test_run_host() {
    assert_eq!(TestRunHostConfig::default().test_runs.len(), 0);
    let mut host = TestRunHost::new();
    assert_eq!(*host.get_status(), TestRunHostStatus::Initialized);
    host.start().unwrap();

    assert_eq!(*host.get_status(), TestRunHostStatus::Running);
    assert_eq!(
        host.start().unwrap_err(),
        "TestRunHost created with unexpected status: Running"
    );
    host.set_status(TestRunHostStatus::Error("x".to_string()));
    assert_eq!(
        host.start().unwrap_err(),
        "TestRunHost is in an Error state, cannot Start."
    );
    assert_eq!(host.get_status().text(), "Error: x");
    assert_eq!(TestRunHostStatus::Running.text(), "Running");
    assert_eq!(TestRunHostStatus::Initialized.text(), "Initialized");
}

fn steps(steps: Vec<RunStep>) -> Vec<String> {
    steps.into_iter().map(|s| format!("{s:?}")).collect()
}

#[test]
fn runs_are_added_once() {
    let mut host = TestRunHost::new();
    let plan = host.begin_test_run(&config("a")).unwrap();
    assert_eq!(plan.id.test_run_id, "a");
    assert_eq!(plan.queries[0].component_id, "q2");
    assert_eq!(plan.queries[0].test_id.as_deref(), Some("test"));
    assert_eq!(plan.sources[1].test_repo_id.as_deref(), Some("repo"));
    assert_eq!(plan.reactions[1].test_run_id.as_deref(), Some("a"));
    let id = host.add_test_run(&config("a")).unwrap();
    assert!(matches!(
        host.begin_test_run(&config("a")),
        Err(HostError::RunExists)
    ));
    let error = host.add_test_run(&config("a")).unwrap_err();
    assert_eq!(error.text("ID"), "TestRun already exists with ID: ID");
    host.add_test_run(&config("b")).unwrap();
    assert_eq!(
        host.get_test_run_status(&id).unwrap(),
        TestRunStatus::Running
    );
    assert!(host.begin_change(&id, RunGoal::Delete).unwrap().next_step().is_some());
    host.set_test_run_status(&id, TestRunStatus::Stopped).unwrap();
    assert!(host.begin_change(&id, RunGoal::Delete).unwrap().next_step().is_none());
    host.delete_test_run(&id).unwrap();
    assert_eq!(
        host.delete_test_run(&id).unwrap_err().text("ID"),
        "TestRun not found: ID"
    );
    assert!(host.get_test_run_status(&id).is_err());
    assert!(host.begin_change(&id, RunGoal::Delete).is_err());
    assert!(host.start_test_run(&id).is_err());
    assert!(host.set_test_run_status(&id, TestRunStatus::Stopped).is_err());
    assert!(host
        .get_test_run_status(&TestRunId::new("repo", "test", "b"))
        .is_ok());
}

#[test]
fn runs_start_from_the_instances_and_stop_from_the_reactions() {
    let mut host = TestRunHost::new();
    let id = host.add_test_run(&config("a")).unwrap();
    assert_eq!(
        steps(host.start_test_run(&id).unwrap()),
        vec![
            r#"StartInstance("i")"#,
            r#"StartSource("s2")"#,
            r#"StartQuery("q1")"#,
            r#"StartQuery("q2")"#,
            r#"StartReaction("r1")"#,
        ]
    );
    assert_eq!(
        steps(host.stop_test_run(&id).unwrap()),
        vec![
            r#"StopReaction("r1")"#,
            r#"StopReaction("r2")"#,
            r#"StopQuery("q1")"#,
            r#"StopQuery("q2")"#,
            r#"StopSource("s1")"#,
            r#"StopSource("s2")"#,
            r#"StopInstance("i")"#,
        ]
    );
}

#[test]
fn reactions_listen_before_sources_start() {
    let mut host = TestRunHost::new();
    let id = host.add_test_run(&config("a")).unwrap();
    assert_eq!(
        steps(host.initialize_sources(&id).unwrap()),
        vec![
            r#"HandHostToSource("s1")"#,
            r#"HandHostToSource("s2")"#,
            r#"HandHostToReaction("r1")"#,
            r#"HandHostToReaction("r2")"#,
            r#"StartReaction("r1")"#,
            "AwaitReactions",
            r#"StartSource("s2")"#,
        ]
    );
    host.remove_component(&id, ComponentKind::Reaction, "r1").unwrap();
    assert_eq!(
        steps(host.initialize_sources(&id).unwrap()),
        vec![
            r#"HandHostToSource("s1")"#,
            r#"HandHostToSource("s2")"#,
            r#"HandHostToReaction("r2")"#,
            r#"StartSource("s2")"#,
        ]
    );
}

#[test]
fn components_are_removed_and_listed() {
    let mut host = TestRunHost::new();
    let a = host.add_test_run(&config("a")).unwrap();
    host.add_test_run(&config("b")).unwrap();
    let list = |host: &TestRunHost| -> Vec<String> {
        host.get_component_ids(ComponentKind::Query)
            .into_iter()
            .map(|(run, id)| format!("{}.{id}", run.test_run_id))
            .collect()
    };
    assert_eq!(list(&host), vec!["a.q1", "a.q2", "b.q1", "b.q2"]);
    host.remove_component(&a, ComponentKind::Query, "q1").unwrap();
    assert_eq!(list(&host), vec!["a.q2", "b.q1", "b.q2"]);
    assert_eq!(
        host.remove_component(&a, ComponentKind::Query, "q1")
            .unwrap_err()
            .text("Q"),
        "TestRunQuery not found: Q"
    );
    assert!(host
        .remove_component(&TestRunId::new("x", "y", "z"), ComponentKind::Query, "q1")
        .is_err());
    let runs: Vec<String> = host
        .get_test_run_ids()
        .into_iter()
        .map(|run| run.test_run_id)
        .collect();
    assert_eq!(runs, vec!["a", "b"]);
}

#[test]
fn components_are_added_once() {
    let mut host = TestRunHost::new();
    let id = host.add_test_run(&config("a")).unwrap();
    let other = TestRunId::new("repo", "test", "x");
    for (kind, name, known) in [
        (ComponentKind::DrasiLibInstance, "TestRunDrasiLibInstance", "i"),
        (ComponentKind::Query, "TestRunQuery", "q1"),
        (ComponentKind::Reaction, "TestRunReaction", "r1"),
        (ComponentKind::Source, "TestRunSource", "s1"),
    ] {
        assert_eq!(
            host.add_component(&id, kind, known, true).unwrap_err().text(""),
            format!("TestRun already contains {name} with ID: {known}")
        );
        host.check_component(&id, kind, "new").unwrap();
        host.add_component(&id, kind, "new", true).unwrap();
        assert!(host.contains_component(&id, kind, "new"));
        assert!(!host.contains_component(&other, kind, "new"));
        host.find_component(&id, kind, "new").unwrap();
        assert_eq!(
            host.find_component(&id, kind, "none").unwrap_err().text("C"),
            format!("{name} not found: C")
        );
        assert_eq!(
            host.find_component(&other, kind, "new").unwrap_err().text("R"),
            "TestRun not found: R"
        );
        assert!(matches!(
            host.add_component(&other, kind, "new", true),
            Err(HostError::RunNotFound)
        ));
    }
    host.set_status(TestRunHostStatus::Error("down".to_string()));
    assert_eq!(
        host.add_component(&id, ComponentKind::Query, "q9", false)
            .unwrap_err()
            .text(""),
        "TestRunHost is in an Error state: down"
    );
}

#[test]
fn a_status_is_reported_when_it_changes() {
    let mut tracker = SourceStatusTracker::new();
    assert!(matches!(
        tracker.observe("s", SourceChangeGeneratorStatus::Paused),
        Some(SourceEvent::Paused)
    ));
    assert!(tracker.observe("s", SourceChangeGeneratorStatus::Paused).is_none());
    for status in [
        SourceChangeGeneratorStatus::Running,
        SourceChangeGeneratorStatus::Stepping,
        SourceChangeGeneratorStatus::Skipping,
    ] {
        assert!(matches!(tracker.observe("s", status), Some(SourceEvent::Started)));
    }
    assert!(matches!(
        tracker.observe("t", SourceChangeGeneratorStatus::Skipping),
        Some(SourceEvent::Started)
    ));
    assert!(matches!(
        tracker.observe("s", SourceChangeGeneratorStatus::Stopped),
        Some(SourceEvent::Stopped)
    ));
    assert!(matches!(
        tracker.observe("s", SourceChangeGeneratorStatus::Finished),
        Some(SourceEvent::Finished)
    ));
    match tracker.observe("s", SourceChangeGeneratorStatus::Error) {
        Some(SourceEvent::Error(message)) => {
            assert_eq!(message, "source change generator entered Error state")
        }
        other => panic!("{other:?}"),
    }
}

#[test]
fn errors_of_handlers_are_joined() {
    assert!(completion_status(&vec![]).is_none());
    assert_eq!(
        completion_status(&vec!["a".to_string(), "b".to_string()]),
        Some(TestRunStatus::Error("a; b".to_string()))
    );
}

#[test]
fn completion_is_watched_where_handlers_exist() {
    assert!(needs_monitoring(2, 1));
    assert!(!needs_monitoring(0, 0));
    assert!(!needs_monitoring(2, 0));
}

#[test]
fn components_are_added_under_their_ids() {
    let mut host = TestRunHost::new();
    let run = host.add_test_run(&config("a")).unwrap();
    let query = host.add_test_query(&run, &component("q9", false)).unwrap();
    assert_eq!(query.test_query_id, "q9");
    assert_eq!(query.test_run_id.test_run_id, "a");
    let reaction = host.add_test_reaction(&run, &component("r9", true)).unwrap();
    assert_eq!(reaction.test_reaction_id, "r9");
    let source = host.add_test_source(&run, &component("s9", true)).unwrap();
    assert!(host.contains_test_source(&source));
    assert!(!host.contains_test_source(&TestRunSourceId::new(&run, "s10")));
    let instance = host.add_test_drasi_lib_instance(&run, &component("i9", false)).unwrap();
    assert_eq!(instance.test_drasi_lib_instance_id, "i9");
    assert_eq!(
        host.add_test_source(&run, &component("s9", true)).unwrap_err().text("s9"),
        "TestRun already contains TestRunSource with ID: s9"
    );

    let names = |ids: Vec<(TestRunId, String)>| ids.into_iter().map(|id| id.1).collect::<Vec<_>>();
    assert_eq!(names(host.get_test_query_ids()), ["q1", "q2", "q9"]);
    assert_eq!(names(host.get_test_reaction_ids()), ["r1", "r2", "r9"]);
    assert_eq!(names(host.get_test_source_ids()), ["s1", "s2", "s9"]);
    assert_eq!(names(host.get_test_drasi_lib_instance_ids()), ["i", "i9"]);

    host.remove_test_drasi_lib_instance(&instance).unwrap();
    assert_eq!(names(host.get_test_drasi_lib_instance_ids()), ["i"]);
    assert!(matches!(
        host.remove_test_drasi_lib_instance(&instance).unwrap_err(),
        HostError::ComponentNotFound(ComponentKind::DrasiLibInstance)
    ));
}

#[test]
fn components_are_created_kind_by_kind() {
    let host = TestRunHost::new();
    let plan = host.begin_test_run(&config("a")).unwrap();
    let steps = plan.steps();
    let names: Vec<&str> = steps.iter().map(|step| step.1.component_id.as_str()).collect();
    assert_eq!(names, ["i", "q2", "q1", "r1", "r2", "s1", "s2"]);
    assert!(matches!(steps[0].0, ComponentKind::DrasiLibInstance));
    assert!(matches!(steps[2].0, ComponentKind::Query));
    assert!(matches!(steps[3].0, ComponentKind::Reaction));
    assert!(matches!(steps[6].0, ComponentKind::Source));
    assert_eq!(steps[6].1.test_run_id.as_deref(), Some("a"));
    assert!(steps[6].1.starts_with_run);
}

#[test]
fn runs_change_once_all_steps_succeeded() {
    let mut host = TestRunHost::new();
    let id = host.add_test_run(&config("a")).unwrap();
    let mut stop = host.begin_change(&id, RunGoal::Stop).unwrap();
    assert!(matches!(stop.next_step(), Some(RunStep::StopReaction(name)) if name == "r1"));
    stop.record(Ok(()));
    assert!(matches!(host.end_change(&id, &stop).unwrap(), RunChangeEnd::Unfinished));
    stop.record(Err("stuck".to_string()));
    assert!(stop.next_step().is_none());
    match host.end_change(&id, &stop).unwrap() {
        RunChangeEnd::Failed(message) => assert_eq!(message, "stuck"),
        other => panic!("a failure was expected: {other:?}"),
    }
    assert_eq!(host.get_test_run_status(&id).unwrap(), TestRunStatus::Running);

    let mut stop = host.begin_change(&id, RunGoal::Stop).unwrap();
    let mut count = 0;
    while stop.next_step().is_some() {
        stop.record(Ok(()));
        count += 1;
    }
    assert_eq!(count, 7);
    assert!(matches!(host.end_change(&id, &stop).unwrap(), RunChangeEnd::Changed));
    assert_eq!(host.get_test_run_status(&id).unwrap(), TestRunStatus::Stopped);

    let mut start = host.begin_change(&id, RunGoal::Start).unwrap();
    while start.next_step().is_some() {
        start.record(Ok(()));
    }
    host.end_change(&id, &start).unwrap();
    assert_eq!(host.get_test_run_status(&id).unwrap(), TestRunStatus::Running);

    let mut delete = host.begin_change(&id, RunGoal::Delete).unwrap();
    while delete.next_step().is_some() {
        delete.record(Ok(()));
    }
    assert!(matches!(host.end_change(&id, &delete).unwrap(), RunChangeEnd::Changed));
    assert!(host.get_test_run_status(&id).is_err());
    assert!(matches!(host.end_change(&id, &delete), Err(HostError::RunNotFound)));
}

#[test]
fn instances_start_once_and_stop_where_they_run() {
    let start = RunStep::StartInstance("i".to_string());
    let stop = RunStep::StopInstance("i".to_string());
    assert_eq!(start.instance().map(String::as_str), Some("i"));
    assert!(start.is_due(InstanceState::Uninitialized));
    assert!(!start.is_due(InstanceState::Running));
    assert!(!start.is_due(InstanceState::Other));
    assert!(stop.is_due(InstanceState::Running));
    assert!(!stop.is_due(InstanceState::Uninitialized));
    assert!(!stop.is_due(InstanceState::Other));
    let source = RunStep::StartSource("s".to_string());
    assert!(source.instance().is_none());
    assert!(source.is_due(InstanceState::Other));
}
