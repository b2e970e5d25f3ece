use e2e_test_framework::json::{parse_json, Json};
use e2e_test_framework::scripts::{
    SourceChangeEvent, SourceChangeEventPayload, SourceChangeEventSourceInfo,
};
use e2e_test_framework::sequence::NextStep;
use e2e_test_framework::sources::source_change_dispatchers::adaptive_http_dispatcher::{
    all_succeeded, AdaptiveBatchConfig, AdaptiveHttpSourceChangeDispatcherSettings, BatcherMetrics,
};
use e2e_test_framework::sources::source_change_dispatchers::direct_format::convert_to_direct_format;
use e2e_test_framework::sources::source_change_dispatchers::grpc_dispatcher::{
    check_submission, BatchAcknowledgments, GrpcDispatchPlan, GrpcSourceChangeDispatcherSettings,
};
use e2e_test_framework::sources::source_change_dispatchers::http_dispatcher::{
    check_response, HttpDispatchPlan, HttpSourceChangeDispatcherSettings,
};
use e2e_test_framework::test_repo_storage::models::{
    GrpcSourceChangeDispatcherDefinition, HttpSourceChangeDispatcherDefinition,
};

#[test]
fn cumulative_acknowledgments_accept_repeated_final_total() {
    let mut acknowledgments = BatchAcknowledgments {
        expected: 200,
        processed: 0,
    };
    for processed in [100, 200, 200] {
        acknowledgments.observe(true, processed, "").unwrap();
    }
    acknowledgments.finish().unwrap();
}

#[test]
fn cumulative_acknowledgments_reject_short_or_empty_stream() {
    let mut acknowledgments = BatchAcknowledgments {
        expected: 200,
        processed: 0,
    };
    assert!(acknowledgments.finish().is_err());
    acknowledgments.observe(true, 100, "").unwrap();
    assert!(acknowledgments.finish().is_err());
}

#[test]
fn cumulative_acknowledgments_reject_failures_and_invalid_counts() {
    let mut acknowledgments = BatchAcknowledgments {
        expected: 200,
        processed: 0,
    };
    assert!(acknowledgments.observe(false, 0, "").is_err());
    acknowledgments.observe(true, 100, "").unwrap();
    assert!(acknowledgments.observe(true, 99, "").is_err());
    assert!(acknowledgments.observe(true, 201, "").is_err());
}

#[test]
fn acknowledgment_messages() {
    let mut acknowledgments = BatchAcknowledgments {
        expected: 200,
        processed: 100,
    };
    assert_eq!(
        acknowledgments.observe(false, 0, "gone").unwrap_err(),
        "Batch dispatch failed: gone"
    );
    assert_eq!(
        acknowledgments.observe(true, 99, "").unwrap_err(),
        "Invalid cumulative acknowledgment: previous 100, received 99, expected 200"
    );
    assert_eq!(
        acknowledgments.finish().unwrap_err(),
        "Batch acknowledgment mismatch: sent 200, acknowledged 100"
    );
    assert_eq!(
        check_submission(false, "full").unwrap_err(),
        "Event submission failed: full"
    );
    check_submission(true, "full").unwrap();
}

#[test]
fn test_settings_creation() {
    let definition = GrpcSourceChangeDispatcherDefinition {
        host: "localhost".to_string(),
        port: 50051,
        timeout_seconds: Some(60),
        batch_events: Some(true),
        tls: Some(false),
        source_id: "test-source".to_string(),
        adaptive_enabled: None,
        batch_size: None,
        batch_timeout_ms: None,
    };

    let settings = GrpcSourceChangeDispatcherSettings::new(&definition).unwrap();

    assert_eq!(settings.host, "localhost");
    assert_eq!(settings.port, 50051);
    assert_eq!(settings.timeout_seconds, 60);
    assert!(settings.batch_events);
    assert_eq!(settings.source_id, "test-source");
    assert!(!settings.tls);
    assert_eq!(settings.endpoint_url(), "http://localhost:50051");
}

#[test]
fn test_settings_with_tls() {
    let definition = GrpcSourceChangeDispatcherDefinition {
        host: "example.com".to_string(),
        port: 443,
        timeout_seconds: None,
        batch_events: None,
        tls: Some(true),
        source_id: "test-source".to_string(),
        adaptive_enabled: None,
        batch_size: None,
        batch_timeout_ms: None,
    };

    let settings = GrpcSourceChangeDispatcherSettings::new(&definition).unwrap();

    assert_eq!(settings.timeout_seconds, 30); // default
    assert!(settings.batch_events); // default
    assert!(settings.tls);
    assert_eq!(settings.endpoint_url(), "https://example.com:443");
}

#[test]
fn test_settings_with_defaults() {
    let definition = HttpSourceChangeDispatcherDefinition {
        url: "http://localhost".to_string(),
        port: 8080,
        endpoint: None,
        timeout_seconds: None,
        batch_events: None,
        adaptive_enabled: None,
        batch_size: None,
        batch_timeout_ms: None,
        source_id: None,
    };

    let source_id = "test-source".to_string();
    let settings = HttpSourceChangeDispatcherSettings::new(&definition, source_id).unwrap();

    assert_eq!(settings.url, "http://localhost");
    assert_eq!(settings.port, 8080);
    assert_eq!(settings.endpoint, "/sources/test-source/events");
    assert_eq!(settings.timeout_seconds, 30);
    assert!(settings.batch_events);
    assert_eq!(
        settings.full_url(),
        "http://localhost:8080/sources/test-source/events"
    );
}

#[test]
fn test_settings_with_custom_values() {
    let definition = HttpSourceChangeDispatcherDefinition {
        url: "https://api.example.com".to_string(),
        port: 443,
        endpoint: Some("/webhooks/changes".to_string()),
        timeout_seconds: Some(60),
        batch_events: Some(false),
        adaptive_enabled: None,
        batch_size: None,
        batch_timeout_ms: None,
        source_id: None,
    };

    let source_id = "test-source".to_string();
    let settings = HttpSourceChangeDispatcherSettings::new(&definition, source_id).unwrap();

    assert_eq!(settings.url, "https://api.example.com");
    assert_eq!(settings.port, 443);
    assert_eq!(settings.endpoint, "/webhooks/changes");
    assert_eq!(settings.timeout_seconds, 60);
    assert!(!settings.batch_events);
    assert_eq!(
        settings.full_url(),
        "https://api.example.com:443/webhooks/changes"
    );
}

fn json(text: &str) -> Json {
    parse_json(text).unwrap()
}

fn event(op: &str, table: &str, before: &str, after: &str) -> SourceChangeEvent {
    SourceChangeEvent {
        op: op.to_string(),
        reactivator_start_ns: 77,
        reactivator_end_ns: 78,
        payload: SourceChangeEventPayload {
            source: SourceChangeEventSourceInfo {
                db: "db".to_string(),
                lsn: 1,
                table: table.to_string(),
                ts_ns: 2,
            },
            before: json(before),
            after: json(after),
        },
    }
}

#[test]
fn inserts_and_updates_carry_the_element() {
    let change = convert_to_direct_format(&event(
        "i",
        "node",
        "null",
        r#"{"id": "n1", "labels": ["A", 5, "B"], "properties": {"x": 1}}"#,
    ))
    .unwrap();
    assert_eq!(change.operation, "insert");
    assert_eq!(change.timestamp, Some(77));
    assert!(change.id.is_none());
    assert!(change.labels.is_none());
    let element = change.element.unwrap();
    assert_eq!(element.element_type, "node");
    assert_eq!(element.id, "n1");
    assert_eq!(element.labels, vec!["A".to_string(), "B".to_string()]);
    assert_eq!(
        element.properties,
        vec![("x".to_string(), Json::Unsigned(1))]
    );
    assert!(element.from.is_none());

    let change = convert_to_direct_format(&event(
        "u",
        "node",
        "null",
        r#"{"id": "r1", "start_id": "a", "end_id": "b", "properties": 7}"#,
    ))
    .unwrap();
    assert_eq!(change.operation, "update");
    let element = change.element.unwrap();
    assert_eq!(element.element_type, "relation");
    assert_eq!(element.from.as_deref(), Some("a"));
    assert_eq!(element.to.as_deref(), Some("b"));
    assert_eq!(element.labels.len(), 0);
    assert_eq!(element.properties.len(), 0);
}

#[test]
fn the_table_says_what_an_element_without_ends_is() {
    for (table, kind) in [("relation", "relation"), ("edge", "relation"), ("row", "node")] {
        let change =
            convert_to_direct_format(&event("i", table, "null", r#"{"id": "n", "start_id": "a"}"#))
                .unwrap();
        assert_eq!(change.element.unwrap().element_type, kind, "{table}");
    }
}

#[test]
fn deletes_name_the_element() {
    let change = convert_to_direct_format(&event(
        "d",
        "node",
        r#"{"id": "n1", "labels": ["A"]}"#,
        "null",
    ))
    .unwrap();
    assert_eq!(change.operation, "delete");
    assert!(change.element.is_none());
    assert_eq!(change.id.as_deref(), Some("n1"));
    assert_eq!(change.labels, Some(vec!["A".to_string()]));
    let change = convert_to_direct_format(&event("d", "node", r#"{"id": "n1"}"#, "null")).unwrap();
    assert!(change.labels.is_none());
}

#[test]
fn changes_without_a_direct_format() {
    assert!(convert_to_direct_format(&event("x", "node", "{}", r#"{"id": "n"}"#)).is_none());
    assert!(convert_to_direct_format(&event("d", "node", "null", r#"{"id": "n"}"#)).is_none());
    assert!(convert_to_direct_format(&event("i", "node", "null", "null")).is_none());
    assert!(convert_to_direct_format(&event("u", "node", "null", r#"{"id": 5}"#)).is_none());
}

fn http_definition(batch: Option<bool>) -> HttpSourceChangeDispatcherDefinition {
    HttpSourceChangeDispatcherDefinition {
        url: "http://h".to_string(),
        port: 1,
        endpoint: Some("/e".to_string()),
        timeout_seconds: None,
        batch_events: batch,
        adaptive_enabled: None,
        batch_size: None,
        batch_timeout_ms: None,
        source_id: None,
    }
}

#[test]
fn http_dispatch_plans() {
    let good = event("i", "node", "null", r#"{"id": "n"}"#);
    let bad = event("x", "node", "null", "null");
    let batch = HttpSourceChangeDispatcherSettings::new(&http_definition(None), "s".to_string()).unwrap();
    assert!(matches!(
        batch.plan_dispatch(&vec![]).unwrap(),
        HttpDispatchPlan::Nothing
    ));
    match batch.plan_dispatch(&vec![good.copy(), bad.copy()]).unwrap() {
        HttpDispatchPlan::Batch { url, changes } => {
            assert_eq!(url, "http://h:1/e/batch");
            assert_eq!(changes.len(), 1);
        }
        _ => panic!("a batch was expected"),
    }
    assert_eq!(
        batch.plan_dispatch(&vec![bad.copy()]).unwrap_err(),
        "Failed to convert events to Direct Format"
    );
    assert!(matches!(
        batch.plan_dispatch(&vec![]).unwrap().requests().next(),
        NextStep::Done
    ));
    let single =
        HttpSourceChangeDispatcherSettings::new(&http_definition(Some(false)), "s".to_string()).unwrap();
    let mut requests = single.plan_dispatch(&vec![good.copy(), good.copy()]).unwrap().requests();
    requests.record(Ok(()));
    assert!(matches!(requests.next(), NextStep::Take(1)));
    requests.record(Ok(()));
    assert!(matches!(requests.next(), NextStep::Done));
    match single.plan_dispatch(&vec![bad, good]).unwrap() {
        HttpDispatchPlan::Each { url, changes } => {
            assert_eq!(url, "http://h:1/e");
            assert_eq!(changes.len(), 1);
        }
        _ => panic!("single requests were expected"),
    }
    check_response(true, "200 OK").unwrap();
    assert_eq!(
        check_response(false, "500 Internal Server Error").unwrap_err(),
        "HTTP request failed with status: 500 Internal Server Error"
    );
}

fn defaults() -> AdaptiveBatchConfig {
    AdaptiveBatchConfig {
        max_batch_size: 9,
        min_batch_size: 8,
        max_wait_ms: 7,
        min_wait_ms: 6,
        adaptive_enabled: false,
    }
}

#[test]
fn adaptive_batches_hold_from_ten_to_a_thousand_events() {
    let mut definition = http_definition(None);
    definition.endpoint = None;
    let settings = AdaptiveHttpSourceChangeDispatcherSettings::new(&definition, defaults());
    assert_eq!(settings.endpoint, "/sources/test-source/events");
    assert_eq!(settings.batch_endpoint, "/sources/test-source/events/batch");
    assert_eq!(settings.source_id, "test-source");
    assert_eq!(settings.timeout_seconds, 30);
    assert!(settings.batch_enabled);
    assert_eq!(
        settings.adaptive_config,
        AdaptiveBatchConfig {
            adaptive_enabled: true,
            ..defaults()
        }
    );

    definition.batch_size = Some(1000);
    definition.batch_timeout_ms = Some(50);
    definition.adaptive_enabled = Some(false);
    definition.source_id = Some("s".to_string());
    let settings = AdaptiveHttpSourceChangeDispatcherSettings::new(&definition, defaults());
    assert_eq!(
        settings.adaptive_config,
        AdaptiveBatchConfig {
            max_batch_size: 1000,
            min_batch_size: 10,
            max_wait_ms: 50,
            min_wait_ms: 5,
            adaptive_enabled: false,
        }
    );
    assert_eq!(settings.endpoint, "/sources/s/events");

    definition.batch_size = Some(100);
    let settings = AdaptiveHttpSourceChangeDispatcherSettings::new(&definition, defaults());
    assert_eq!(settings.adaptive_config.max_batch_size, 100);
    assert_eq!(settings.adaptive_config.min_batch_size, 10);

    definition.batch_size = Some(50);
    let settings = AdaptiveHttpSourceChangeDispatcherSettings::new(&definition, defaults());
    assert_eq!(settings.adaptive_config.min_batch_size, 5);

    definition.batch_size = Some(5);
    let settings = AdaptiveHttpSourceChangeDispatcherSettings::new(&definition, defaults());
    assert_eq!(settings.adaptive_config.min_batch_size, 1);
}

#[test]
fn adaptive_batches_of_one_go_singly() {
    let good = event("i", "node", "null", r#"{"id": "n"}"#);
    let bad = event("x", "node", "null", "null");
    let settings = AdaptiveHttpSourceChangeDispatcherSettings::new(&http_definition(None), defaults());
    assert!(matches!(
        settings.plan_batch(&vec![bad.copy()]),
        HttpDispatchPlan::Nothing
    ));
    match settings.plan_batch(&vec![good.copy(), bad.copy()]) {
        HttpDispatchPlan::Each { url, changes } => {
            assert_eq!(url, "http://h:1/e");
            assert_eq!(changes.len(), 1);
        }
        _ => panic!("single requests were expected"),
    }
    match settings.plan_batch(&vec![good.copy(), good.copy()]) {
        HttpDispatchPlan::Batch { url, changes } => {
            assert_eq!(url, "http://h:1/e/batch");
            assert_eq!(changes.len(), 2);
        }
        _ => panic!("a batch was expected"),
    }
    let single =
        AdaptiveHttpSourceChangeDispatcherSettings::new(&http_definition(Some(false)), defaults());
    assert!(matches!(
        single.plan_batch(&vec![good.copy(), good.copy()]),
        HttpDispatchPlan::Each { .. }
    ));
    let (url, change) = settings.plan_single(&good).unwrap();
    assert_eq!(url, "http://h:1/e");
    assert_eq!(change.operation, "insert");
    assert_eq!(
        settings.plan_single(&bad).unwrap_err(),
        "Failed to convert event to Direct Format"
    );
}

#[test]
fn batcher_metrics_are_due_every_hundred_batches() {
    let mut metrics = BatcherMetrics::new();
    let mut reports = 0;
    for i in 0..200u64 {
        assert!(metrics.has_room(3));
        metrics.count_events(3);
        if metrics.count_outcome(i % 4 != 0) {
            reports += 1;
        }
    }
    assert_eq!(reports, 2);
    assert_eq!(metrics.successful_batches, 150);
    assert_eq!(metrics.failed_batches, 50);
    assert_eq!(metrics.total_events, 600);
    assert!(all_succeeded(&vec![true, true]));
    assert!(!all_succeeded(&vec![true, false]));
    assert!(all_succeeded(&vec![]));
}

#[test]
fn grpc_dispatch_plans() {
    let mut definition = GrpcSourceChangeDispatcherDefinition {
        host: "h".to_string(),
        port: 1,
        timeout_seconds: None,
        batch_events: None,
        tls: None,
        source_id: "s".to_string(),
        adaptive_enabled: None,
        batch_size: None,
        batch_timeout_ms: None,
    };
    let events = vec![
        event("i", "node", "null", r#"{"id": "n"}"#),
        event("d", "node", r#"{"id": "n"}"#, "null"),
    ];
    let batch = GrpcSourceChangeDispatcherSettings::new(&definition).unwrap();
    assert!(matches!(batch.plan_dispatch(&vec![]), GrpcDispatchPlan::Nothing));
    match batch.plan_dispatch(&events) {
        GrpcDispatchPlan::Batch(changes) => {
            assert_eq!(changes.len(), 2);
            assert_eq!(changes[1].source_id, "s");
        }
        _ => panic!("a batch was expected"),
    }
    definition.batch_events = Some(false);
    let single = GrpcSourceChangeDispatcherSettings::new(&definition).unwrap();
    let mut requests = single.plan_dispatch(&events).requests();
    requests.record(Err("refused".to_string()));
    assert!(matches!(requests.next(), NextStep::Failed(_)));
    match single.plan_dispatch(&events) {
        GrpcDispatchPlan::Each(changes) => assert_eq!(changes.len(), 2),
        _ => panic!("single requests were expected"),
    }
}
