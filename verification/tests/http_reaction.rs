use e2e_test_framework::ids::{TestRunId, TestRunQueryId};
use e2e_test_framework::json::{to_value, Json};
use e2e_test_framework::reactions::output_loggers::canonical_json::sort_json_keys;
use e2e_test_framework::reactions::output_loggers::final_state::FinalStateMaterializer;
use e2e_test_framework::reactions::reaction_handlers::handler_status::{
    HandlerRequest, ReactionHandlerStatus, WaitStep,
};
use e2e_test_framework::reactions::reaction_handlers::http_reaction_handler::{
    body_or_raw, can_number, carries_batch, handle_reaction, request_body, response,
    HttpReactionHandlerSettings, ReactionInvocation, ReactionRequest,
};
use e2e_test_framework::test_repo_storage::models::HttpReactionHandlerDefinition;

fn settings(correlation_header: Option<&str>) -> HttpReactionHandlerSettings {
    HttpReactionHandlerSettings::new(
        TestRunQueryId::new(&TestRunId::new("repo", "test", "run"), "q1"),
        HttpReactionHandlerDefinition {
            host: None,
            port: None,
            path: None,
            correlation_header: correlation_header.map(|h| h.to_string()),
        },
    )
    .unwrap()
}

fn request(path: &str) -> ReactionRequest {
    ReactionRequest::new(
        "POST".to_string(),
        path.to_string(),
        vec![
            ("traceparent".to_string(), "old".to_string()),
            ("x-seq".to_string(), "17".to_string()),
            ("traceparent".to_string(), "tp".to_string()),
        ],
    )
}

fn handle(correlation_header: Option<&str>, path: &str, body: &str) -> Vec<ReactionInvocation> {
    let body = request_body(body);
    assert!(can_number(&body));
    handle_reaction(&settings(correlation_header), &request(path), &body, 9)
}

fn shown(json: &Json) -> String {
    to_value(&sort_json_keys(json.copy())).to_string()
}

#[test]
fn settings_have_defaults() {
    let settings = settings(None);
    assert_eq!(settings.host, "0.0.0.0");
    assert_eq!(settings.port, 8081);
    assert_eq!(settings.path, "/reaction");
    assert_eq!(settings.address(), "0.0.0.0:8081");
    let custom = HttpReactionHandlerSettings::new(
        TestRunQueryId::new(&TestRunId::new("repo", "test", "run"), "q1"),
        HttpReactionHandlerDefinition {
            host: Some("h".to_string()),
            port: Some(1),
            path: Some("/p".to_string()),
            correlation_header: Some("c".to_string()),
        },
    )
    .unwrap();
    assert_eq!(custom.address(), "h:1");
    assert_eq!(custom.path, "/p");
    assert_eq!(custom.correlation_header.as_deref(), Some("c"));
}

#[test]
fn bodies_that_are_no_json_are_kept_raw() {
    assert_eq!(shown(&request_body("not json")), r#"{"raw":"not json"}"#);
    assert_eq!(shown(&request_body("[1]")), "[1]");
    assert_eq!(shown(&body_or_raw(None, "x")), r#"{"raw":"x"}"#);
}

#[test]
fn single_invocations() {
    let invocations = handle(None, "/reaction/added", r#"{"sequence": 5, "type": "t"}"#);
    assert_eq!(invocations.len(), 1);
    let invocation = &invocations[0];
    assert_eq!(invocation.invocation_id, "q1-5");
    assert_eq!(invocation.timestamp_ns, 9);
    assert_eq!(
        shown(&invocation.value),
        r#"{"query_id":"q1","reaction_type":"added","request_body":{"sequence":5,"type":"t"}}"#
    );
    assert_eq!(
        shown(&invocation.metadata),
        r#"{"headers":{"traceparent":"tp","x-seq":"17"},"is_batch":false,"request_method":"POST","request_path":"/reaction/added","traceparent":"tp","tracestate":null}"#
    );
}

#[test]
fn the_sequence_comes_from_the_header_where_one_is_configured() {
    let id = |header: Option<&str>, body: &str| {
        handle(header, "/", body)[0].invocation_id.clone()
    };
    assert_eq!(id(Some("x-seq"), r#"{"sequence": 5}"#), "q1-17");
    assert_eq!(id(Some("traceparent"), r#"{"sequence": 5}"#), "q1-0");
    assert_eq!(id(Some("missing"), r#"{"sequence": 5}"#), "q1-0");
    assert_eq!(id(None, r#"{"sequence": -5}"#), "q1-0");
    assert_eq!(id(None, "{}"), "q1-0");
}

#[test]
fn the_type_comes_from_the_path_or_the_body() {
    let kind = |path: &str, body: &str| {
        handle(None, path, body)[0]
            .value
            .get_str("reaction_type")
            .unwrap()
            .to_string()
    };
    assert_eq!(kind("/updated/deleted", "{}"), "updated");
    assert_eq!(kind("/x/deleted", r#"{"type": "t"}"#), "deleted");
    assert_eq!(kind("/x", r#"{"type": "t"}"#), "t");
    assert_eq!(kind("/x", r#"{"type": 5}"#), "unknown");
}

#[test]
fn batches_are_numbered() {
    let invocations = handle(
        None,
        "/reaction",
        r#"[
            {"query_id": "a", "results": [{"before": 1, "after": 2}, {"after": 2}]},
            {"results": [{"before": 1}, {}]},
            {"no": 1}
        ]"#,
    );
    let ids: Vec<&str> = invocations.iter().map(|i| i.invocation_id.as_str()).collect();
    assert_eq!(ids, vec!["a-0", "a-1", "q1-1000", "q1-1001"]);
    let kinds: Vec<&str> = invocations
        .iter()
        .map(|i| i.value.get_str("reaction_type").unwrap())
        .collect();
    assert_eq!(kinds, vec!["updated", "added", "deleted", "unknown"]);
    assert_eq!(
        shown(&invocations[2].value),
        r#"{"batch_index":1,"query_id":"q1","reaction_type":"deleted","request_body":{"before":1},"result_index":0}"#
    );
    assert_eq!(
        invocations[0].metadata.get("is_batch"),
        Some(&Json::Bool(true))
    );
}

#[test]
fn one_batch_may_come_alone() {
    let invocations = handle(None, "/", r#"{"query_id": "a", "results": [{"after": 1}]}"#);
    assert_eq!(invocations.len(), 1);
    assert_eq!(invocations[0].invocation_id, "a-0");
    assert_eq!(handle(None, "/", r#"{"results": 5}"#).len(), 0);
    assert_eq!(handle(None, "/x/batch", r#"{"after": 5}"#).len(), 0);
    assert!(carries_batch("/x/batches", &Json::Null));
    assert!(!carries_batch("/x/batc", &Json::Null));
}

#[test]
fn responses() {
    assert_eq!(response(true, false), (true, "Batch processed"));
    assert_eq!(response(false, true), (true, "OK"));
    assert_eq!(response(false, false), (false, "Internal Instance Error"));
}

#[test]
fn the_life_of_a_handler() {
    let mut status = ReactionHandlerStatus::Uninitialized;
    assert_eq!(
        status.request(HandlerRequest::Start).unwrap_err(),
        "Can't Start Handler, Handler Uninitialized"
    );
    assert_eq!(
        status.request(HandlerRequest::Pause).unwrap_err(),
        "Can't Pause Handler, Handler Uninitialized"
    );
    assert_eq!(
        status.request(HandlerRequest::Stop).unwrap_err(),
        "Handler not initialized, current status: Uninitialized"
    );
    assert_eq!(status.wait_step(), WaitStep::LookAgain);
    assert!(status.request(HandlerRequest::Init).unwrap());
    assert_eq!(status, ReactionHandlerStatus::Paused);
    assert_eq!(status.wait_step(), WaitStep::Wait);
    assert_eq!(
        status.request(HandlerRequest::Init).unwrap_err(),
        "Can't Init Handler, Handler currently Paused"
    );
    assert!(!status.request(HandlerRequest::Pause).unwrap());
    assert!(status.request(HandlerRequest::Start).unwrap());
    assert_eq!(status.wait_step(), WaitStep::Serve);
    assert!(!status.request(HandlerRequest::Start).unwrap());
    assert_eq!(
        status.request(HandlerRequest::Init).unwrap_err(),
        "Can't Init Handler, Handler currently Running"
    );
    assert!(status.request(HandlerRequest::Pause).unwrap());
    assert!(status.request(HandlerRequest::Stop).unwrap());
    assert_eq!(status.wait_step(), WaitStep::Exit);
    assert!(!status.request(HandlerRequest::Stop).unwrap());
    assert_eq!(
        status.request(HandlerRequest::Start).unwrap_err(),
        "Can't Start Handler, Handler already Stopped"
    );
    assert_eq!(
        status.request(HandlerRequest::Pause).unwrap_err(),
        "Can't Pause Handler, Handler already Stopped"
    );
    assert_eq!(
        status.request(HandlerRequest::Init).unwrap_err(),
        "Can't Init Handler, Handler currently Stopped"
    );
    let mut status = ReactionHandlerStatus::Error;
    for request in [
        HandlerRequest::Init,
        HandlerRequest::Start,
        HandlerRequest::Pause,
        HandlerRequest::Stop,
    ] {
        assert_eq!(status.request(request).unwrap_err(), "Handler in Error state");
    }
}

#[test]
fn recorded_batches_describe_the_same_changes() {
    let results = r#"[
        {"after": {"id": 1}},
        {"before": {"id": 1}, "after": {"id": 2}},
        {"after": {"id": 3}},
        {"before": {"id": 3}}
    ]"#;
    let mut recorded = FinalStateMaterializer::default();
    for invocation in handle(None, "/r", &format!(r#"{{"query_id": "q1", "results": {results}}}"#)) {
        recorded.apply_payload("", &invocation.value).unwrap();
    }
    let mut direct = FinalStateMaterializer::default();
    let batch = request_body(&format!(r#"{{"query_id": "q1", "results": {results}}}"#));
    direct.apply_payload("", &batch).unwrap();
    assert_eq!(recorded.summary().row_count, 1);
    assert_eq!(recorded.summary().sha256, direct.summary().sha256);
    assert_eq!(recorded.summary().normalization_error_count, 0);
}

#[test]
fn recorded_requests_describe_the_same_change() {
    let body = r#"{"operation": "ADD", "after": {"id": 1}}"#;
    let mut recorded = FinalStateMaterializer::default();
    for invocation in handle(None, "/r/deleted", body) {
        recorded.apply_payload("", &invocation.value).unwrap();
    }
    let mut direct = FinalStateMaterializer::default();
    let framed = request_body(&format!(r#"{{"query_id": "q1", "result": {body}}}"#));
    direct.apply_payload("", &framed).unwrap();
    assert_eq!(recorded.summary().sha256, direct.summary().sha256);
}
