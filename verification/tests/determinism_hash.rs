use e2e_test_framework::common::{HandlerPayload, HandlerRecord};
use e2e_test_framework::ids::{TestRunId, TestRunReactionId};
use e2e_test_framework::json::{parse_json, Json};
use e2e_test_framework::reactions::output_loggers::determinism_hash_logger::{
    canonical_payload_bytes, DeterminismHashMode, DeterminismHashOutputLogger,
    DeterminismHashOutputLoggerConfig,
};

fn json(text: &str) -> Json {
    parse_json(text).unwrap()
}

fn make_record(seq: u64, payload: HandlerPayload) -> HandlerRecord {
    HandlerRecord {
        id: format!("rec-{seq}"),
        sequence: seq,
        created_time_ns: seq * 1_000_000,
        processed_time_ns: seq * 1_000_000 + 500,
        traceparent: None,
        tracestate: None,
        payload,
    }
}

fn output(seq: u64, text: &str) -> HandlerRecord {
    make_record(
        seq,
        HandlerPayload::ReactionOutput {
            reaction_output: json(text),
        },
    )
}

fn invocation(seq: u64, reaction_type: &str, path: &str, body: &str) -> HandlerRecord {
    make_record(
        seq,
        HandlerPayload::ReactionInvocation {
            reaction_type: reaction_type.into(),
            query_id: "q1".into(),
            request_method: "POST".into(),
            request_path: path.into(),
            request_body: json(body),
            headers: Default::default(),
        },
    )
}

fn reaction_id() -> TestRunReactionId {
    let test_run_id = TestRunId::new("repo", "test", "run");
    TestRunReactionId::new(&test_run_id, "r")
}

fn log(logger: &mut DeterminismHashOutputLogger, record: &HandlerRecord) {
    assert!(logger.has_room_for(record));
    logger.log_handler_record(record).unwrap();
}

fn text(summary: &Json, key: &str) -> String {
    summary.get_str(key).unwrap().to_string()
}

#[test]
fn canonical_payload_uses_request_body_for_invocations() {
    let rec = invocation(1, "http", "/r", r#"{ "b": 2, "a": 1 }"#);
    let bytes = canonical_payload_bytes(&rec).unwrap();
    // Keys recursively sorted -> a before b.
    assert_eq!(std::str::from_utf8(&bytes).unwrap(), r#"{"a":1,"b":2}"#);
}

#[test]
fn canonical_payload_uses_reaction_output_for_outputs() {
    let rec = output(2, r#"{ "z": [3, 2, 1], "a": { "y": 1, "x": 2 } }"#);
    let bytes = canonical_payload_bytes(&rec).unwrap();
    // Array order is preserved; nested object keys are sorted.
    assert_eq!(
        std::str::from_utf8(&bytes).unwrap(),
        r#"{"a":{"x":2,"y":1},"z":[3,2,1]}"#
    );
}

#[test]
fn canonical_payload_skips_empty_results_heartbeat() {
    let rec = output(3, r#"{ "query_id": "q1", "results": [] }"#);
    assert!(canonical_payload_bytes(&rec).is_none());
}

#[test]
fn canonical_payload_keeps_non_empty_results() {
    let rec = output(4, r#"{ "query_id": "q1", "results": [{"a": 1}] }"#);
    assert!(canonical_payload_bytes(&rec).is_some());
}

#[test]
fn canonical_payload_strips_volatile_keys() {
    let with_volatile = invocation(
        5,
        "http",
        "/reaction",
        r#"{
            "operation": "ADD",
            "queryId": "q1",
            "sequenceId": 42,
            "timestamp": "2026-01-01T00:00:00+00:00",
            "after": { "id": 1 }
        }"#,
    );
    let without_volatile = invocation(
        6,
        "http",
        "/reaction",
        r#"{
            "operation": "ADD",
            "queryId": "q1",
            "sequenceId": 99,
            "timestamp": "2027-06-06T12:34:56+00:00",
            "after": { "id": 1 }
        }"#,
    );
    let a = canonical_payload_bytes(&with_volatile).unwrap();
    let b = canonical_payload_bytes(&without_volatile).unwrap();
    // Differing timestamp / sequenceId must not change the hashed bytes.
    assert_eq!(a, b);
    assert_eq!(
        std::str::from_utf8(&a).unwrap(),
        r#"{"after":{"id":1},"operation":"ADD","queryId":"q1"}"#
    );
}

#[test]
fn streaming_hash_ignores_interleaved_heartbeats() {
    let data1 = output(0, r#"{ "query_id": "q1", "result": { "v": 1 } }"#);
    let data2 = output(1, r#"{ "query_id": "q1", "result": { "v": 2 } }"#);
    let beat = output(2, r#"{ "query_id": "q1", "results": [] }"#);

    // Stream A: just the two data records.
    let mut a = DeterminismHashOutputLogger::new(reaction_id(), &Default::default());
    log(&mut a, &data1);
    log(&mut a, &data2);
    let a_sum = a.end_test_run();

    // Stream B: same two data records with five heartbeats sprinkled in.
    let mut b = DeterminismHashOutputLogger::new(reaction_id(), &Default::default());
    log(&mut b, &beat);
    log(&mut b, &data1);
    log(&mut b, &beat);
    log(&mut b, &beat);
    log(&mut b, &data2);
    log(&mut b, &beat);
    log(&mut b, &beat);
    let b_sum = b.end_test_run();

    assert_eq!(a_sum.summary, b_sum.summary);
    assert_eq!(
        a_sum.summary.as_ref().unwrap().get("record_count").unwrap().as_u64(),
        Some(2)
    );
}

#[test]
fn streaming_hash_is_stable_for_same_record_sequence() {
    let mut logger_a = DeterminismHashOutputLogger::new(reaction_id(), &Default::default());
    let mut logger_b = DeterminismHashOutputLogger::new(reaction_id(), &Default::default());

    let records = vec![
        output(0, r#"{ "value": 1 }"#),
        output(1, r#"{ "value": 2 }"#),
        output(2, r#"{ "value": 3 }"#),
    ];

    for r in &records {
        log(&mut logger_a, r);
        log(&mut logger_b, r);
    }
    let a = logger_a.end_test_run();
    let b = logger_b.end_test_run();
    assert_eq!(a.summary, b.summary);
    let summary = a.summary.as_ref().unwrap();
    assert_eq!(text(summary, "sha256").len(), 64);
    assert_eq!(summary.get("record_count").unwrap().as_u64(), Some(3));
}

#[test]
fn streaming_hash_differs_when_record_order_changes() {
    let r1 = output(0, r#"{ "value": 1 }"#);
    let r2 = output(1, r#"{ "value": 2 }"#);

    let mut forward = DeterminismHashOutputLogger::new(reaction_id(), &Default::default());
    log(&mut forward, &r1);
    log(&mut forward, &r2);
    let f = forward.end_test_run();

    let mut reverse = DeterminismHashOutputLogger::new(reaction_id(), &Default::default());
    log(&mut reverse, &r2);
    log(&mut reverse, &r1);
    let r = reverse.end_test_run();

    assert_ne!(f.summary, r.summary);
}

#[test]
fn final_state_hash_ignores_independent_row_order_and_duplicate_replay() {
    let config = DeterminismHashOutputLoggerConfig {
        mode: DeterminismHashMode::FinalState,
    };
    let row_one = invocation(
        1,
        "Grpc",
        "/",
        r#"{
            "query_id": "q1",
            "result": {"type": "ADD", "after": {"id": 1}}
        }"#,
    );
    let row_two = invocation(
        2,
        "Grpc",
        "/",
        r#"{
            "query_id": "q1",
            "result": {"type": "ADD", "after": {"id": 2}}
        }"#,
    );

    let mut first = DeterminismHashOutputLogger::new(reaction_id(), &config);
    log(&mut first, &row_one);
    log(&mut first, &row_two);
    let first = first.end_test_run();

    let mut second = DeterminismHashOutputLogger::new(reaction_id(), &config);
    log(&mut second, &row_two);
    log(&mut second, &row_one);
    log(&mut second, &row_one);
    let second = second.end_test_run();

    let first = first.summary.as_ref().unwrap();
    let second = second.summary.as_ref().unwrap();
    assert_eq!(text(first, "sha256"), text(second, "sha256"));
    assert_eq!(second.get("row_count").unwrap().as_u64(), Some(2));
    assert_eq!(second.get("duplicate_count").unwrap().as_u64(), Some(1));
}

#[test]
fn the_ordered_hash_covers_each_record_and_a_newline() {
    let mut logger = DeterminismHashOutputLogger::new(reaction_id(), &Default::default());
    log(&mut logger, &output(0, r#"{"b": 1.0, "a": "x"}"#));
    log(
        &mut logger,
        &make_record(
            1,
            HandlerPayload::ResultStream {
                query_result: json("{}"),
                stored_form: json(r#"{"kind": "s", "timestamp": 3}"#),
            },
        ),
    );
    let result = logger.end_test_run();
    assert!(result.has_output);
    assert_eq!(result.logger_name, "DeterminismHash");
    assert!(result.output_folder_path.is_none());
    let digest = <sha2::Sha256 as sha2::Digest>::digest(
        b"{\"a\":\"x\",\"b\":1.0}\n{\"kind\":\"s\"}\n",
    );
    let summary = result.summary.unwrap();
    assert_eq!(text(&summary, "mode"), "ordered_stream");
    assert_eq!(text(&summary, "sha256"), hex::encode(digest));
    // The hash starts anew, the count goes on.
    let again = logger.end_test_run().summary.unwrap();
    assert_eq!(
        text(&again, "sha256"),
        "e3b0c44298fc1c149afbf4c8996fb92427ae41e4649b934ca495991b7852b855"
    );
    assert_eq!(again.get("record_count").unwrap().as_u64(), Some(2));
}

#[test]
fn final_state_summaries_are_written_in_full() {
    let config = DeterminismHashOutputLoggerConfig {
        mode: DeterminismHashMode::FinalState,
    };
    let mut logger = DeterminismHashOutputLogger::new(reaction_id(), &config);
    log(&mut logger, &output(0, r#"{"queryId": "q", "result": {"after": {"id": 1.0}}}"#));
    log(
        &mut logger,
        &make_record(
            1,
            HandlerPayload::ResultStream {
                query_result: json(r#"{"kind": "control"}"#),
                stored_form: Json::Null,
            },
        ),
    );
    let summary = logger.end_test_run().summary.unwrap();
    assert_eq!(text(&summary, "mode"), "final_state");
    for (key, expected) in [
        ("row_count", 1),
        ("change_count", 1),
        ("duplicate_count", 0),
        ("upsert_count", 0),
        ("missing_before_count", 0),
        ("skipped_record_count", 1),
        ("normalization_error_count", 0),
    ] {
        assert_eq!(summary.get(key).unwrap().as_u64(), Some(expected), "{key}");
    }
    let rows = summary.get_array("rows").unwrap();
    assert_eq!(text(&rows[0], "query_id"), "q");
    assert_eq!(rows[0].get("value").unwrap().get("id").unwrap().as_u64(), Some(1));
    let queries = summary.get_array("query_ids").unwrap();
    assert_eq!(queries[0].as_str(), Some("q"));
    assert_eq!(summary.get_array("normalization_errors").unwrap().len(), 0);
    assert_eq!(summary.get_array("key_fields").unwrap().len(), 0);
}

#[test]
fn hashes_have_sixty_four_digits_and_texts_one_line() {
    let record = output(0, "{\"text\": \"a\\nb\"}");
    assert!(!canonical_payload_bytes(&record).unwrap().contains(&b'\n'));
    let mut config = DeterminismHashOutputLoggerConfig::default();
    for mode in [DeterminismHashMode::OrderedStream, DeterminismHashMode::FinalState] {
        config.mode = mode;
        let mut logger = DeterminismHashOutputLogger::new(reaction_id(), &config);
        log(&mut logger, &record);
        let summary = logger.end_test_run().summary.unwrap();
        let hash = text(&summary, "sha256");
        assert_eq!(hash.len(), 64);
        assert!(hash.chars().all(|c| c.is_ascii_digit() || ('a'..='f').contains(&c)));
    }
}
