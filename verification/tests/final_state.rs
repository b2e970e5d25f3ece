use e2e_test_framework::json::{parse_json, to_value, FloatNumber, Json};
use e2e_test_framework::reactions::output_loggers::canonical_json::{
    sort_json_keys, strip_volatile_keys,
};
use e2e_test_framework::reactions::output_loggers::final_state::{
    canonical_row, has_change_shape, integral_text_value, normalize_change, normalize_changes,
    normalize_json_numbers, FinalStateMaterializer, RowChange,
};
use serde_json::Value;

fn json(text: &str) -> Json {
    parse_json(text).unwrap()
}

fn value(text: &str) -> Value {
    serde_json::from_str(text).unwrap()
}

fn apply(materializer: &mut FinalStateMaterializer, payload: &str) {
    let payload = json(payload);
    assert!(materializer.has_room_for(&payload));
    materializer.apply_payload("", &payload).unwrap();
}

#[test]
fn materializes_add_update_delete() {
    let mut materializer = FinalStateMaterializer::default();
    apply(
        &mut materializer,
        r#"{"result": {"type": "ADD", "after": {"id": 1, "value": "a"}}}"#,
    );
    apply(
        &mut materializer,
        r#"{"result": {
            "type": "UPDATE",
            "before": {"id": 1, "value": "a"},
            "after": {"id": 1, "value": "b"}
        }}"#,
    );
    apply(
        &mut materializer,
        r#"{"result": {"type": "ADD", "after": {"id": 2}}}"#,
    );
    apply(
        &mut materializer,
        r#"{"result": {"type": "DELETE", "before": {"id": 2}}}"#,
    );

    let summary = materializer.summary();
    assert_eq!(summary.row_count, 1);
    assert_eq!(
        to_value(&summary.rows[0].value),
        value(r#"{"id": 1, "value": "b"}"#)
    );
}

#[test]
fn grpc_and_http_shapes_produce_same_state() {
    let mut grpc = FinalStateMaterializer::default();
    apply(
        &mut grpc,
        r#"{"query_id": "q1", "result": {
            "type": "ADD",
            "after": {"id": 1.0, "value": "ok"}
        }}"#,
    );

    let mut http = FinalStateMaterializer::default();
    apply(
        &mut http,
        r#"{
            "query_id": "q1",
            "reaction_type": "added",
            "request_body": {"after": {"value": "ok", "id": 1}}
        }"#,
    );

    assert_eq!(grpc.summary().sha256, http.summary().sha256);
}

#[test]
fn keyed_adds_replace_prior_aggregate_snapshots() {
    let mut materializer = FinalStateMaterializer::new(vec!["FloorId".to_string()]);
    apply(
        &mut materializer,
        r#"{"result": {"type": "ADD", "after": {
            "FloorId": "F1", "RoomCount": 1
        }}}"#,
    );
    apply(
        &mut materializer,
        r#"{"result": {"type": "ADD", "after": {
            "FloorId": "F1", "RoomCount": 2
        }}}"#,
    );

    let summary = materializer.summary();
    assert_eq!(summary.row_count, 1);
    assert_eq!(summary.upsert_count, 1);
    assert_eq!(summary.duplicate_count, 0);
    assert_eq!(
        to_value(&summary.rows[0].value),
        value(r#"{"FloorId": "F1", "RoomCount": 2}"#)
    );
}

#[test]
fn keyed_grpc_snapshots_match_http_updates() {
    let key_fields = vec!["FloorId".to_string()];
    let mut grpc = FinalStateMaterializer::new(key_fields.clone());
    apply(
        &mut grpc,
        r#"{"result": {"type": "ADD", "after": {
            "FloorId": "F1", "RoomCount": 1.0
        }}}"#,
    );
    apply(
        &mut grpc,
        r#"{"result": {"type": "ADD", "after": {
            "FloorId": "F1", "RoomCount": 2.0
        }}}"#,
    );

    let mut http = FinalStateMaterializer::new(key_fields);
    apply(
        &mut http,
        r#"{"reaction_type": "added", "request_body": {
            "operation": "ADD",
            "after": {"FloorId": "F1", "RoomCount": 1}
        }}"#,
    );
    apply(
        &mut http,
        r#"{"reaction_type": "updated", "request_body": {
            "operation": "UPDATE",
            "before": {"FloorId": "F1", "RoomCount": 1},
            "after": {"FloorId": "F1", "RoomCount": 2}
        }}"#,
    );

    let grpc = grpc.summary();
    let http = http.summary();
    assert_eq!(grpc.sha256, http.sha256);
    assert_eq!(
        to_value(&grpc.rows[0].value),
        to_value(&http.rows[0].value)
    );
}

#[test]
fn records_normalization_errors_instead_of_silently_dropping_them() {
    let mut materializer = FinalStateMaterializer::default();
    apply(
        &mut materializer,
        r#"{"result": {"type": "UNKNOWN", "after": {"id": 1}}}"#,
    );

    let summary = materializer.summary();
    assert_eq!(summary.normalization_error_count, 1);
    assert_eq!(summary.row_count, 0);
    assert!(summary.normalization_errors[0].contains("unsupported"));
}

#[test]
fn skips_control_records_without_treating_them_as_errors() {
    let mut materializer = FinalStateMaterializer::default();
    apply(
        &mut materializer,
        r#"{"kind": "control", "queryId": "q1", "controlSignal": {"kind": "running"}}"#,
    );

    let summary = materializer.summary();
    assert_eq!(summary.normalization_error_count, 0);
    assert_eq!(summary.skipped_record_count, 1);
}

#[test]
fn independent_row_order_does_not_change_hash() {
    let mut first = FinalStateMaterializer::default();
    let mut second = FinalStateMaterializer::default();
    apply(
        &mut first,
        r#"{"results": [
            {"type": "ADD", "after": {"id": 1}},
            {"type": "ADD", "after": {"id": 2}}
        ]}"#,
    );
    apply(
        &mut second,
        r#"{"results": [
            {"type": "ADD", "after": {"id": 2}},
            {"type": "ADD", "after": {"id": 1}}
        ]}"#,
    );

    assert_eq!(first.summary().sha256, second.summary().sha256);
}

#[test]
fn duplicate_replay_is_idempotent() {
    let mut materializer = FinalStateMaterializer::default();
    let add = r#"{"result": {"type": "ADD", "after": {"id": 1}}}"#;
    apply(&mut materializer, add);
    apply(&mut materializer, add);

    let summary = materializer.summary();
    assert_eq!(summary.row_count, 1);
    assert_eq!(summary.duplicate_count, 1);
}

#[test]
fn supports_in_process_change_batches() {
    let mut materializer = FinalStateMaterializer::default();
    apply(
        &mut materializer,
        r#"{
            "queryId": "q1",
            "addedResults": [{"id": 1}, {"id": 2}],
            "updatedResults": [{
                "before": {"id": 2},
                "after": {"id": 2, "value": "updated"}
            }],
            "deletedResults": [{"id": 1}]
        }"#,
    );

    let summary = materializer.summary();
    assert_eq!(summary.row_count, 1);
    assert_eq!(
        to_value(&summary.rows[0].value),
        value(r#"{"id": 2, "value": "updated"}"#)
    );
}

#[test]
fn rejects_malformed_changes() {
    let mut materializer = FinalStateMaterializer::default();
    materializer
        .apply_payload(
            "",
            &json(r#"{"result": {"type": "UPDATE", "after": {"id": 1}}}"#),
        )
        .unwrap();
    let summary = materializer.summary();
    assert_eq!(summary.normalization_error_count, 1);
    assert!(summary.normalization_errors[0].contains("requires both"));
}

fn change_error(text: &str) -> String {
    normalize_changes(&json(text)).unwrap_err()
}

#[test]
fn each_malformed_payload_has_its_message() {
    assert_eq!(
        change_error("[]"),
        "final-state payload must be a JSON object"
    );
    assert_eq!(
        change_error(r#"{"query_id": "q"}"#),
        "unsupported final-state reaction payload shape"
    );
    assert_eq!(
        change_error(r#"{"result": {"type": "Added"}}"#),
        "add change is missing an 'after' row"
    );
    assert_eq!(
        change_error(r#"{"result": {"type": "updated", "before": 1, "after": null}}"#),
        "update change requires both 'before' and 'after' rows"
    );
    assert_eq!(
        change_error(r#"{"result": {"operation": "DELETED", "after": 1}}"#),
        "delete change is missing a 'before' row"
    );
    assert_eq!(
        change_error(r#"{"result": {"type": "MeRGE"}}"#),
        "unsupported final-state operation 'merge'"
    );
    assert_eq!(
        change_error(r#"{"result": {}}"#),
        "change has neither a 'before' nor an 'after' row"
    );
    assert_eq!(
        change_error(r#"{"updatedResults": [{}], "addedResults": [1]}"#),
        "change has neither a 'before' nor an 'after' row"
    );
}

#[test]
fn rows_decide_where_no_operation_is_named() {
    assert!(matches!(
        normalize_change(&json(r#"{"after": 1}"#)).unwrap(),
        RowChange::Add(Json::Unsigned(1))
    ));
    assert!(matches!(
        normalize_change(&json(r#"{"before": 1, "after": 2}"#)).unwrap(),
        RowChange::Update {
            before: Json::Unsigned(1),
            after: Json::Unsigned(2)
        }
    ));
    assert!(matches!(
        normalize_change(&json(r#"{"before": 1}"#)).unwrap(),
        RowChange::Delete(Json::Unsigned(1))
    ));
    // `type` wins over `operation` even where it is no text.
    assert!(matches!(
        normalize_change(&json(r#"{"type": 7, "operation": "DELETE", "after": 1}"#)).unwrap(),
        RowChange::Add(_)
    ));
    // A bare change, and a recorded request with the reaction's own type.
    assert_eq!(
        normalize_changes(&json(r#"{"operation": "ADD", "after": 1}"#))
            .unwrap()
            .len(),
        1
    );
    assert!(matches!(
        normalize_changes(&json(
            r#"{"reaction_type": "deleted", "request_body": {"before": 1, "after": 2}}"#
        ))
        .unwrap()[0],
        RowChange::Delete(_)
    ));
    assert!(has_change_shape(&json(r#"{"before": null}"#)));
    assert!(!has_change_shape(&json(r#"{"x": null}"#)));
}

#[test]
fn batch_keys_without_arrays_describe_no_change() {
    let mut materializer = FinalStateMaterializer::default();
    apply(&mut materializer, r#"{"addedResults": 5}"#);
    apply(&mut materializer, r#"{"results": []}"#);
    let summary = materializer.summary();
    assert_eq!(summary.skipped_record_count, 2);
    assert_eq!(summary.query_ids.len(), 0);
}

#[test]
fn only_the_first_errors_are_kept() {
    let mut materializer = FinalStateMaterializer::default();
    for i in 0..25 {
        apply(
            &mut materializer,
            &format!(r#"{{"result": {{"type": "op{i}"}}}}"#),
        );
    }
    let summary = materializer.summary();
    assert_eq!(summary.normalization_error_count, 25);
    assert_eq!(summary.normalization_errors.len(), 20);
    assert_eq!(
        summary.normalization_errors[19],
        "unsupported final-state operation 'op19'"
    );
}

#[test]
fn updates_and_deletes_of_missing_rows_are_counted() {
    let mut materializer = FinalStateMaterializer::default();
    apply(
        &mut materializer,
        r#"{"result": {"type": "UPDATE", "before": {"id": 1}, "after": {"id": 2}}}"#,
    );
    let summary = materializer.summary();
    assert_eq!(summary.missing_before_count, 1);
    assert_eq!(summary.row_count, 1);
    // The old row is gone and the new one is there: the same update again is a duplicate.
    apply(
        &mut materializer,
        r#"{"result": {"type": "UPDATE", "before": {"id": 1}, "after": {"id": 2}}}"#,
    );
    apply(
        &mut materializer,
        r#"{"result": {"type": "DELETE", "before": {"id": 9}}}"#,
    );
    let summary = materializer.summary();
    assert_eq!(summary.duplicate_count, 2);
    assert_eq!(summary.missing_before_count, 1);
    assert_eq!(summary.change_count, 3);
    assert_eq!(summary.row_count, 1);
}

#[test]
fn rows_without_their_key_fields_are_errors() {
    let mut materializer = FinalStateMaterializer::new(vec!["id".to_string(), "n".to_string()]);
    assert_eq!(
        materializer
            .apply_payload("", &json(r#"{"result": {"after": {"id": 1}}}"#))
            .unwrap_err(),
        "final-state row is missing configured key field 'n'"
    );
    assert_eq!(
        materializer
            .apply_payload("", &json(r#"{"result": {"after": 5}}"#))
            .unwrap_err(),
        "key_fields require each final-state row to be a JSON object"
    );
    let summary = materializer.summary();
    assert_eq!(summary.change_count, 2);
    assert_eq!(summary.row_count, 0);
    assert_eq!(summary.query_ids, vec!["unknown".to_string()]);
    assert_eq!(summary.key_fields, vec!["id".to_string(), "n".to_string()]);
}

#[test]
fn the_hash_is_made_of_queries_and_row_hashes() {
    let mut materializer = FinalStateMaterializer::default();
    materializer
        .apply_payload("q2", &json(r#"{"result": {"after": {"b": 1, "a": 2.0}}}"#))
        .unwrap();
    materializer
        .apply_payload("q1", &json(r#"{"result": {"after": "x"}}"#))
        .unwrap();
    let summary = materializer.summary();
    let row = |text: &str| {
        use_digest(text.as_bytes())
    };
    let first = row("\"x\"");
    let second = row(r#"{"a":2,"b":1}"#);
    assert_eq!(summary.rows[0].query_id, "q1");
    assert_eq!(summary.rows[0].sha256, first);
    assert_eq!(summary.rows[1].query_id, "q2");
    assert_eq!(summary.rows[1].sha256, second);
    let message = format!("q1\0{first}\nq2\0{second}\n");
    assert_eq!(summary.sha256, use_digest(message.as_bytes()));
    assert_eq!(summary.mode, "final_state");
    assert_eq!(
        summary.query_ids,
        vec!["q1".to_string(), "q2".to_string()]
    );
    // The hash of no rows is the digest of nothing.
    assert_eq!(
        FinalStateMaterializer::default().summary().sha256,
        "e3b0c44298fc1c149afbf4c8996fb92427ae41e4649b934ca495991b7852b855"
    );
}

fn use_digest(bytes: &[u8]) -> String {
    let digest = <sha2::Sha256 as sha2::Digest>::digest(bytes);
    hex::encode(digest)
}

#[test]
fn deleting_an_added_row_restores_the_hash() {
    let mut materializer = FinalStateMaterializer::default();
    apply(&mut materializer, r#"{"result": {"after": {"id": 1}}}"#);
    let before = materializer.summary().sha256;
    apply(&mut materializer, r#"{"result": {"after": {"id": 2}}}"#);
    assert_ne!(materializer.summary().sha256, before);
    apply(&mut materializer, r#"{"result": {"before": {"id": 2}}}"#);
    assert_eq!(materializer.summary().sha256, before);
}

#[test]
fn integral_numbers_are_integers() {
    assert_eq!(integral_text_value("1.0"), Some(1));
    assert_eq!(integral_text_value("-0.0"), Some(0));
    assert_eq!(integral_text_value("-12.0"), Some(-12));
    assert_eq!(
        integral_text_value("9007199254740991.0"),
        Some(9007199254740991)
    );
    assert_eq!(integral_text_value("9007199254740992.0"), None);
    assert_eq!(integral_text_value("1.5"), None);
    assert_eq!(integral_text_value("1e16"), None);
    assert_eq!(integral_text_value("0.10"), None);
    assert_eq!(integral_text_value(".0"), None);
    assert_eq!(integral_text_value("-.0"), None);
    assert_eq!(integral_text_value(""), None);
}

#[test]
fn printed_numbers_tell_which_are_integral() {
    let limit = 9007199254740991.0f64;
    for number in [
        0.0,
        -0.0,
        1.0,
        -1.0,
        0.5,
        1e15,
        123456789012345.0,
        limit,
        -limit,
        limit + 1.0,
        1e16,
        1e300,
        1e-7,
        5e-324,
        0.1 + 0.2,
    ] {
        let json = Json::Float(
            FloatNumber::new(serde_json::Number::from_f64(number).unwrap()).unwrap(),
        );
        let normalized = normalize_json_numbers(json);
        if number.fract() == 0.0 && number.abs() <= limit {
            let expected = if number >= 0.0 {
                Json::Unsigned(number as u64)
            } else {
                Json::Signed(number as i64)
            };
            assert_eq!(normalized, expected, "{number}");
        } else {
            assert!(matches!(normalized, Json::Float(_)), "{number}");
        }
    }
    assert!(FloatNumber::new(serde_json::Number::from(5)).is_none());
}

#[test]
fn canonical_rows_have_sorted_keys_and_plain_integers() {
    let (bytes, row) = canonical_row(json(
        r#"{"b": [1.0, {"z": null, "y": true}], "a": -3.0, "aa": 0.25, "A": "é\"" }"#,
    ));
    assert_eq!(
        String::from_utf8(bytes.clone()).unwrap(),
        "{\"A\":\"\u{e9}\\\"\",\"a\":-3,\"aa\":0.25,\"b\":[1,{\"y\":true,\"z\":null}]}"
    );
    let (again, _) = canonical_row(row);
    assert_eq!(again, bytes);
}

#[test]
fn later_fields_replace_earlier_ones() {
    let twice = Json::Object(vec![
        ("a".to_string(), Json::Unsigned(1)),
        ("a".to_string(), Json::Unsigned(2)),
    ]);
    assert_eq!(twice.get("a"), Some(&Json::Unsigned(2)));
    assert_eq!(
        sort_json_keys(twice),
        Json::Object(vec![("a".to_string(), Json::Unsigned(2))])
    );
}

#[test]
fn sorting_and_stripping_reach_every_depth() {
    let sorted = sort_json_keys(json(r#"[{"b": {"d": 1, "c": 2}, "a": [{"f": 1, "e": 2}]}]"#));
    assert_eq!(
        to_value(&sorted).to_string(),
        r#"[{"a":[{"e":2,"f":1}],"b":{"c":2,"d":1}}]"#
    );
    let again = sort_json_keys(sorted.clone());
    assert_eq!(again, sorted);
    let stripped = strip_volatile_keys(json(
        r#"{"timestamp": 1, "a": [{"sequenceId": 2, "b": {"timestamp": {"c": 1}, "d": 4}}]}"#,
    ));
    assert_eq!(
        to_value(&sort_json_keys(stripped)).to_string(),
        r#"{"a":[{"b":{"d":4}}]}"#
    );
}

#[test]
fn repeated_rows_in_any_order_leave_the_same_rows() {
    let add = |rows: &[&str]| {
        let mut materializer = FinalStateMaterializer::default();
        for row in rows {
            let payload = format!(r#"{{"query_id": "q1", "result": {{"type": "ADD", "after": {row}}}}}"#);
            apply(&mut materializer, &payload);
        }
        materializer.summary()
    };
    let once = add(&[r#"{"id": 1}"#, r#"{"id": 2}"#, r#"{"id": 3}"#]);
    let again = add(&[
        r#"{"id": 3}"#,
        r#"{"id": 1}"#,
        r#"{"id": 3}"#,
        r#"{"id": 2.0}"#,
        r#"{"id": 1}"#,
    ]);
    assert_eq!(once.sha256, again.sha256);
    assert_eq!(once.rows.len(), again.rows.len());
    for (a, b) in once.rows.iter().zip(&again.rows) {
        assert_eq!((&a.query_id, &a.sha256, &a.value), (&b.query_id, &b.sha256, &b.value));
    }
    assert_eq!(once.duplicate_count, 0);
    assert_eq!(again.duplicate_count, 2);
}
