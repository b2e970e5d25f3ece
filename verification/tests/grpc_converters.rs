use e2e_test_framework::grpc_converters::{
    convert_from_drasi_query_result, convert_to_drasi_source_change, extract_properties,
    json_to_proto_value, proto_value_to_json, Change, ChangeType, Element, ProtoValue,
    QueryResultItem, ReceivedValue,
};
use e2e_test_framework::json::{parse_json, to_value, FloatNumber, Json};
use e2e_test_framework::scripts::{
    SourceChangeEvent, SourceChangeEventPayload, SourceChangeEventSourceInfo,
};

fn json(text: &str) -> Json {
    parse_json(text).unwrap()
}

fn event(op: &str, before: &str, after: &str) -> SourceChangeEvent {
    SourceChangeEvent {
        op: op.to_string(),
        reactivator_start_ns: 1,
        reactivator_end_ns: 2,
        payload: SourceChangeEventPayload {
            source: SourceChangeEventSourceInfo {
                db: "db".to_string(),
                lsn: 1,
                table: "node".to_string(),
                ts_ns: 3_000_000_007,
            },
            before: json(before),
            after: json(after),
        },
    }
}

fn float(number: f64) -> FloatNumber {
    FloatNumber::new(serde_json::Number::from_f64(number).unwrap()).unwrap()
}

#[test]
fn nodes_are_sent_with_their_properties() {
    let change = convert_to_drasi_source_change(
        &event(
            "insert",
            "null",
            r#"{"id": "n", "labels": ["A", 1], "properties": {"b": 1, "a": [true, null, -2, 0.5]}}"#,
        ),
        "src",
    );
    assert_eq!(change.change_type, ChangeType::Insert);
    assert_eq!(change.timestamp_seconds, 3);
    assert_eq!(change.timestamp_nanos, 7);
    assert_eq!(change.source_id, "src");
    let (metadata, properties) = match change.change.unwrap() {
        Change::Element(Element::Node { metadata, properties }) => (metadata, properties),
        other => panic!("{other:?}"),
    };
    assert_eq!(metadata.reference.source_id, "src");
    assert_eq!(metadata.reference.element_id, "n");
    assert_eq!(metadata.labels, vec!["A".to_string()]);
    assert_eq!(metadata.effective_from, 3_000_000_007);
    assert_eq!(properties[0].0, "a");
    assert_eq!(properties[1].0, "b");
    assert!(matches!(properties[1].1, ProtoValue::Unsigned(1)));
    match &properties[0].1 {
        ProtoValue::List(items) => {
            assert!(matches!(items[0], ProtoValue::Bool(true)));
            assert!(matches!(items[1], ProtoValue::Null));
            assert!(matches!(items[2], ProtoValue::Signed(-2)));
            assert!(matches!(items[3], ProtoValue::Float(_)));
        }
        other => panic!("{other:?}"),
    }
}

#[test]
fn relations_have_both_ends() {
    let change = convert_to_drasi_source_change(
        &event(
            "u",
            "null",
            r#"{"id": "r", "startId": "a", "end_id": "b", "end_source_id": "other", "x": "y"}"#,
        ),
        "src",
    );
    assert_eq!(change.change_type, ChangeType::Update);
    match change.change.unwrap() {
        Change::Element(Element::Relation { in_node, out_node, properties, .. }) => {
            assert_eq!(in_node.source_id, "src");
            assert_eq!(in_node.element_id, "a");
            assert_eq!(out_node.source_id, "other");
            assert_eq!(out_node.element_id, "b");
            assert_eq!(properties.len(), 1);
            assert_eq!(properties[0].0, "x");
        }
        other => panic!("{other:?}"),
    }
    // One end alone makes no relation, and a key that is there but no text hides the other.
    for after in [
        r#"{"id": "r", "startId": "a"}"#,
        r#"{"id": "r", "startId": 5, "start_id": "a", "endId": "b"}"#,
    ] {
        let change = convert_to_drasi_source_change(&event("i", "null", after), "src");
        assert!(matches!(
            change.change,
            Some(Change::Element(Element::Node { .. }))
        ));
    }
}

#[test]
fn deletes_are_named_by_either_state() {
    for (before, after, id) in [
        (r#"{"id": "x"}"#, r#"{"id": "y"}"#, "x"),
        ("null", r#"{"id": "y"}"#, "y"),
        ("null", r#"{"labels": []}"#, ""),
    ] {
        match convert_to_drasi_source_change(&event("d", before, after), "src").change {
            Some(Change::Metadata(metadata)) => assert_eq!(metadata.reference.element_id, id),
            other => panic!("{other:?}"),
        }
    }
    let nothing = convert_to_drasi_source_change(&event("delete", "null", "[]"), "src");
    assert!(nothing.change.is_none());
    let unknown = convert_to_drasi_source_change(&event("x", "{}", "{}"), "src");
    assert_eq!(unknown.change_type, ChangeType::Unspecified);
    assert!(unknown.change.is_none());
    let insert = convert_to_drasi_source_change(&event("i", "{}", "5"), "src");
    assert!(insert.change.is_none());
}

#[test]
fn special_keys_are_no_properties() {
    let properties = extract_properties(&json(
        r#"{"id": 1, "labels": 1, "startId": 1, "start_id": 1, "endId": 1, "end_id": 1,
            "startSourceId": 1, "start_source_id": 1, "endSourceId": 1, "end_source_id": 1,
            "properties": 1, "kept": 2}"#,
    ));
    assert_eq!(properties.len(), 1);
    assert_eq!(properties[0].0, "kept");
    assert_eq!(extract_properties(&json("[]")).len(), 0);
    assert!(matches!(
        json_to_proto_value(&json("18446744073709551615")),
        ProtoValue::Unsigned(u64::MAX)
    ));
}

#[test]
fn received_values_leave_out_what_json_lacks() {
    let value = ReceivedValue::Struct(vec![
        ("z".to_string(), ReceivedValue::Unset),
        ("y".to_string(), ReceivedValue::NotFinite),
        (
            "b".to_string(),
            ReceivedValue::List(vec![
                ReceivedValue::Number(float(1.5)),
                ReceivedValue::NotFinite,
                ReceivedValue::Null,
            ]),
        ),
        ("a".to_string(), ReceivedValue::Text("t".to_string())),
        ("c".to_string(), ReceivedValue::Bool(false)),
    ]);
    let json = proto_value_to_json(&value).unwrap();
    assert_eq!(
        to_value(&json).to_string(),
        r#"{"a":"t","b":[1.5,null],"c":false}"#
    );
    assert!(proto_value_to_json(&ReceivedValue::Unset).is_none());
    assert!(proto_value_to_json(&ReceivedValue::NotFinite).is_none());
}

#[test]
fn query_results_become_reaction_payloads() {
    let fields = |key: &str| Some(vec![(key.to_string(), ReceivedValue::Null)]);
    let items = vec![
        QueryResultItem {
            item_type: "ADD".to_string(),
            data: fields("d"),
            before: fields("b"),
            after: fields("a"),
        },
        QueryResultItem {
            item_type: "UPDATE".to_string(),
            data: Some(vec![(
                "type".to_string(),
                ReceivedValue::Text("own".to_string()),
            )]),
            before: fields("b"),
            after: None,
        },
    ];
    let out = convert_from_drasi_query_result(&items);
    assert_eq!(out.len(), 2);
    assert_eq!(to_value(&out[0]).to_string(), r#"{"d":null,"type":"ADD"}"#);
    assert_eq!(
        to_value(&out[1]).to_string(),
        r#"{"before":{"b":null},"type":"own"}"#
    );
}

/// What a value that was sent is received as.
fn received(value: ProtoValue) -> ReceivedValue {
    match value {
        ProtoValue::Null => ReceivedValue::Null,
        ProtoValue::Bool(b) => ReceivedValue::Bool(b),
        ProtoValue::Signed(n) => ReceivedValue::Number(float(n as f64)),
        ProtoValue::Unsigned(n) => ReceivedValue::Number(float(n as f64)),
        ProtoValue::Float(number) => ReceivedValue::Number(number),
        ProtoValue::Text(text) => ReceivedValue::Text(text),
        ProtoValue::List(items) => ReceivedValue::List(items.into_iter().map(received).collect()),
        ProtoValue::Struct(fields) => ReceivedValue::Struct(
            fields.into_iter().map(|(name, value)| (name, received(value))).collect(),
        ),
    }
}

#[test]
fn values_survive_the_way() {
    let value = json(r#"{"a": [null, true, 1.5, "t", {"b": -2.5, "c": {}}], "d": []}"#);
    assert_eq!(proto_value_to_json(&received(json_to_proto_value(&value))), Some(value));
    // An integer comes back as a floating-point number.
    let integer = proto_value_to_json(&received(json_to_proto_value(&json("1")))).unwrap();
    assert_eq!(to_value(&integer).to_string(), "1.0");
}
