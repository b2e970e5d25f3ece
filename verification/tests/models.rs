use e2e_test_framework::json::parse_json;
use e2e_test_framework::test_repo_storage::models::{
    default_diagnostic_limit, default_query_id, default_query_node_id, default_true, is_false,
    CommonTestSourceDefinition, DrasiLibInstanceConfig, EventGridReactionHandlerDefinition,
    MissingBaselinePolicy, ModelTestSourceDefinition, ParseQueryIdError, QueryId,
    ReactionHandlerDefinition, ScriptTestSourceDefinition, Sha256DeterminismHandlerConfig,
    SpacingMode, TestDefinition, TestDrasiLibInstanceDefinition, TestQueryDefinition,
    TestReactionDefinition, TestSourceDefinition, TimeMode,
};

#[test]
fn test_spacing_mode_from_str() {
    assert_eq!(SpacingMode::from_str("none").unwrap(), SpacingMode::Unspaced);
    assert_eq!(
        SpacingMode::from_str("recorded").unwrap(),
        SpacingMode::Recorded
    );
    assert_eq!(
        SpacingMode::from_str("100").unwrap(),
        SpacingMode::Rate(100)
    );
    assert_eq!(
        SpacingMode::from_str("1000").unwrap(),
        SpacingMode::Rate(1000)
    );
}

#[test]
fn test_spacing_mode_display() {
    assert_eq!(SpacingMode::Unspaced.text(), "none");
    assert_eq!(SpacingMode::Recorded.text(), "recorded");
    assert_eq!(SpacingMode::Rate(1000).text(), "1000");
}

#[test]
fn test_time_mode_from_str() {
    assert_eq!(TimeMode::from_str("live").unwrap(), TimeMode::Live);
    assert_eq!(TimeMode::from_str("recorded").unwrap(), TimeMode::Recorded);
    let timestamp = "2021-09-14T14:12:00Z";
    let parsed_time = chrono::DateTime::parse_from_rfc3339(timestamp)
        .unwrap()
        .timestamp_nanos_opt()
        .unwrap() as u64;
    assert_eq!(
        TimeMode::from_str(timestamp).unwrap(),
        TimeMode::Rebased(parsed_time)
    );
}

#[test]
fn test_time_mode_display() {
    assert_eq!(TimeMode::Live.text(), "live");
    assert_eq!(TimeMode::Recorded.text(), "recorded");
    assert_eq!(
        TimeMode::Rebased(1631629920000000000).text(),
        "1631629920000000000"
    );
}

#[test]
fn modes_are_named_in_any_case() {
    assert_eq!(SpacingMode::from_str("NONE").unwrap(), SpacingMode::Unspaced);
    assert_eq!(
        SpacingMode::from_str("ReCorded").unwrap(),
        SpacingMode::Recorded
    );
    assert_eq!(TimeMode::from_str("LIVE").unwrap(), TimeMode::Live);
    assert_eq!(TimeMode::from_str("Recorded").unwrap(), TimeMode::Recorded);
    // The Kelvin sign is a capital of `k` under Unicode, and no mode has one.
    assert!(SpacingMode::from_str("\u{212a}").is_err());
}

#[test]
fn spacing_mode_rejects_zero_and_other_texts() {
    assert_eq!(
        SpacingMode::from_str("0").unwrap_err(),
        "Invalid SpacingMode: 0"
    );
    let word = "fast".parse::<u32>().unwrap_err();
    assert_eq!(
        SpacingMode::from_str("fast").unwrap_err(),
        format!("Error parsing SpacingMode: {word}")
    );
    let large = "4294967296".parse::<u32>().unwrap_err();
    assert_eq!(
        SpacingMode::from_str("4294967296").unwrap_err(),
        format!("Error parsing SpacingMode: {large}")
    );
    assert_eq!(SpacingMode::from_str("+7").unwrap(), SpacingMode::Rate(7));
    assert!(SpacingMode::from_str("-7").is_err());
    assert!(SpacingMode::from_str("").is_err());
    assert!(SpacingMode::from_str("+").is_err());
}

#[test]
fn spacing_modes_are_read_back() {
    for mode in [
        SpacingMode::Unspaced,
        SpacingMode::Recorded,
        SpacingMode::Rate(1),
        SpacingMode::Rate(u32::MAX),
    ] {
        assert_eq!(SpacingMode::from_str(&mode.text()).unwrap(), mode);
    }
}

#[test]
fn time_mode_reports_what_it_cannot_read() {
    let error = chrono::DateTime::parse_from_rfc3339("yesterday").unwrap_err();
    assert_eq!(
        TimeMode::from_str("yesterday").unwrap_err(),
        format!("Error parsing TimeMode - value:yesterday, error:{error}")
    );
}

#[test]
fn time_modes_are_read_back_as_stored() {
    for mode in [
        TimeMode::Live,
        TimeMode::Recorded,
        TimeMode::Rebased(0),
        TimeMode::Rebased(1631629920000000000),
        TimeMode::Rebased(1631629920123456789),
        TimeMode::Rebased(i64::MAX as u64),
        TimeMode::Rebased(i64::MIN as u64),
        TimeMode::Rebased(u64::MAX),
    ] {
        assert_eq!(TimeMode::from_str(&mode.stored_text()).unwrap(), mode);
    }
    assert_eq!(
        TimeMode::Rebased(1631628720000000000).stored_text(),
        "2021-09-14T14:12:00+00:00"
    );
    assert_eq!(TimeMode::Live.stored_text(), "live");
}

#[test]
fn times_outside_the_range_are_told_apart() {
    assert!(TimeMode::from_str_in_range("3021-09-14T14:12:00Z").is_none());
    assert_eq!(
        TimeMode::from_str_in_range("live").unwrap().unwrap(),
        TimeMode::Live
    );
    assert!(TimeMode::from_str_in_range("yesterday").unwrap().is_err());
    assert_eq!(
        TimeMode::from_parsed("t", "t", Ok(Some(-1))).unwrap(),
        TimeMode::Rebased(u64::MAX)
    );
    assert_eq!(
        TimeMode::from_parsed("t", "t", Err("bad".to_string())).unwrap_err(),
        "Error parsing TimeMode - value:t, error:bad"
    );
}

#[test]
fn defaults() {
    assert_eq!(TimeMode::default(), TimeMode::Recorded);
    assert_eq!(SpacingMode::default(), SpacingMode::Recorded);
    assert_eq!(MissingBaselinePolicy::default(), MissingBaselinePolicy::Warn);
    assert_eq!(default_diagnostic_limit(), 20);
    assert!(!is_false());
    assert!(default_true());
    assert_eq!(default_query_node_id(), "default");
    assert_eq!(default_query_id(), "test_query");
    let config = Sha256DeterminismHandlerConfig::default();
    assert_eq!(config.diagnostic_limit, 20);
    assert!(config.golden_file.is_none());
    assert_eq!(config.expected.entries().len(), 0);
}

#[test]
fn query_ids_have_one_dot() {
    let id = QueryId::try_from("node.query").unwrap();
    assert_eq!(id.node_id, "node");
    assert_eq!(id.query_id, "query");
    let id = QueryId::try_from(".").unwrap();
    assert_eq!(id.node_id, "");
    assert_eq!(id.query_id, "");
    let id = QueryId::try_from("n\u{f8}de.\u{e9}").unwrap();
    assert_eq!(id.node_id, "n\u{f8}de");
    assert_eq!(id.query_id, "\u{e9}");
    for text in ["query", "a.b.c", ""] {
        let error = QueryId::try_from(text).unwrap_err();
        assert!(matches!(&error, ParseQueryIdError::InvalidFormat(t) if t == text));
        assert_eq!(error.text(), format!("Invalid format for QueryId - {text}"));
    }
    assert_eq!(
        ParseQueryIdError::InvalidValues("x".to_string()).text(),
        "Invalid values for QueryId - x"
    );
}

fn common(id: &str) -> CommonTestSourceDefinition {
    CommonTestSourceDefinition {
        test_source_id: id.to_string(),
        source_change_dispatchers: vec![],
        subscribers: vec![],
    }
}

fn definition() -> TestDefinition {
    TestDefinition {
        test_id: "t".to_string(),
        version: 1,
        description: None,
        test_folder: None,
        drasi_lib_instances: vec![],
        queries: vec![TestQueryDefinition {
            test_query_id: "q1".to_string(),
            stop_trigger: None,
        }],
        reactions: vec![TestReactionDefinition {
            test_reaction_id: "r1".to_string(),
            output_handler: None,
            stop_triggers: None,
        }],
        sources: vec![
            TestSourceDefinition::Model(ModelTestSourceDefinition {
                common: common("m1"),
                model_data_generator: None,
            }),
            TestSourceDefinition::Script(ScriptTestSourceDefinition {
                bootstrap_data_generator: None,
                common: common("s1"),
                source_change_generator: None,
            }),
        ],
        completion_handlers: vec![],
    }
}

#[test]
fn components_are_found_by_name() {
    let definition = definition();
    assert_eq!(definition.get_test_query("q1").unwrap().test_query_id, "q1");
    assert_eq!(
        definition.get_test_query("q\"2").unwrap_err(),
        "Test Query with ID \"q\\\"2\" not found"
    );
    assert_eq!(
        definition.get_test_reaction("r1").unwrap().test_reaction_id,
        "r1"
    );
    assert_eq!(
        definition.get_test_reaction("r2").unwrap_err(),
        "Test Reaction with ID \"r2\" not found"
    );
    assert!(matches!(
        definition.get_test_source("m1").unwrap(),
        TestSourceDefinition::Model(_)
    ));
    assert!(matches!(
        definition.get_test_source("s1").unwrap(),
        TestSourceDefinition::Script(_)
    ));
    assert_eq!(
        definition.get_test_source("x").unwrap_err(),
        "Test Source with ID \"x\" not found"
    );
}

#[test]
fn reactions_need_handlers_to_run() {
    let mut definition = definition();
    assert_eq!(
        definition.get_reaction_handler("r1").unwrap_err(),
        "No reaction handler defined for reaction r1"
    );
    assert_eq!(
        definition.get_reaction_handler("r2").unwrap_err(),
        "Test Reaction with ID \"r2\" not found"
    );
    definition.reactions[0].output_handler = Some(ReactionHandlerDefinition::EventGrid(
        EventGridReactionHandlerDefinition {
            endpoint: Some("e".to_string()),
            access_key: None,
        },
    ));
    let (reaction, handler) = definition.get_reaction_handler("r1").unwrap();
    assert_eq!(reaction.test_reaction_id, "r1");
    assert!(matches!(handler, ReactionHandlerDefinition::EventGrid(_)));
}

#[test]
fn embedded_instances_are_found_by_name() {
    let mut definition = definition();
    assert_eq!(
        definition.get_drasi_lib_instance("i").unwrap_err(),
        "drasi-lib instance definition not found: i"
    );
    for name in ["first", "second"] {
        definition.drasi_lib_instances.push(TestDrasiLibInstanceDefinition {
            test_drasi_lib_instance_id: "i".to_string(),
            name: Some(name.to_string()),
            description: None,
            config: DrasiLibInstanceConfig {
                log_level: None,
                sources: vec![],
                queries: vec![],
                reactions: vec![],
            },
        });
    }
    let instance = definition.get_drasi_lib_instance("i").unwrap();
    assert_eq!(instance.name.as_deref(), Some("first"));
}

fn stored_string(text: &str) -> String {
    parse_json(text).unwrap().as_str().unwrap().to_string()
}

#[test]
fn test_spacing_mode_deserialize() {
    let json = r#""none""#;
    let spacing_mode = SpacingMode::from_str(&stored_string(json)).unwrap();
    assert_eq!(spacing_mode, SpacingMode::Unspaced);

    let json = r#""recorded""#;
    let spacing_mode = SpacingMode::from_str(&stored_string(json)).unwrap();
    assert_eq!(spacing_mode, SpacingMode::Recorded);

    let json = r#""1000""#;
    let spacing_mode = SpacingMode::from_str(&stored_string(json)).unwrap();
    assert_eq!(spacing_mode, SpacingMode::Rate(1000));
}

#[test]
fn test_time_mode_deserialize() {
    let json = r#""live""#;
    let time_mode = TimeMode::from_str(&stored_string(json)).unwrap();
    assert_eq!(time_mode, TimeMode::Live);

    let json = r#""recorded""#;
    let time_mode = TimeMode::from_str(&stored_string(json)).unwrap();
    assert_eq!(time_mode, TimeMode::Recorded);

    let json = r#""2021-09-14T14:12:00Z""#;
    let parsed_time = chrono::DateTime::parse_from_rfc3339("2021-09-14T14:12:00Z")
        .unwrap()
        .timestamp_nanos_opt()
        .unwrap() as u64;
    let time_mode = TimeMode::from_str(&stored_string(json)).unwrap();
    assert_eq!(time_mode, TimeMode::Rebased(parsed_time));
}
