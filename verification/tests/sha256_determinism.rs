use e2e_test_framework::ids::TestRunId;
use e2e_test_framework::json::{parse_json, to_value, Json};
use e2e_test_framework::ordered::OrderedMap;
use e2e_test_framework::reactions::output_loggers::canonical_json::sort_json_keys;
use e2e_test_framework::reactions::output_loggers::final_state::{
    FinalStateMaterializer, FinalStateRow,
};
use e2e_test_framework::reactions::output_loggers::OutputLoggerResult;
use e2e_test_framework::test_repo_storage::models::{
    MissingBaselinePolicy, Sha256DeterminismHandlerConfig,
};
use e2e_test_framework::test_run_completion::completion_handlers::final_state_check::{
    CheckAction, CheckEvent, FinalStateCheck,
};
use e2e_test_framework::test_run_completion::completion_handlers::final_state_manifest::{
    aggregate_row_hash, compare_final_state, final_state_output, judge_final_state,
    FinalStateManifest, FinalStateReaction, GoldenRead, FINAL_STATE_SCHEMA_VERSION,
};
use e2e_test_framework::test_run_completion::completion_handlers::sha256_determinism::{
    ordered_verdict_body, OrderedStreamJudgement, ReactionOutputs, Sha256DeterminismCompletionHandler,
};

fn json(text: &str) -> Json {
    parse_json(text).unwrap()
}

fn value(text: &str) -> serde_json::Value {
    serde_json::from_str(text).unwrap()
}

fn summary_with(reactions: Vec<(&str, Option<&str>)>) -> Vec<ReactionOutputs> {
    reactions
        .into_iter()
        .map(|(rid, sha_hex)| ReactionOutputs {
            reaction_id: rid.to_string(),
            results: match sha_hex {
                Some(s) => vec![OutputLoggerResult {
                    has_output: true,
                    logger_name: "DeterminismHash".to_string(),
                    output_folder_path: None,
                    summary: Some(json(&format!(
                        r#"{{"mode": "ordered_stream", "sha256": "{s}", "record_count": 1}}"#
                    ))),
                }],
                None => vec![],
            },
        })
        .collect()
}

fn handler(
    expected: Vec<(&str, &str)>,
    policy: MissingBaselinePolicy,
) -> Sha256DeterminismCompletionHandler {
    let mut map = OrderedMap::new();
    for (id, sha) in expected {
        map.insert(id.to_string(), sha.to_string());
    }
    let config = Sha256DeterminismHandlerConfig {
        expected: map,
        missing_baseline: policy,
        ..Default::default()
    };
    Sha256DeterminismCompletionHandler::new(&config, TestRunId::new("repo", "test", "run"))
}

fn judge(
    expected: Vec<(&str, &str)>,
    policy: MissingBaselinePolicy,
    reactions: Vec<(&str, Option<&str>)>,
) -> OrderedStreamJudgement {
    let handler = handler(expected, policy);
    assert!(!handler.verifies_final_state());
    handler.judge_ordered_stream(&summary_with(reactions))
}

#[test]
fn passes_when_all_reactions_match_expected() {
    let judgement = judge(
        vec![("r1", "aa")],
        MissingBaselinePolicy::Warn,
        vec![("r1", Some("aa"))],
    );
    assert!(judgement.failure.is_none());
    assert!(judgement.verdicts[0].1.passed);
}

#[test]
fn fails_when_actual_differs_from_expected() {
    let judgement = judge(
        vec![("r1", "aa")],
        MissingBaselinePolicy::Warn,
        vec![("r1", Some("bb"))],
    );
    let error = judgement.failure.unwrap();
    assert!(error.contains("r1"));
    assert_eq!(error, "Determinism mismatch for reactions: [r1]");
}

#[test]
fn warn_policy_passes_on_missing_baseline() {
    let judgement = judge(
        vec![],
        MissingBaselinePolicy::Warn,
        vec![("r1", Some("aa"))],
    );
    assert!(judgement.failure.is_none());
}

#[test]
fn fail_policy_errors_on_missing_baseline() {
    let judgement = judge(
        vec![],
        MissingBaselinePolicy::Fail,
        vec![("r1", Some("aa"))],
    );
    let error = judgement.failure.unwrap();
    assert!(error.contains("missing baseline"));
    assert_eq!(
        error,
        "Determinism mismatch for reactions: []; missing baseline (policy=Fail) for: [r1]"
    );
}

#[test]
fn verdicts_are_listed_by_name() {
    let judgement = judge(
        vec![("r1", "aa"), ("r3", "cc")],
        MissingBaselinePolicy::Fail,
        vec![
            ("r3", None),
            ("r2", Some("bb")),
            ("r1", Some("aa")),
            ("r0", None),
        ],
    );
    assert_eq!(
        judgement.failure.as_deref(),
        Some("Determinism mismatch for reactions: [r3]; missing baseline (policy=Fail) for: [r2, r0]")
    );
    let body = ordered_verdict_body("repo.test.run", &judgement.verdicts);
    assert_eq!(
        to_value(&sort_json_keys(body)),
        value(
            r#"{
                "mode": "ordered_stream",
                "test_run_id": "repo.test.run",
                "results": {
                    "r0": {"actual": null, "expected": null, "passed": false},
                    "r1": {"actual": "aa", "expected": "aa", "passed": true},
                    "r2": {"actual": "bb", "expected": null, "passed": false},
                    "r3": {"actual": null, "expected": "cc", "passed": false}
                }
            }"#
        )
    );
    let names: Vec<&str> = judgement.verdicts.iter().map(|v| v.0.as_str()).collect();
    assert_eq!(names, vec!["r0", "r1", "r2", "r3"]);
}

#[test]
fn reactions_without_a_baseline_follow_the_policy() {
    for hash in [None, Some("aa")] {
        let failing = judge(vec![], MissingBaselinePolicy::Fail, vec![("r1", hash)]);
        assert_eq!(
            failing.failure.as_deref(),
            Some("Determinism mismatch for reactions: []; missing baseline (policy=Fail) for: [r1]")
        );
        assert!(!failing.verdicts[0].1.passed);
        let passing = judge(vec![], MissingBaselinePolicy::Warn, vec![("r1", hash)]);
        assert_eq!(passing.failure, None);
        assert!(passing.verdicts[0].1.passed);
    }
}

#[test]
fn golden_files_are_relative() {
    let without = handler(vec![], MissingBaselinePolicy::Warn);
    assert_eq!(
        without.relative_golden_file(false).unwrap_err(),
        "final-state golden file is not configured"
    );
    let config = Sha256DeterminismHandlerConfig {
        golden_file: Some("goldens/g.json".to_string()),
        ..Default::default()
    };
    let with =
        Sha256DeterminismCompletionHandler::new(&config, TestRunId::new("repo", "test", "run"));
    assert!(with.verifies_final_state());
    assert_eq!(with.relative_golden_file(false).unwrap(), "goldens/g.json");
    assert_eq!(
        with.relative_golden_file(true).unwrap_err(),
        "final-state golden_file must be relative to the test data folder"
    );
    assert_eq!(with.limit(), 20);
    assert_eq!(with.missing_baseline(), MissingBaselinePolicy::Warn);
}

#[test]
fn final_state_comparison_localizes_rows_and_limits_diagnostics() {
    let expected = manifest(vec![
        row("q1", "a", r#"{"id": 1}"#),
        row("q1", "b", r#"{"id": 2}"#),
        row("q1", "c", r#"{"id": 3}"#),
    ]);
    let actual = manifest(vec![
        row("q1", "a", r#"{"id": 1}"#),
        row("q1", "x", r#"{"id": 20}"#),
        row("q1", "y", r#"{"id": 30}"#),
    ]);

    let verdict = compare_final_state(&expected, &actual, 1, "repo.test.run");
    let reaction = verdict.results.get(&"reaction".to_string()).unwrap();
    assert!(!reaction.passed);
    assert_eq!(reaction.missing_row_count, 2);
    assert_eq!(reaction.unexpected_row_count, 2);
    assert_eq!(reaction.missing_rows.len(), 1);
    assert_eq!(reaction.unexpected_rows.len(), 1);
    assert_eq!(to_value(&reaction.missing_rows[0].value), value(r#"{"id": 2}"#));
    assert_eq!(
        to_value(&reaction.unexpected_rows[0].value),
        value(r#"{"id": 20}"#)
    );
    assert_eq!(
        verdict.outcome().unwrap_err(),
        "Final-state mismatch for reactions: [reaction]; see determinism_verdict.json"
    );
}

#[test]
fn final_state_comparison_ignores_row_order() {
    let expected = manifest(vec![
        row("q1", "a", r#"{"id": 1}"#),
        row("q1", "b", r#"{"id": 2}"#),
    ]);
    let actual = manifest(vec![
        row("q1", "b", r#"{"id": 2}"#),
        row("q1", "a", r#"{"id": 1}"#),
    ]);

    let verdict = compare_final_state(&expected, &actual, 20, "repo.test.run");
    assert!(verdict.results.get(&"reaction".to_string()).unwrap().passed);
    verdict.outcome().unwrap();
}

fn row(query_id: &str, sha256: &str, text: &str) -> FinalStateRow {
    FinalStateRow {
        query_id: query_id.to_string(),
        sha256: sha256.to_string(),
        value: json(text),
    }
}

fn reaction(rows: Vec<FinalStateRow>) -> FinalStateReaction {
    FinalStateReaction {
        mode: "final_state".to_string(),
        sha256: aggregate_row_hash(&rows),
        row_count: rows.len(),
        change_count: 0,
        duplicate_count: 0,
        missing_before_count: 0,
        skipped_record_count: 0,
        normalization_error_count: 0,
        normalization_errors: Vec::new(),
        query_ids: vec!["q1".to_string()],
        rows,
    }
}

fn manifest_of(reaction: FinalStateReaction) -> FinalStateManifest {
    let mut reactions = OrderedMap::new();
    reactions.insert("reaction".to_string(), reaction);
    FinalStateManifest {
        schema_version: FINAL_STATE_SCHEMA_VERSION,
        reactions,
    }
}

fn manifest(rows: Vec<FinalStateRow>) -> FinalStateManifest {
    manifest_of(reaction(rows))
}

fn digest(text: &str) -> String {
    hex::encode(<sha2::Sha256 as sha2::Digest>::digest(text.as_bytes()))
}

fn valid_rows() -> Vec<FinalStateRow> {
    vec![
        row("q1", &digest(r#"{"id":2}"#), r#"{"id": 2.0}"#),
        row("q1", &digest(r#"{"id":1}"#), r#"{"id": 1}"#),
    ]
}

#[test]
fn a_sound_manifest_is_valid() {
    manifest(valid_rows()).validate("g.json").unwrap();
    // The rows are hashed in order of query and canonical text.
    let message = format!(
        "q1\0{}\nq1\0{}\n",
        digest(r#"{"id":1}"#),
        digest(r#"{"id":2}"#)
    );
    assert_eq!(aggregate_row_hash(&valid_rows()), digest(&message));
}

#[test]
fn each_flaw_of_a_manifest_has_its_message() {
    let mut m = manifest(valid_rows());
    m.schema_version = 2;
    assert_eq!(
        m.validate("g.json").unwrap_err(),
        "unsupported final-state golden schema_version 2 in 'g.json' (expected 1)"
    );
    let start = "final-state golden 'g.json' reaction 'reaction";

    let mut r = reaction(valid_rows());
    r.mode = "ordered_stream".to_string();
    assert_eq!(
        manifest_of(r).validate("g.json").unwrap_err(),
        format!("{start}' has unsupported mode 'ordered_stream'")
    );

    let mut r = reaction(valid_rows());
    r.normalization_error_count = 3;
    let m = manifest_of(r);
    assert_eq!(
        m.validate("g.json").unwrap_err(),
        format!("{start}' was captured with 3 normalization errors")
    );
    assert_eq!(
        m.check_normalization().unwrap_err(),
        "final-state materialization failed to normalize records for reactions: [reaction (3)]"
    );

    let mut r = reaction(valid_rows());
    r.row_count = 5;
    assert_eq!(
        manifest_of(r).validate("g.json").unwrap_err(),
        format!("{start}' declares row_count=5 but contains 2 rows")
    );

    let r = reaction(vec![row("q1", "bad", "1")]);
    assert_eq!(
        manifest_of(r).validate("g.json").unwrap_err(),
        format!(
            "{start}' contains an invalid row hash: expected bad, calculated {}",
            digest("1")
        )
    );

    let mut r = reaction(valid_rows());
    let calculated = r.sha256.clone();
    r.sha256 = "0".to_string();
    assert_eq!(
        manifest_of(r).validate("g.json").unwrap_err(),
        format!("{start}' contains an invalid aggregate hash: expected 0, calculated {calculated}")
    );
}

#[test]
fn summaries_are_valid_manifests() {
    let mut materializer = FinalStateMaterializer::default();
    for text in [
        r#"{"query_id": "q2", "result": {"after": {"b": 1.0, "a": [2.0]}}}"#,
        r#"{"query_id": "q1", "result": {"after": "x"}}"#,
        r#"{"query_id": "q1", "result": {"after": -7.0}}"#,
    ] {
        materializer.apply_payload("", &json(text)).unwrap();
    }
    let summary = materializer.summary();
    let r = FinalStateReaction {
        mode: summary.mode.to_string(),
        sha256: summary.sha256,
        row_count: summary.row_count,
        change_count: summary.change_count,
        duplicate_count: summary.duplicate_count,
        missing_before_count: summary.missing_before_count,
        skipped_record_count: summary.skipped_record_count,
        normalization_error_count: summary.normalization_error_count,
        normalization_errors: summary.normalization_errors,
        query_ids: summary.query_ids,
        rows: summary.rows,
    };
    manifest_of(r).validate("g.json").unwrap();
}

#[test]
fn manifests_are_read_off_the_outputs() {
    let output = |id: &str, mode: &str| ReactionOutputs {
        reaction_id: id.to_string(),
        results: vec![
            OutputLoggerResult {
                has_output: false,
                logger_name: "Console".to_string(),
                output_folder_path: None,
                summary: None,
            },
            OutputLoggerResult {
                has_output: true,
                logger_name: "DeterminismHash".to_string(),
                output_folder_path: None,
                summary: Some(json(&format!(r#"{{"mode": "{mode}"}}"#))),
            },
        ],
    };
    let good = vec![output("b", "final_state"), output("a", "final_state")];
    assert!(final_state_output(&good[0]).is_ok());
    let manifest = FinalStateManifest::from_completion_summary(
        &good,
        vec![Ok(reaction(vec![])), Ok(reaction(valid_rows()))],
    )
    .unwrap();
    assert_eq!(manifest.schema_version, 1);
    let names: Vec<&str> = manifest.reactions.entries().iter().map(|e| e.0.as_str()).collect();
    assert_eq!(names, vec!["a", "b"]);
    manifest.check_normalization().unwrap();

    let ordered = vec![output("a", "ordered_stream")];
    assert_eq!(
        FinalStateManifest::from_completion_summary(&ordered, vec![Ok(reaction(vec![]))])
            .unwrap_err(),
        "reaction 'a' has no final-state DeterminismHash output"
    );
    assert_eq!(
        FinalStateManifest::from_completion_summary(&good, vec![
            Err("no rows".to_string()),
            Ok(reaction(vec![]))
        ])
        .unwrap_err(),
        "invalid final-state output for reaction 'b': no rows"
    );
}

#[test]
fn a_missing_golden_is_judged_by_policy() {
    let actual = manifest(valid_rows());
    let judge = |golden: GoldenRead, policy: MissingBaselinePolicy| {
        judge_final_state(golden, &actual, policy, 5, "g.json", "run")
    };
    let missing = || GoldenRead::NotFound("gone".to_string());
    assert!(judge(missing(), MissingBaselinePolicy::Warn).unwrap().is_none());
    assert_eq!(
        judge(missing(), MissingBaselinePolicy::Fail).unwrap_err(),
        "failed to read final-state golden 'g.json': gone"
    );
    assert_eq!(
        judge(
            GoldenRead::Unreadable("locked".to_string()),
            MissingBaselinePolicy::Warn
        )
        .unwrap_err(),
        "failed to read final-state golden 'g.json': locked"
    );
    assert_eq!(
        judge(
            GoldenRead::Malformed("eof".to_string()),
            MissingBaselinePolicy::Warn
        )
        .unwrap_err(),
        "failed to parse final-state golden 'g.json': eof"
    );
    let verdict = judge(
        GoldenRead::Manifest(manifest(valid_rows())),
        MissingBaselinePolicy::Warn,
    )
    .unwrap()
    .unwrap();
    verdict.outcome().unwrap();
    assert_eq!(verdict.test_run_id, "run");
    assert_eq!(verdict.diagnostic_limit, 5);
    assert_eq!(verdict.mode, "final_state");

    let mut empty = OrderedMap::new();
    empty.insert("other".to_string(), reaction(vec![]));
    let golden = FinalStateManifest {
        schema_version: 1,
        reactions: empty,
    };
    let verdict = judge(GoldenRead::Manifest(golden), MissingBaselinePolicy::Warn)
        .unwrap()
        .unwrap();
    assert_eq!(
        verdict.outcome().unwrap_err(),
        "Final-state mismatch for reactions: [other, reaction]; see determinism_verdict.json"
    );
    let unexpected = verdict.results.get(&"reaction".to_string()).unwrap();
    assert_eq!(unexpected.unexpected_row_count, 2);
    assert_eq!(unexpected.expected_sha256, None);
    assert_eq!(unexpected.actual_row_count, Some(2));
}

#[test]
fn altered_manifests_are_refused_and_reordered_ones_are_not() {
    let refused = |alter: fn(&mut FinalStateReaction)| {
        let mut altered = reaction(valid_rows());
        alter(&mut altered);
        assert!(manifest_of(altered).validate("g.json").is_err());
    };
    refused(|r| r.mode = "ordered_stream".to_string());
    refused(|r| r.row_count = 3);
    refused(|r| r.sha256 = "00".to_string());
    refused(|r| r.normalization_error_count = 1);
    refused(|r| r.rows[0].sha256 = "00".to_string());
    refused(|r| r.rows[0].value = json(r#"{"id": 7}"#));
    let mut other_version = manifest(valid_rows());
    other_version.schema_version = 2;
    assert!(other_version.validate("g.json").is_err());

    let mut reordered = reaction(valid_rows());
    reordered.rows.reverse();
    manifest_of(reordered).validate("g.json").unwrap();
}

fn check(mut state: FinalStateReaction, errors: usize, policy: MissingBaselinePolicy) -> FinalStateCheck {
    state.normalization_error_count = errors;
    let outputs = vec![ReactionOutputs {
        reaction_id: "reaction".to_string(),
        results: vec![OutputLoggerResult {
            has_output: true,
            logger_name: "DeterminismHash".to_string(),
            output_folder_path: None,
            summary: Some(json(r#"{"mode": "final_state"}"#)),
        }],
    }];
    FinalStateCheck::begin(&outputs, vec![Ok(state)], policy, 20, "repo.test.run".to_string()).unwrap()
}

fn finished(check: &FinalStateCheck) -> Result<(), String> {
    match check.action() {
        CheckAction::Finish(result) => result,
        other => panic!("an end was expected: {other:?}"),
    }
}

#[test]
fn the_candidate_is_written_before_anything_can_fail() {
    let mut failing = check(reaction(valid_rows()), 2, MissingBaselinePolicy::Warn);
    assert!(matches!(failing.action(), CheckAction::WriteCandidate));
    // Nothing else is waited for.
    failing.handle(CheckEvent::VerdictWritten(Ok(())));
    assert!(matches!(failing.action(), CheckAction::WriteCandidate));
    assert_eq!(failing.candidate().schema_version, 1);
    failing.handle(CheckEvent::CandidateWritten(Ok(())));
    assert_eq!(
        finished(&failing).unwrap_err(),
        "final-state materialization failed to normalize records for reactions: [reaction (2)]"
    );
    let mut unwritten = check(reaction(valid_rows()), 0, MissingBaselinePolicy::Warn);
    unwritten.handle(CheckEvent::CandidateWritten(Err("disk full".to_string())));
    assert_eq!(finished(&unwritten).unwrap_err(), "disk full");
}

#[test]
fn the_golden_decides_whether_there_is_a_verdict() {
    let missing = || CheckEvent::GoldenRead {
        golden: GoldenRead::NotFound("gone".to_string()),
        path: "g.json".to_string(),
    };
    let mut warned = check(reaction(valid_rows()), 0, MissingBaselinePolicy::Warn);
    warned.handle(CheckEvent::CandidateWritten(Ok(())));
    assert!(matches!(warned.action(), CheckAction::ReadGolden));
    warned.handle(missing());
    finished(&warned).unwrap();
    assert!(warned.verdict().is_none());

    let mut failed = check(reaction(valid_rows()), 0, MissingBaselinePolicy::Fail);
    failed.handle(CheckEvent::CandidateWritten(Ok(())));
    failed.handle(missing());
    assert!(finished(&failed).unwrap_err().contains("gone"));

    let mut unlocated = check(reaction(valid_rows()), 0, MissingBaselinePolicy::Warn);
    unlocated.handle(CheckEvent::CandidateWritten(Ok(())));
    unlocated.handle(CheckEvent::GoldenNotLocated("where".to_string()));
    assert_eq!(finished(&unlocated).unwrap_err(), "where");

    let golden = |rows: Vec<FinalStateRow>| CheckEvent::GoldenRead {
        golden: GoldenRead::Manifest(manifest(rows)),
        path: "g.json".to_string(),
    };
    let mut same = check(reaction(valid_rows()), 0, MissingBaselinePolicy::Fail);
    same.handle(CheckEvent::CandidateWritten(Ok(())));
    same.handle(golden(valid_rows()));
    assert!(matches!(same.action(), CheckAction::WriteVerdict));
    assert_eq!(same.verdict().unwrap().test_run_id, "repo.test.run");
    same.handle(CheckEvent::VerdictWritten(Ok(())));
    finished(&same).unwrap();

    let mut other = check(reaction(valid_rows()), 0, MissingBaselinePolicy::Fail);
    other.handle(CheckEvent::CandidateWritten(Ok(())));
    other.handle(golden(vec![]));
    other.handle(CheckEvent::VerdictWritten(Ok(())));
    assert_eq!(
        finished(&other).unwrap_err(),
        "Final-state mismatch for reactions: [reaction]; see determinism_verdict.json"
    );
}
