use e2e_test_framework::ids::{TestRunId, TestRunReactionId};
use e2e_test_framework::reactions::output_loggers::performance_metrics_logger::{
    PerformanceMetricsOutputLogger, PerformanceMetricsOutputLoggerConfig, PhaseMetrics,
};
use e2e_test_framework::reactions::output_loggers::OutputLoggerResult;

fn create_test_logger() -> PerformanceMetricsOutputLogger {
    let test_run_id = TestRunId::new("test_repo", "test_id", "test_run_001");
    let test_run_reaction_id = TestRunReactionId::new(&test_run_id, "reaction_001");
    let config = PerformanceMetricsOutputLoggerConfig {
        filename: Some("test_metrics.json".to_string()),
        bootstrap_record_count: None,
    };
    PerformanceMetricsOutputLogger::new(test_run_reaction_id, &config)
}

#[test]
fn test_first_record_sets_start_time() {
    let mut logger = create_test_logger();

    assert!(logger.start_time_ns.is_none());

    logger.log_handler_record(1000, 1001);

    assert!(logger.start_time_ns.is_some());
    assert_eq!(logger.start_time_ns, Some(1000));
    assert_eq!(logger.record_count, 1);
}

#[test]
fn test_multiple_records_increment_count() {
    let mut logger = create_test_logger();

    for i in 0..5 {
        logger.log_handler_record(1000 + i, 1000 + i);
    }

    assert_eq!(logger.record_count, 5);
    assert!(logger.start_time_ns.is_some());
    assert_eq!(logger.start_time_ns, Some(1000));
}

#[test]
fn test_end_test_run_produces_metrics() {
    let mut logger = create_test_logger();

    // Add some records
    for _ in 0..100 {
        logger.log_handler_record(5, 5);
    }

    // Force a specific start time for predictable testing
    logger.start_time_ns = Some(1_000_000_000);

    let metrics = logger.end_test_run(1_010_000_000);

    assert_eq!(metrics.record_count, 100);
    assert!(metrics.duration_ns > 0);
    assert_eq!(metrics.duration_ns, 10_000_000);
    assert_eq!(metrics.start_time_ns, 1_000_000_000);
    assert_eq!(metrics.end_time_ns, 1_010_000_000);

    let result = result();
    assert!(result.has_output);
    assert_eq!(result.logger_name, "PerformanceMetrics");
    assert!(result.output_folder_path.is_some());
    assert_eq!(result.output_folder_path.as_deref(), Some("output/performance_metrics"));
    assert!(result.summary.is_none());
}

fn result() -> OutputLoggerResult {
    PerformanceMetricsOutputLogger::result(
        Some("output/performance_metrics".to_string()),
        "output".to_string(),
    )
}

#[test]
fn metrics_outside_any_folder_lie_with_the_output() {
    let result = PerformanceMetricsOutputLogger::result(None, "output".to_string());
    assert_eq!(result.output_folder_path.as_deref(), Some("output"));
}

#[test]
fn test_no_records_case() {
    let mut logger = create_test_logger();

    let metrics = logger.end_test_run(42);

    let result = result();
    assert!(result.has_output);
    assert_eq!(result.logger_name, "PerformanceMetrics");

    // Even with no records, there are metrics
    assert_eq!(logger.record_count, 0);
    assert_eq!(metrics.record_count, 0);
    assert_eq!(metrics.duration_ns, 0);
    assert_eq!(metrics.start_time_ns, 42);
}

#[test]
fn test_bootstrap_phase_split() {
    let mut logger = create_test_logger();

    // Configure a bootstrap boundary of 10 records.
    logger.bootstrap_record_count = Some(10);

    // First 10 records = bootstrap phase.
    for i in 0..10 {
        logger.log_handler_record(100 + i, 200 + i);
    }
    // The bootstrap boundary should have been captured.
    assert!(logger.bootstrap_end_time_ns.is_some());

    // Remaining 15 records = steady-state phase.
    for i in 0..15 {
        logger.log_handler_record(300 + i, 300 + i);
    }

    let metrics = logger.end_test_run(1000);
    assert!(result().has_output);

    assert_eq!(metrics.record_count, 25);

    let bootstrap = metrics.bootstrap.expect("bootstrap phase present");
    assert_eq!(bootstrap.record_count, 10);

    let steady_state = metrics.steady_state.expect("steady_state phase present");
    assert_eq!(steady_state.record_count, 15);

    assert_eq!(
        bootstrap,
        PhaseMetrics {
            start_time_ns: 100,
            end_time_ns: 209,
            duration_ns: 109,
            record_count: 10
        }
    );
    assert_eq!(
        steady_state,
        PhaseMetrics {
            start_time_ns: 209,
            end_time_ns: 1000,
            duration_ns: 791,
            record_count: 15
        }
    );
}

#[test]
fn test_no_bootstrap_config_omits_phases() {
    let mut logger = create_test_logger();

    for _ in 0..5 {
        logger.log_handler_record(1, 1);
    }

    let metrics = logger.end_test_run(2);

    // Without a configured bootstrap_record_count, no phase metrics emitted.
    assert!(metrics.bootstrap.is_none());
    assert!(metrics.steady_state.is_none());
}

#[test]
fn a_bootstrap_that_was_not_reached_has_all_records() {
    let mut logger = create_test_logger();
    logger.bootstrap_record_count = Some(10);
    for i in 0..4 {
        logger.log_handler_record(10 + i, 10 + i);
    }
    let metrics = logger.end_test_run(20);
    let bootstrap = metrics.bootstrap.unwrap();
    assert_eq!(bootstrap.record_count, 4);
    assert_eq!(bootstrap.end_time_ns, 20);
    assert!(metrics.steady_state.is_none());

    let mut logger = create_test_logger();
    logger.bootstrap_record_count = Some(0);
    logger.log_handler_record(1, 1);
    assert!(logger.bootstrap_end_time_ns.is_none());
    assert!(logger.end_test_run(2).bootstrap.is_none());
}

#[test]
fn file_names() {
    let mut config = PerformanceMetricsOutputLoggerConfig {
        filename: Some("m.json".to_string()),
        bootstrap_record_count: None,
    };
    assert_eq!(config.file_name("20260101_000000"), "m.json");
    config.filename = None;
    assert_eq!(
        config.file_name("20260101_000000"),
        "performance_metrics_20260101_000000.json"
    );
}
