//! Loggers of reaction output.

pub mod canonical_json;
pub mod canonical_laws;
pub mod determinism_hash_logger;
pub mod final_state;
pub mod final_state_laws;
pub mod performance_metrics_logger;
pub mod row_change_laws;

use crate::json::Json;
use crate::reactions::output_loggers::determinism_hash_logger::DeterminismHashOutputLoggerConfig;
use crate::reactions::output_loggers::performance_metrics_logger::PerformanceMetricsOutputLoggerConfig;
use vstd::prelude::*;

verus! {

/// How a console logger is set up.
#[derive(Clone, Debug)]
pub struct ConsoleOutputLoggerConfig {
    pub date_time_format: Option<String>,
}

/// How a logger to files of JSON lines is set up.
#[derive(Clone, Debug)]
pub struct JsonlFileOutputLoggerConfig {
    pub max_lines_per_file: Option<u64>,
}

/// Which logger to create.
#[derive(Clone, Debug)]
pub enum OutputLoggerConfig {
    Console(ConsoleOutputLoggerConfig),
    DeterminismHash(DeterminismHashOutputLoggerConfig),
    JsonlFile(JsonlFileOutputLoggerConfig),
    PerformanceMetrics(PerformanceMetricsOutputLoggerConfig),
}

/// What a logger has to show when a test run ends.
#[derive(Debug)]
pub struct OutputLoggerResult {
    pub has_output: bool,
    pub logger_name: String,
    pub output_folder_path: Option<String>,
    pub summary: Option<Json>,
}

} // verus!
