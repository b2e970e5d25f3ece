//! Decision logic of an end-to-end test framework for continuous queries.

pub mod common;
pub mod grpc_converters;
pub mod grpc_converters_laws;
pub mod hashing;
pub mod ids;
pub mod json;
pub mod json_laws;
pub mod operation_laws;
pub mod ordered;
pub mod ordered_laws;
pub mod reactions;
pub mod run_operation_laws;
pub mod scripts;
pub mod sequence;
pub mod sources;
pub mod test_repo_storage;
pub mod test_run_completion;
pub mod test_run_host;
pub mod test_run_host_laws;
pub mod text;
pub mod text_laws;
pub mod view_laws;
