//! Handlers of a test run's completion.

pub mod final_state_check;
pub mod final_state_manifest;
pub mod final_state_manifest_laws;
pub mod sha256_determinism;
pub mod verdict_laws;
