//! What happens when every component of a test run has finished.

pub mod completion_handlers;
pub mod completion_monitor;
pub mod monitor_laws;
