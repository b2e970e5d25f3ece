//! Test repositories and what they hold.

pub mod models;
pub mod storage;
pub mod storage_laws;
