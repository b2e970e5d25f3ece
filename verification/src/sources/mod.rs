//! Sources of changes.

pub mod model_data_generators;
pub mod source_change_dispatchers;
pub mod source_change_generators;
