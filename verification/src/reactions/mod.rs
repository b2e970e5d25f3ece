//! What happens to the output of reactions.

pub mod output_loggers;
pub mod reaction_handlers;
pub mod reaction_operation_laws;
pub mod transport_laws;
