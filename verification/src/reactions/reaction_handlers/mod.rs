//! How the output of reactions is received.

pub mod handler_status;
pub mod http_reaction_handler;
pub mod http_reaction_laws;
