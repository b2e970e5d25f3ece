//! Records that reaction handlers hand to loggers.

use crate::json::Json;
use vstd::prelude::*;

verus! {

/// What a reaction handler observed.
#[derive(Debug)]
pub enum HandlerPayload {
    /// A request that a reaction sent.
    ReactionInvocation {
        reaction_type: String,
        query_id: String,
        request_method: String,
        request_path: String,
        request_body: Json,
        headers: Vec<(String, String)>,
    },
    /// A value that a reaction put out.
    ReactionOutput { reaction_output: Json },
    /// A result that a query put on its stream: the result itself, and the whole payload
    /// in the form in which it is stored.
    ResultStream { query_result: Json, stored_form: Json },
}

/// One observation of a reaction handler.
#[derive(Debug)]
pub struct HandlerRecord {
    pub id: String,
    pub sequence: u64,
    pub created_time_ns: u64,
    pub processed_time_ns: u64,
    pub traceparent: Option<String>,
    pub tracestate: Option<String>,
    pub payload: HandlerPayload,
}

} // verus!
