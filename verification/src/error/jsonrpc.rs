//! JSON-RPC 2.0 error objects.

use vstd::prelude::*;

verus! {

/// JSON-RPC 2.0 error object.
#[derive(Debug, Clone, PartialEq, Eq)]
pub struct JsonRpcError {
    /// Error code.
    pub code: i32,
    /// Message for people.
    pub message: String,
    /// Additional data.
    pub data: Option<ErrorData>,
}

/// Additional data of an error, safe to show to a client.
#[derive(Debug, Clone, PartialEq, Eq)]
pub struct ErrorData {
    /// Identifier by which the error is found in logs.
    pub correlation_id: String,
    /// Gate that rejected the request.
    pub gate: Option<String>,
    /// Tool that was being called.
    pub tool: Option<String>,
    /// Details of the error.
    pub details: Option<String>,
    /// Name of the error type, for machines.
    pub error_type: String,
    /// Seconds after which to try again.
    pub retry_after: Option<u64>,
}

impl Default for ErrorData {
    fn default() -> (r: Self)
        ensures
            r.correlation_id@ == ""@,
            r.gate is None,
            r.tool is None,
            r.details is None,
            r.error_type@ == ""@,
            r.retry_after is None,
    {
        ErrorData {
            correlation_id: "".to_owned(),
            gate: None,
            tool: None,
            details: None,
            error_type: "".to_owned(),
            retry_after: None,
        }
    }
}

} // verus!
