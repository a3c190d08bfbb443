//! Errors that are answered to a client.

use vstd::prelude::*;

use crate::text::opt_text;

pub mod jsonrpc;

verus! {

/// Why a request was not carried out. `T` holds a text.
#[derive(Debug, Clone, PartialEq, Eq)]
pub enum ThoughtGateError<T = String> {
    /// There is no task with the given ID.
    TaskNotFound { task_id: T },
    /// The task has no result yet.
    TaskResultNotReady { task_id: T },
    /// The task was cancelled.
    TaskCancelled { task_id: T },
    /// The approver rejected the request.
    ApprovalRejected {
        /// Name of the tool.
        tool: T,
        /// Who rejected.
        rejected_by: Option<T>,
        /// Name of the approval workflow.
        workflow: Option<T>,
    },
    /// No decision was made in time.
    ApprovalTimeout {
        /// Name of the tool.
        tool: T,
        /// The time limit in seconds.
        timeout_secs: u64,
        /// Name of the approval workflow.
        workflow: Option<T>,
    },
    /// The policy changed between approval and execution.
    PolicyDrift { tool: T, task_id: T },
    /// The request was transformed otherwise than expected.
    TransformDrift { tool: T, task_id: T },
    /// The upstream server did not answer in time.
    UpstreamTimeout { url: T, timeout_secs: u64 },
    /// The upstream server answered with an error.
    UpstreamError { code: i32, message: T },
    /// The service cannot answer.
    ServiceUnavailable { reason: T },
}

impl ThoughtGateError {
    /// The error with its strings taken as character sequences.
    pub open spec fn view(self) -> ThoughtGateError<Seq<char>> {
        match self {
            ThoughtGateError::TaskNotFound { task_id } => ThoughtGateError::TaskNotFound {
                task_id: task_id@,
            },
            ThoughtGateError::TaskResultNotReady {
                task_id,
            } => ThoughtGateError::TaskResultNotReady { task_id: task_id@ },
            ThoughtGateError::TaskCancelled { task_id } => ThoughtGateError::TaskCancelled {
                task_id: task_id@,
            },
            ThoughtGateError::ApprovalRejected {
                tool,
                rejected_by,
                workflow,
            } => ThoughtGateError::ApprovalRejected {
                tool: tool@,
                rejected_by: opt_text(rejected_by),
                workflow: opt_text(workflow),
            },
            ThoughtGateError::ApprovalTimeout {
                tool,
                timeout_secs,
                workflow,
            } => ThoughtGateError::ApprovalTimeout {
                tool: tool@,
                timeout_secs,
                workflow: opt_text(workflow),
            },
            ThoughtGateError::PolicyDrift { tool, task_id } => ThoughtGateError::PolicyDrift {
                tool: tool@,
                task_id: task_id@,
            },
            ThoughtGateError::TransformDrift {
                tool,
                task_id,
            } => ThoughtGateError::TransformDrift { tool: tool@, task_id: task_id@ },
            ThoughtGateError::UpstreamTimeout {
                url,
                timeout_secs,
            } => ThoughtGateError::UpstreamTimeout { url: url@, timeout_secs },
            ThoughtGateError::UpstreamError { code, message } => ThoughtGateError::UpstreamError {
                code,
                message: message@,
            },
            ThoughtGateError::ServiceUnavailable {
                reason,
            } => ThoughtGateError::ServiceUnavailable { reason: reason@ },
        }
    }
}

} // verus!
