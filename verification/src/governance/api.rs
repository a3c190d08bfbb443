//! What a transport and the governance service tell each other.

use vstd::prelude::*;

use crate::governance::evaluator::DenySource;
use crate::governance::task::status::TaskStatus;
use crate::governance::task::types::JsonRpcId;
use crate::json::Json;
use crate::profile::Profile;
use crate::text::opt_text;
use crate::StreamDirection;

verus! {

/// Request for the evaluation of a message.
#[derive(Debug)]
pub struct GovernanceEvaluateRequest {
    /// MCP server identifier.
    pub server_id: String,
    /// Direction of the message.
    pub direction: StreamDirection,
    /// JSON-RPC method name.
    pub method: String,
    /// JSON-RPC ID, if present.
    pub id: Option<JsonRpcId>,
    /// Parameters, if present.
    pub params: Option<Json>,
    /// Kind of the message.
    pub message_type: MessageType,
    /// Active configuration profile.
    pub profile: Profile,
}

/// Kind of a JSON-RPC message.
#[derive(Debug, Clone, Copy, PartialEq, Eq, Structural)]
pub enum MessageType {
    /// Request (has `id` and `method`).
    Request,
    /// Response (has `id`, no `method`).
    Response,
    /// Notification (has `method`, no `id`).
    Notification,
}

/// Decision on a message.
#[derive(Debug, Clone, Copy, PartialEq, Eq, Structural)]
pub enum GovernanceDecision {
    /// Forward the message.
    Forward,
    /// Answer with an error.
    Deny,
    /// Wait for an approval.
    PendingApproval,
}

/// Response to a request for evaluation. `T` holds a text.
#[derive(Debug)]
pub struct GovernanceEvaluateResponse<T = String> {
    /// The decision.
    pub decision: GovernanceDecision,
    /// Task ID, if an approval workflow was started.
    pub task_id: Option<T>,
    /// Cedar policy ID, for audit.
    pub policy_id: Option<T>,
    /// Reason for people.
    pub reason: Option<T>,
    /// Advised poll interval in milliseconds, for a pending approval.
    pub poll_interval_ms: Option<u64>,
    /// Time limit of the approval in seconds, for a pending approval.
    pub timeout_secs: Option<u64>,
    /// Whether the transport must shut down.
    pub shutdown: bool,
    /// Which gate denied (not sent over the wire).
    pub deny_source: Option<DenySource>,
}

impl GovernanceEvaluateResponse {
    /// The response with its strings taken as character sequences.
    pub open spec fn view(self) -> GovernanceEvaluateResponse<Seq<char>> {
        GovernanceEvaluateResponse {
            decision: self.decision,
            task_id: opt_text(self.task_id),
            policy_id: opt_text(self.policy_id),
            reason: opt_text(self.reason),
            poll_interval_ms: self.poll_interval_ms,
            timeout_secs: self.timeout_secs,
            shutdown: self.shutdown,
            deny_source: self.deny_source,
        }
    }
}

/// State of an approval task as a transport sees it. `T` holds a text.
#[derive(Debug)]
pub struct TaskStatusResponse<T = String> {
    /// The task ID.
    pub task_id: T,
    /// Current status.
    pub status: TaskStatus,
    /// Outcome, once a decision has been reached.
    pub decision: Option<ApprovalOutcome>,
    /// Reason for people.
    pub reason: Option<T>,
}

impl TaskStatusResponse {
    /// The response with its strings taken as character sequences.
    pub open spec fn view(self) -> TaskStatusResponse<Seq<char>> {
        TaskStatusResponse {
            task_id: self.task_id@,
            status: self.status,
            decision: self.decision,
            reason: opt_text(self.reason),
        }
    }
}

/// Outcome of an approval workflow.
#[derive(Debug, Clone, Copy, PartialEq, Eq, Structural)]
pub enum ApprovalOutcome {
    /// Approved.
    Approved,
    /// Rejected by a person.
    Rejected,
    /// Expired before a decision was made.
    Expired,
    /// Cancelled.
    Cancelled,
}

} // verus!
