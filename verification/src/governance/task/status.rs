//! Task status and its state machine.

use vstd::prelude::*;
use vstd::string::*;

use crate::protocol::sep1686::Sep1686Status;

verus! {

/// Task life cycle status.
///
/// Transitions:
/// - Working to InputRequired, Failed or Expired
/// - InputRequired to Executing, Rejected, Cancelled or Expired
/// - Executing to Completed or Failed
#[derive(Debug, Clone, Copy, PartialEq, Eq, Structural)]
pub enum TaskStatus {
    /// The request is being processed before approval.
    Working,
    /// Awaiting an approval decision.
    InputRequired,
    /// Executing the approved call (not visible to the agent).
    Executing,
    /// Completed.
    Completed,
    /// Failed.
    Failed,
    /// The approver rejected the request.
    Rejected,
    /// The agent cancelled the task.
    Cancelled,
    /// The time to live passed without completion.
    Expired,
}

impl TaskStatus {
    /// Whether the task's life has ended.
    pub open spec fn terminal(self) -> bool {
        self is Completed || self is Failed || self is Rejected || self is Cancelled
            || self is Expired
    }

    /// Whether the state machine has a step from this status to another.
    pub open spec fn steps_to(self, to: TaskStatus) -> bool {
        match self {
            TaskStatus::Working => to is InputRequired || to is Failed || to is Expired,
            TaskStatus::InputRequired => to is Executing || to is Rejected || to is Cancelled
                || to is Expired,
            TaskStatus::Executing => to is Completed || to is Failed,
            _ => false,
        }
    }

    /// The status on the wire.
    pub open spec fn on_wire(self) -> Sep1686Status {
        match self {
            TaskStatus::Working | TaskStatus::Executing => Sep1686Status::Working,
            TaskStatus::InputRequired => Sep1686Status::InputRequired,
            TaskStatus::Completed => Sep1686Status::Completed,
            TaskStatus::Failed | TaskStatus::Rejected | TaskStatus::Expired => Sep1686Status::Failed,
            TaskStatus::Cancelled => Sep1686Status::Cancelled,
        }
    }

    /// The name of the status.
    pub open spec fn name(self) -> Seq<char> {
        match self {
            TaskStatus::Working => "working"@,
            TaskStatus::InputRequired => "input_required"@,
            TaskStatus::Executing => "executing"@,
            TaskStatus::Completed => "completed"@,
            TaskStatus::Failed => "failed"@,
            TaskStatus::Rejected => "rejected"@,
            TaskStatus::Cancelled => "cancelled"@,
            TaskStatus::Expired => "expired"@,
        }
    }

    /// Returns true if this is a terminal state.
    pub fn is_terminal(&self) -> (r: bool)
        ensures
            r == self.terminal(),
    {
        match self {
            TaskStatus::Completed
            | TaskStatus::Failed
            | TaskStatus::Rejected
            | TaskStatus::Cancelled
            | TaskStatus::Expired => true,
            _ => false,
        }
    }

    /// Returns true if this state is shown to agents as it is.
    pub fn is_agent_visible(&self) -> (r: bool)
        ensures
            r == !(self is Executing),
    {
        match self {
            TaskStatus::Executing => false,
            _ => true,
        }
    }

    /// The name of the status on the wire.
    pub fn to_sep1686(&self) -> (r: &'static str)
        ensures
            r@ == self.on_wire().name(),
    {
        match self {
            TaskStatus::Working | TaskStatus::Executing => "working",
            TaskStatus::InputRequired => "input_required",
            TaskStatus::Completed => "completed",
            TaskStatus::Failed | TaskStatus::Expired | TaskStatus::Rejected => "failed",
            TaskStatus::Cancelled => "cancelled",
        }
    }

    /// Checks if a transition from this status to another is valid.
    pub fn can_transition_to(&self, to: TaskStatus) -> (r: bool)
        ensures
            r == self.steps_to(to),
    {
        match (*self, to) {
            (TaskStatus::Working, TaskStatus::InputRequired)
            | (TaskStatus::Working, TaskStatus::Failed)
            | (TaskStatus::Working, TaskStatus::Expired) => true,
            (TaskStatus::InputRequired, TaskStatus::Executing)
            | (TaskStatus::InputRequired, TaskStatus::Rejected)
            | (TaskStatus::InputRequired, TaskStatus::Cancelled)
            | (TaskStatus::InputRequired, TaskStatus::Expired) => true,
            (TaskStatus::Executing, TaskStatus::Completed)
            | (TaskStatus::Executing, TaskStatus::Failed) => true,
            _ => false,
        }
    }

    /// The name of the status.
    pub fn to_text(&self) -> (r: String)
        ensures
            r@ == self.name(),
    {
        match self {
            TaskStatus::Working => "working".to_owned(),
            TaskStatus::InputRequired => "input_required".to_owned(),
            TaskStatus::Executing => "executing".to_owned(),
            TaskStatus::Completed => "completed".to_owned(),
            TaskStatus::Failed => "failed".to_owned(),
            TaskStatus::Rejected => "rejected".to_owned(),
            TaskStatus::Cancelled => "cancelled".to_owned(),
            TaskStatus::Expired => "expired".to_owned(),
        }
    }
}

impl From<TaskStatus> for Sep1686Status {
    fn from(status: TaskStatus) -> (r: Self) {
        match status {
            TaskStatus::Working | TaskStatus::Executing => Sep1686Status::Working,
            TaskStatus::InputRequired => Sep1686Status::InputRequired,
            TaskStatus::Completed => Sep1686Status::Completed,
            TaskStatus::Failed | TaskStatus::Rejected | TaskStatus::Expired => Sep1686Status::Failed,
            TaskStatus::Cancelled => Sep1686Status::Cancelled,
        }
    }
}

impl vstd::std_specs::convert::FromSpecImpl<TaskStatus> for Sep1686Status {
    open spec fn obeys_from_spec() -> bool {
        true
    }

    open spec fn from_spec(status: TaskStatus) -> Self {
        status.on_wire()
    }
}

/// A terminal status has no step out of it, and every status without one is
/// terminal.
pub proof fn law_terminal_states_are_final(status: TaskStatus, to: TaskStatus)
    ensures
        status.terminal() ==> !status.steps_to(to),
        !status.terminal() ==> exists|next: TaskStatus| status.steps_to(next),
{
    if !status.terminal() {
        match status {
            TaskStatus::Working => {
                assert(status.steps_to(TaskStatus::Failed));
            },
            TaskStatus::InputRequired => {
                assert(status.steps_to(TaskStatus::Executing));
            },
            _ => {
                assert(status.steps_to(TaskStatus::Failed));
            },
        }
    }
}

/// How far along the life cycle a status stands.
pub open spec fn rank(status: TaskStatus) -> int {
    match status {
        TaskStatus::Working => 0,
        TaskStatus::InputRequired => 1,
        TaskStatus::Executing => 2,
        _ => 3,
    }
}

/// No step leads back: every step goes forward along the life cycle, so no
/// status is entered twice.
pub proof fn law_no_step_back(from: TaskStatus, to: TaskStatus)
    requires
        from.steps_to(to),
    ensures
        rank(from) < rank(to),
        !to.steps_to(from),
{
}

/// Execution is entered from an awaited approval only, and completion from
/// execution only.
pub proof fn law_execution_needs_approval(from: TaskStatus)
    ensures
        from.steps_to(TaskStatus::Executing) <==> from is InputRequired,
        from.steps_to(TaskStatus::Completed) <==> from is Executing,
{
}

/// The wire has no status of its own for execution, and ends exactly where the
/// task does.
pub proof fn law_wire_status_ends_with_the_task(status: TaskStatus)
    ensures
        status.terminal() <==> (status.on_wire() is Completed || status.on_wire() is Failed
            || status.on_wire() is Cancelled),
{
}

/// The wire shows a task as working while it is processed or executed, as awaiting
/// input while it awaits a decision, and as failed if it failed, was rejected or
/// expired; each status on the wire has its name.
pub proof fn law_wire_status_by_name(status: TaskStatus)
    ensures
        status is Working || status is Executing ==> status.on_wire().name() == "working"@,
        status is InputRequired ==> status.on_wire().name() == "input_required"@,
        status is Completed ==> status.on_wire().name() == "completed"@,
        status is Cancelled ==> status.on_wire().name() == "cancelled"@,
        status is Failed || status is Rejected || status is Expired ==> status.on_wire().name()
            == "failed"@,
{
}

} // verus!
