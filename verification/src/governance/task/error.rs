//! Task operation errors.

use vstd::prelude::*;
use vstd::string::*;

use crate::config::error::quoted;
use crate::governance::task::status::TaskStatus;
use crate::time::Duration;

verus! {

/// Errors of task operations. `T` holds a text.
#[derive(Debug, Clone, PartialEq, Eq)]
pub enum TaskError<T = String> {
    /// There is no task with the given ID.
    NotFound { task_id: T },
    /// The task has expired.
    Expired { task_id: T },
    /// The task is in a terminal state.
    AlreadyTerminal { task_id: T, status: TaskStatus },
    /// The state machine has no such transition.
    InvalidTransition { task_id: T, from: TaskStatus, to: TaskStatus },
    /// The task is not in the expected state (optimistic locking).
    ConcurrentModification { task_id: T, expected: TaskStatus, actual: TaskStatus },
    /// The principal has too many pending tasks.
    RateLimited { principal: T, retry_after: Duration },
    /// There are too many pending tasks.
    CapacityExceeded,
    /// The result is not yet available.
    ResultNotReady { task_id: T },
    /// Internal error.
    Internal { details: T },
}

impl TaskError {
    /// The error with its strings taken as character sequences.
    pub open spec fn view(self) -> TaskError<Seq<char>> {
        match self {
            TaskError::NotFound { task_id } => TaskError::NotFound { task_id: task_id@ },
            TaskError::Expired { task_id } => TaskError::Expired { task_id: task_id@ },
            TaskError::AlreadyTerminal { task_id, status } => TaskError::AlreadyTerminal {
                task_id: task_id@,
                status,
            },
            TaskError::InvalidTransition { task_id, from, to } => TaskError::InvalidTransition {
                task_id: task_id@,
                from,
                to,
            },
            TaskError::ConcurrentModification {
                task_id,
                expected,
                actual,
            } => TaskError::ConcurrentModification { task_id: task_id@, expected, actual },
            TaskError::RateLimited { principal, retry_after } => TaskError::RateLimited {
                principal: principal@,
                retry_after,
            },
            TaskError::CapacityExceeded => TaskError::CapacityExceeded,
            TaskError::ResultNotReady { task_id } => TaskError::ResultNotReady {
                task_id: task_id@,
            },
            TaskError::Internal { details } => TaskError::Internal { details: details@ },
        }
    }

    /// The text that tells a person what is wrong.
    pub fn message(&self) -> (r: String)
        ensures
            r@ == self@.text(),
    {
        match self {
            TaskError::NotFound { task_id } => quoted("Task '", task_id.as_str(), "' not found"),
            TaskError::Expired { task_id } => quoted("Task '", task_id.as_str(), "' has expired"),
            TaskError::AlreadyTerminal { task_id, status } => quoted(
                "Task '",
                task_id.as_str(),
                "' is already in terminal state '",
            ).concat(status.to_text().as_str()).concat("'"),
            TaskError::InvalidTransition { task_id, from, to } => quoted(
                "Invalid transition for task '",
                task_id.as_str(),
                "': ",
            ).concat(from.to_text().as_str()).concat(" -> ").concat(to.to_text().as_str()),
            TaskError::ConcurrentModification { task_id, expected, actual } => quoted(
                "Concurrent modification of task '",
                task_id.as_str(),
                "': expected ",
            ).concat(expected.to_text().as_str()).concat(", found ").concat(
                actual.to_text().as_str(),
            ),
            TaskError::RateLimited { principal, retry_after } => quoted(
                "Rate limit exceeded for principal '",
                principal.as_str(),
                "', retry after ",
            ).concat(retry_after.to_text().as_str()),
            TaskError::CapacityExceeded => "Global task capacity exceeded".to_owned(),
            TaskError::ResultNotReady { task_id } => quoted(
                "Result not ready for task '",
                task_id.as_str(),
                "'",
            ),
            TaskError::Internal { details } => "Internal error: ".to_owned().concat(
                details.as_str(),
            ),
        }
    }
}

impl TaskError<Seq<char>> {
    /// The text that tells a person what is wrong.
    pub open spec fn text(self) -> Seq<char> {
        match self {
            TaskError::NotFound { task_id } => "Task '"@ + task_id + "' not found"@,
            TaskError::Expired { task_id } => "Task '"@ + task_id + "' has expired"@,
            TaskError::AlreadyTerminal { task_id, status } => {
                "Task '"@ + task_id + "' is already in terminal state '"@ + status.name() + "'"@
            },
            TaskError::InvalidTransition { task_id, from, to } => {
                "Invalid transition for task '"@ + task_id + "': "@ + from.name() + " -> "@
                    + to.name()
            },
            TaskError::ConcurrentModification { task_id, expected, actual } => {
                "Concurrent modification of task '"@ + task_id + "': expected "@ + expected.name()
                    + ", found "@ + actual.name()
            },
            TaskError::RateLimited { principal, retry_after } => {
                "Rate limit exceeded for principal '"@ + principal + "', retry after "@
                    + retry_after.text()
            },
            TaskError::CapacityExceeded => "Global task capacity exceeded"@,
            TaskError::ResultNotReady { task_id } => "Result not ready for task '"@ + task_id
                + "'"@,
            TaskError::Internal { details } => "Internal error: "@ + details,
        }
    }
}

} // verus!
