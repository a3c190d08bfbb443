//! What is told of errors names what they are about.

use vstd::prelude::*;

use crate::config::error::{ConfigError, ValidationWarning};
use crate::governance::approval::types::{AdapterError, DecisionMethod};
use crate::governance::engine::{engine_error, ApprovalEngineError};
use crate::governance::task::error::TaskError;
use crate::inspector::InspectionError;
use crate::text::{has_part, numeral, stands_at};

verus! {

/// What stands between two texts is a part of the whole.
pub proof fn lemma_part(before: Seq<char>, part: Seq<char>, behind: Seq<char>)
    ensures
        has_part(before + part + behind, part),
        has_part(before + part, part),
{
    let at = before.len() as int;
    assert((before + part + behind).subrange(at, at + part.len()) =~= part);
    assert(stands_at(before + part + behind, part, at));
    assert((before + part).subrange(at, at + part.len()) =~= part);
    assert(stands_at(before + part, part, at));
}

/// A part of a beginning is a part of the whole.
pub proof fn lemma_part_of_front(front: Seq<char>, part: Seq<char>, behind: Seq<char>)
    requires
        has_part(front, part),
    ensures
        has_part(front + behind, part),
{
    let i = choose|i: int| stands_at(front, part, i);
    assert((front + behind).subrange(i, i + part.len()) =~= front.subrange(i, i + part.len()));
    assert(stands_at(front + behind, part, i));
}

/// The text of a task's error names the task or the principal that it is about, and
/// the statuses that it speaks of.
pub proof fn law_task_errors_name_their_subject(error: TaskError<Seq<char>>)
    ensures
        match error {
            TaskError::NotFound { task_id } => has_part(error.text(), task_id),
            TaskError::Expired { task_id } => has_part(error.text(), task_id),
            TaskError::AlreadyTerminal { task_id, status } => has_part(error.text(), task_id)
                && has_part(error.text(), status.name()),
            TaskError::InvalidTransition { task_id, from, to } => has_part(error.text(), task_id)
                && has_part(error.text(), from.name()) && has_part(error.text(), to.name()),
            TaskError::ConcurrentModification { task_id, expected, actual } => has_part(
                error.text(),
                task_id,
            ) && has_part(error.text(), expected.name()) && has_part(error.text(), actual.name()),
            TaskError::RateLimited { principal, .. } => has_part(error.text(), principal),
            TaskError::ResultNotReady { task_id } => has_part(error.text(), task_id),
            TaskError::Internal { details } => has_part(error.text(), details),
            TaskError::CapacityExceeded => true,
        },
{
    match error {
        TaskError::NotFound { task_id } => {
            lemma_part("Task '"@, task_id, "' not found"@);
        },
        TaskError::Expired { task_id } => {
            lemma_part("Task '"@, task_id, "' has expired"@);
        },
        TaskError::AlreadyTerminal { task_id, status } => {
            let mid = "' is already in terminal state '"@;
            lemma_part("Task '"@, task_id, mid);
            lemma_part_of_front("Task '"@ + task_id + mid, task_id, status.name());
            lemma_part_of_front("Task '"@ + task_id + mid + status.name(), task_id, "'"@);
            lemma_part("Task '"@ + task_id + mid, status.name(), "'"@);
        },
        TaskError::InvalidTransition { task_id, from, to } => {
            let a = "Invalid transition for task '"@;
            lemma_part(a, task_id, "': "@);
            lemma_part_of_front(a + task_id + "': "@, task_id, from.name());
            lemma_part_of_front(a + task_id + "': "@ + from.name(), task_id, " -> "@);
            lemma_part_of_front(a + task_id + "': "@ + from.name() + " -> "@, task_id, to.name());
            lemma_part(a + task_id + "': "@, from.name(), " -> "@);
            lemma_part_of_front(
                a + task_id + "': "@ + from.name() + " -> "@,
                from.name(),
                to.name(),
            );
            lemma_part(a + task_id + "': "@ + from.name() + " -> "@, to.name(), ""@);
        },
        TaskError::ConcurrentModification { task_id, expected, actual } => {
            let a = "Concurrent modification of task '"@;
            let b = "': expected "@;
            let c = ", found "@;
            lemma_part(a, task_id, b);
            lemma_part_of_front(a + task_id + b, task_id, expected.name());
            lemma_part_of_front(a + task_id + b + expected.name(), task_id, c);
            lemma_part_of_front(a + task_id + b + expected.name() + c, task_id, actual.name());
            lemma_part(a + task_id + b, expected.name(), c);
            lemma_part_of_front(
                a + task_id + b + expected.name() + c,
                expected.name(),
                actual.name(),
            );
            lemma_part(a + task_id + b + expected.name() + c, actual.name(), ""@);
        },
        TaskError::RateLimited { principal, retry_after } => {
            let a = "Rate limit exceeded for principal '"@;
            lemma_part(a, principal, "', retry after "@);
            lemma_part_of_front(a + principal + "', retry after "@, principal, retry_after.text());
        },
        TaskError::ResultNotReady { task_id } => {
            lemma_part("Result not ready for task '"@, task_id, "'"@);
        },
        TaskError::Internal { details } => {
            lemma_part("Internal error: "@, details, ""@);
        },
        TaskError::CapacityExceeded => {},
    }
}

/// The engine's error for a failed task operation keeps what it is about: a task that
/// is not there, a task with the status that it has, or else the whole text.
pub proof fn law_engine_errors_keep_their_subject(
    error: TaskError<Seq<char>>,
    own: ApprovalEngineError<Seq<char>>,
)
    ensures
        match error {
            TaskError::NotFound { task_id } => engine_error(error)
                == ApprovalEngineError::<Seq<char>>::TaskNotFound { task_id },
            TaskError::InvalidTransition { task_id, from, .. } => engine_error(error)
                == ApprovalEngineError::<Seq<char>>::InvalidState { task_id, status: from },
            _ => engine_error(error) == ApprovalEngineError::<Seq<char>>::Internal {
                details: error.text(),
            },
        },
        match own {
            ApprovalEngineError::TaskCreation { details } => has_part(own.text(), details),
            ApprovalEngineError::PostFailed { details } => has_part(own.text(), details),
            ApprovalEngineError::TaskNotFound { task_id } => has_part(own.text(), task_id),
            ApprovalEngineError::InvalidState { task_id, status } => has_part(own.text(), task_id)
                && has_part(own.text(), status.name()),
            ApprovalEngineError::Internal { details } => has_part(own.text(), details),
        },
{
    match own {
        ApprovalEngineError::TaskCreation { details } => {
            lemma_part("Task creation failed: "@, details, ""@);
        },
        ApprovalEngineError::PostFailed { details } => {
            lemma_part("Approval post failed: "@, details, ""@);
        },
        ApprovalEngineError::TaskNotFound { task_id } => {
            lemma_part("Task not found: "@, task_id, ""@);
        },
        ApprovalEngineError::InvalidState { task_id, status } => {
            lemma_part("Task "@, task_id, " in invalid state: "@);
            lemma_part_of_front(
                "Task "@ + task_id + " in invalid state: "@,
                task_id,
                status.name(),
            );
            lemma_part("Task "@ + task_id + " in invalid state: "@, status.name(), ""@);
        },
        ApprovalEngineError::Internal { details } => {
            lemma_part("Internal error: "@, details, ""@);
        },
    }
}

/// The text of an adapter's or an inspector's error names its reason and what is
/// missing; the description of a decision shows the emoji, or a short reply in full.
pub proof fn law_outside_errors_name_their_reason(
    error: AdapterError<Seq<char>>,
    inspection: InspectionError<Seq<char>>,
    method: DecisionMethod<Seq<char>>,
)
    ensures
        match error {
            AdapterError::PostFailed { reason, .. } => has_part(error.text(), reason),
            AdapterError::PollFailed { reason, .. } => has_part(error.text(), reason),
            AdapterError::RateLimited { retry_after } => has_part(
                error.text(),
                retry_after.text(),
            ),
            AdapterError::ChannelNotFound { channel } => has_part(error.text(), channel),
            AdapterError::MessageNotFound { ts } => has_part(error.text(), ts),
            AdapterError::InvalidToken => true,
        },
        match inspection {
            InspectionError::Failed { name, reason } => has_part(inspection.text(), name)
                && has_part(inspection.text(), reason),
            InspectionError::Panicked { name } => has_part(inspection.text(), name),
        },
        match method {
            DecisionMethod::Reaction { emoji } => has_part(method.text(), emoji),
            DecisionMethod::Reply { text } => text.len() <= 30 ==> has_part(method.text(), text),
        },
{
    match error {
        AdapterError::PostFailed { reason, .. } => {
            lemma_part("Failed to post approval request: "@, reason, ""@);
        },
        AdapterError::PollFailed { reason, .. } => {
            lemma_part("Failed to poll for decision: "@, reason, ""@);
        },
        AdapterError::RateLimited { retry_after } => {
            lemma_part("Rate limited, retry after "@, retry_after.text(), ""@);
        },
        AdapterError::ChannelNotFound { channel } => {
            lemma_part("Channel not found: "@, channel, ""@);
        },
        AdapterError::MessageNotFound { ts } => {
            lemma_part("Message not found: "@, ts, ""@);
        },
        AdapterError::InvalidToken => {},
    }
    match inspection {
        InspectionError::Failed { name, reason } => {
            lemma_part("Inspector '"@, name, "' failed: "@);
            lemma_part_of_front("Inspector '"@ + name + "' failed: "@, name, reason);
            lemma_part("Inspector '"@ + name + "' failed: "@, reason, ""@);
        },
        InspectionError::Panicked { name } => {
            lemma_part("Inspector '"@, name, "' panicked"@);
        },
    }
    match method {
        DecisionMethod::Reaction { emoji } => {
            lemma_part(":"@, emoji, ": reaction"@);
        },
        DecisionMethod::Reply { text } => {
            lemma_part("reply \""@, text, "...\""@);
            lemma_part("reply \""@, text, "\""@);
        },
    }
}

/// The text of a configuration's error names the source, the rule, the workflow, the
/// variable or the file that is wrong.
pub proof fn law_configuration_errors_name_their_subject(
    error: ConfigError<Seq<char>, Seq<Seq<char>>>,
    warning: ValidationWarning<Seq<char>>,
)
    ensures
        match error {
            ConfigError::DuplicateSourceId { id } => has_part(error.text(), id),
            ConfigError::ReservedPrefix { id } => has_part(error.text(), id),
            ConfigError::InvalidSourceId { id, reason } => has_part(error.text(), id) && has_part(
                error.text(),
                reason,
            ),
            ConfigError::DuplicatePrefix { prefix } => has_part(error.text(), prefix),
            ConfigError::MissingPolicyId { pattern } => has_part(error.text(), pattern),
            ConfigError::UndefinedWorkflow { workflow, .. } => has_part(error.text(), workflow),
            ConfigError::MissingApprovalWorkflow { pattern, .. } => has_part(
                error.text(),
                pattern,
            ),
            ConfigError::InvalidGlobPattern { pattern, message } => has_part(error.text(), pattern)
                && has_part(error.text(), message),
            ConfigError::UndefinedSourceInRule { source_id, .. } => has_part(
                error.text(),
                source_id,
            ),
            ConfigError::InvalidWorkflowTimeout { workflow, .. } => has_part(
                error.text(),
                workflow,
            ),
            ConfigError::InvalidDuration { value, .. } => has_part(error.text(), value),
            ConfigError::InvalidUrl { url, .. } => has_part(error.text(), url),
            ConfigError::PolicyFileNotFound { path } => has_part(error.text(), path),
            ConfigError::MissingEnvVar { var, .. } => has_part(error.text(), var),
            ConfigError::UnsupportedSchemaVersion { version } => has_part(
                error.text(),
                numeral(version as nat),
            ),
            ConfigError::UnknownSamplingStrategy { strategy } => has_part(error.text(), strategy),
            ConfigError::InvalidOtlpEndpoint { endpoint, .. } => has_part(error.text(), endpoint),
            ConfigError::UnknownOtlpProtocol { protocol } => has_part(error.text(), protocol),
            ConfigError::ParseError(message) => has_part(error.text(), message),
            ConfigError::IoError(message) => has_part(error.text(), message),
            _ => true,
        },
        match warning {
            ValidationWarning::PolicyIdWithoutPolicyAction { pattern } => has_part(
                warning.text(),
                pattern,
            ),
            ValidationWarning::PerWorkflowSlackNotSupported { workflow } => has_part(
                warning.text(),
                workflow,
            ),
            _ => true,
        },
{
    match error {
        ConfigError::DuplicateSourceId { id } => {
            lemma_part("duplicate source ID: '"@, id, "'"@);
        },
        ConfigError::ReservedPrefix { id } => {
            lemma_part("source ID '"@, id, "' uses reserved prefix '_'"@);
        },
        ConfigError::InvalidSourceId { id, reason } => {
            lemma_part("invalid source ID '"@, id, "': "@);
            lemma_part_of_front("invalid source ID '"@ + id + "': "@, id, reason);
            lemma_part("invalid source ID '"@ + id + "': "@, reason, ""@);
        },
        ConfigError::DuplicatePrefix { prefix } => {
            lemma_part("duplicate prefix: '"@, prefix, "'"@);
        },
        ConfigError::MissingPolicyId { pattern } => {
            lemma_part("missing policy_id for action: policy in rule '"@, pattern, "'"@);
        },
        ConfigError::UndefinedWorkflow { workflow, pattern } => {
            let a = "undefined workflow '"@;
            lemma_part(a, workflow, "' in rule '"@);
            lemma_part_of_front(a + workflow + "' in rule '"@, workflow, pattern);
            lemma_part_of_front(a + workflow + "' in rule '"@ + pattern, workflow, "'"@);
        },
        ConfigError::MissingApprovalWorkflow { pattern, workflow_count } => {
            let mid = "' names no approval workflow, but "@;
            let n = numeral(workflow_count as nat);
            lemma_part("rule '"@, pattern, mid);
            lemma_part_of_front("rule '"@ + pattern + mid, pattern, n);
            lemma_part_of_front("rule '"@ + pattern + mid + n, pattern, " workflows are defined"@);
        },
        ConfigError::InvalidGlobPattern { pattern, message } => {
            lemma_part("invalid glob pattern '"@, pattern, "': "@);
            lemma_part_of_front("invalid glob pattern '"@ + pattern + "': "@, pattern, message);
            lemma_part("invalid glob pattern '"@ + pattern + "': "@, message, ""@);
        },
        ConfigError::UndefinedSourceInRule { source_id, pattern } => {
            let a = "undefined source '"@;
            lemma_part(a, source_id, "' in rule '"@);
            lemma_part_of_front(a + source_id + "' in rule '"@, source_id, pattern);
            lemma_part_of_front(a + source_id + "' in rule '"@ + pattern, source_id, "'"@);
        },
        ConfigError::InvalidWorkflowTimeout { workflow, field, duration_secs } => {
            let a = "workflow '"@ + workflow + "': "@;
            let n = numeral(duration_secs as nat);
            lemma_part("workflow '"@, workflow, "': "@);
            lemma_part_of_front(a, workflow, field);
            lemma_part_of_front(a + field, workflow, " of "@);
            lemma_part_of_front(a + field + " of "@, workflow, n);
            lemma_part_of_front(a + field + " of "@ + n, workflow, "s is too short"@);
        },
        ConfigError::InvalidDuration { value, message } => {
            lemma_part("invalid duration '"@, value, "': "@);
            lemma_part_of_front("invalid duration '"@ + value + "': "@, value, message);
        },
        ConfigError::InvalidUrl { url, message } => {
            lemma_part("invalid URL '"@, url, "': "@);
            lemma_part_of_front("invalid URL '"@ + url + "': "@, url, message);
        },
        ConfigError::PolicyFileNotFound { path } => {
            lemma_part("policy file not found: "@, path, ""@);
        },
        ConfigError::MissingEnvVar { var, field } => {
            let a = "environment variable '"@ + var + "' not set (required for field '"@;
            lemma_part("environment variable '"@, var, "' not set (required for field '"@);
            lemma_part_of_front(a, var, field);
            lemma_part_of_front(a + field, var, "')"@);
        },
        ConfigError::UnsupportedSchemaVersion { version } => {
            lemma_part("unsupported schema version "@, numeral(version as nat), ", expected 1"@);
        },
        ConfigError::UnknownSamplingStrategy { strategy } => {
            lemma_part("unknown sampling strategy '"@, strategy, "'"@);
        },
        ConfigError::InvalidOtlpEndpoint { endpoint, message } => {
            lemma_part("invalid OTLP endpoint '"@, endpoint, "': "@);
            lemma_part_of_front("invalid OTLP endpoint '"@ + endpoint + "': "@, endpoint, message);
        },
        ConfigError::UnknownOtlpProtocol { protocol } => {
            lemma_part("unknown OTLP protocol '"@, protocol, "'"@);
        },
        ConfigError::ParseError(message) => {
            lemma_part("YAML parse error: "@, message, ""@);
        },
        ConfigError::IoError(message) => {
            lemma_part("I/O error: "@, message, ""@);
        },
        _ => {},
    }
    match warning {
        ValidationWarning::PolicyIdWithoutPolicyAction { pattern } => {
            lemma_part("rule '"@, pattern, "' has policy_id but action is not 'policy'"@);
        },
        ValidationWarning::PerWorkflowSlackNotSupported { workflow } => {
            lemma_part(
                "workflow '"@,
                workflow,
                "' has Slack settings of its own, which are not supported yet"@,
            );
        },
        _ => {},
    }
}

} // verus!
