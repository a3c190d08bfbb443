//! What holds of the approval engine across its steps.

use vstd::prelude::*;

use crate::config::schema::TimeoutAction;
use crate::error::ThoughtGateError;
use crate::governance::approval::redact::{redacted, value_at};
use crate::governance::approval::redact_laws::law_named_fields_are_redacted;
use crate::governance::engine::{
    approval_post, execution_answer, execution_step, late_answer, settled, start_error, started,
    started_task, tasks_after_execution, tasks_after_open, timeout_action, unavailable,
    ApprovalEngineConfig, ApprovalEngineError, ApprovalStartResult, ExecutionStepView,
    ExecutionView, PipelineResult, PipelineView,
};
use crate::governance::task::helpers::request_hash;
use crate::governance::task::life::{
    consistent_trail, law_status_changes_three_times, lemma_traceable_step, new_task, stepped,
    traceable, MAX_TTL_MILLIS,
};
use crate::governance::task::maps::TaskEntry;
use crate::governance::task::status::TaskStatus;
use crate::governance::task::store::{
    cancelled, create_error, entries_in_order, expired_entry, expires, ran_late, with_decision,
    with_failure, TaskStoreConfig, Tasks,
};
use crate::governance::task::store_laws::same_work;
use crate::governance::task::types::{
    ApprovalDecision, FailureInfo, FailureStage, PrincipalView, RequestView, Task, TaskView, ToolCallResult,
};
use crate::json::JsonView;
use crate::text::{has_part, lower_case, parts};
use crate::time::{Duration, Timestamp};

verus! {

/// While a call is being executed, it is not handed out a second time.
pub proof fn law_one_execution_at_a_time(
    tasks: Tasks,
    running: Set<Seq<char>>,
    config: ApprovalEngineConfig,
    id: Seq<char>,
    now: Timestamp,
)
    requires
        running.contains(id),
    ensures
        execution_step(tasks, running, config, id, now) is Answer,
{
}

/// A call is executed only if an approval is on record for it, or if it timed
/// out, its timeout action is to approve, and no execution is on record for it.
pub proof fn law_only_approved_calls_run(
    tasks: Tasks,
    running: Set<Seq<char>>,
    config: ApprovalEngineConfig,
    id: Seq<char>,
    now: Timestamp,
)
    ensures
        match execution_step(tasks, running, config, id, now) {
            ExecutionStepView::Execute(e) => {
                &&& tasks.contains_key(id)
                &&& !running.contains(id)
                &&& if e.late {
                    tasks[id].task.status is Expired && tasks[id].task.on_timeout is Approve
                        && late_answer(tasks[id].task) is None
                } else {
                    tasks[id].task.status is Executing && tasks[id].task.approval == Some(
                        e.approval,
                    )
                }
            },
            ExecutionStepView::Answer(_) => true,
        },
{
}

/// A call that has just been opened is answered "not ready", whatever runs.
pub proof fn law_opened_call_is_not_ready(
    tasks: Tasks,
    task: TaskView,
    opened: Timestamp,
    running: Set<Seq<char>>,
    config: ApprovalEngineConfig,
    now: Timestamp,
)
    ensures
        execution_step(tasks_after_open(tasks, task, opened), running, config, task.id, now)
            == ExecutionStepView::Answer(
            Err(ThoughtGateError::TaskResultNotReady { task_id: task.id }),
        ),
{
}

/// Once a decision has been recorded on a task, a poll executes an approved call
/// on that approval, unless it is running, and answers a rejected call with the
/// rejection and who made it.
pub proof fn law_decision_is_carried_out(
    tasks: Tasks,
    id: Seq<char>,
    decision: ApprovalDecision<Seq<char>>,
    decided_by: Seq<char>,
    valid_for: Duration,
    decided: Timestamp,
    terminal_at: Option<Timestamp>,
    running: Set<Seq<char>>,
    config: ApprovalEngineConfig,
    now: Timestamp,
)
    requires
        tasks.contains_key(id),
    ensures
        ({
            let task = with_decision(tasks[id].task, decision, decided_by, valid_for, decided);
            let after = tasks.insert(id, TaskEntry { task, terminal_at });
            let step = execution_step(after, running, config, id, now);
            match decision {
                ApprovalDecision::Approved => !running.contains(id) ==> {
                    &&& step is Execute
                    &&& step->Execute_0.task == task
                    &&& step->Execute_0.approval.decision is Approved
                    &&& step->Execute_0.approval.decided_by == decided_by
                    &&& !step->Execute_0.late
                },
                ApprovalDecision::Rejected { .. } => step == ExecutionStepView::Answer(
                    Err(
                        ThoughtGateError::ApprovalRejected {
                            tool: tasks[id].task.original_request.name,
                            rejected_by: Some(decided_by),
                            workflow: None,
                        },
                    ),
                ),
            }
        }),
{
}

/// Whether the task of an execution is as it was when the call was handed out.
pub open spec fn awaits_outcome(tasks: Tasks, execution: ExecutionView) -> bool {
    let task = tasks[execution.task.id].task;
    &&& tasks.contains_key(execution.task.id)
    &&& if execution.late {
        task.status is Expired && task.on_timeout is Approve && late_answer(task) is None
    } else {
        task.status is Executing
    }
}

/// A call that is handed out awaits its outcome.
pub proof fn law_handed_out_call_awaits_its_outcome(
    tasks: Tasks,
    running: Set<Seq<char>>,
    config: ApprovalEngineConfig,
    id: Seq<char>,
    now: Timestamp,
)
    requires
        entries_in_order(tasks),
    ensures
        match execution_step(tasks, running, config, id, now) {
            ExecutionStepView::Execute(e) => e.task.id == id && awaits_outcome(tasks, e),
            ExecutionStepView::Answer(_) => true,
        },
{
}

/// Every call is executed to an outcome at most once: whatever the outcome was, in
/// time or after expiry, no later poll hands the call out again.
pub proof fn law_executed_at_most_once(
    tasks: Tasks,
    execution: ExecutionView,
    outcome: Option<PipelineView>,
    running: Set<Seq<char>>,
    config: ApprovalEngineConfig,
    finished: Timestamp,
    now: Timestamp,
)
    requires
        awaits_outcome(tasks, execution),
    ensures
        execution_step(
            tasks_after_execution(tasks, execution, outcome, config, finished),
            running,
            config,
            execution.task.id,
            now,
        ) is Answer,
{
}

/// Once an approved call has been executed, in time or after expiry, every later
/// poll gives its result, and the call is not executed again.
pub proof fn law_result_is_kept(
    tasks: Tasks,
    execution: ExecutionView,
    result: ToolCallResult<JsonView>,
    running: Set<Seq<char>>,
    config: ApprovalEngineConfig,
    finished: Timestamp,
    now: Timestamp,
)
    requires
        awaits_outcome(tasks, execution),
    ensures
        execution_answer(execution, Some(PipelineResult::Success { result }), config) == Ok::<
            ToolCallResult<JsonView>,
            ThoughtGateError<Seq<char>>,
        >(result),
        execution_step(
            tasks_after_execution(
                tasks,
                execution,
                Some(PipelineResult::Success { result }),
                config,
                finished,
            ),
            running,
            config,
            execution.task.id,
            now,
        ) == ExecutionStepView::Answer(Ok(result)),
{
}

/// Once an approved call has failed, in time or after expiry, every later poll
/// gives the reason, and the call is not executed again. After expiry it is the
/// very answer that was given first.
pub proof fn law_failure_is_kept(
    tasks: Tasks,
    execution: ExecutionView,
    outcome: Option<PipelineView>,
    running: Set<Seq<char>>,
    config: ApprovalEngineConfig,
    finished: Timestamp,
    now: Timestamp,
)
    requires
        awaits_outcome(tasks, execution),
        settled(outcome, config) is Failure,
    ensures
        execution_step(
            tasks_after_execution(tasks, execution, outcome, config, finished),
            running,
            config,
            execution.task.id,
            now,
        ) == ExecutionStepView::Answer(
            if execution.late {
                execution_answer(execution, outcome, config)
            } else {
                unavailable(settled(outcome, config)->reason)
            },
        ),
{
}

/// Whether a task's trail is consistent and holds at most three entries, and the
/// outcome of an execution that it notes after expiry is on record.
pub open spec fn told_in_three(task: TaskView) -> bool {
    &&& consistent_trail(task)
    &&& task.transitions.len() <= 3
    &&& ran_late(task) ==> late_answer(task) is Some
}

/// A new task's trail holds at most three entries.
pub proof fn law_new_task_is_told_in_three(
    id: Seq<char>,
    original: RequestView,
    transformed: RequestView,
    principal: PrincipalView,
    ttl: Duration,
    on_timeout: TimeoutAction,
    now: Timestamp,
)
    ensures
        told_in_three(new_task(id, original, transformed, principal, ttl, on_timeout, now)),
{
}

/// A trail that holds at most three entries still does after every step out of a
/// state that is not terminal.
pub proof fn law_step_is_told_in_three(
    task: TaskView,
    to: TaskStatus,
    reason: Option<Seq<char>>,
    now: Timestamp,
)
    requires
        told_in_three(task),
        !task.status.terminal(),
        traceable(task.status, to),
    ensures
        told_in_three(stepped(task, to, reason, now)),
{
    let after = stepped(task, to, reason, now);
    lemma_traceable_step(task, to, reason, now);
    assert(after.transitions.last().from == task.status);
    law_status_changes_three_times(after);
}

/// A trail that holds at most three entries still does after the outcome of every
/// execution that was awaited, in time or after expiry.
pub proof fn law_outcome_is_told_in_three(
    tasks: Tasks,
    execution: ExecutionView,
    outcome: Option<PipelineView>,
    config: ApprovalEngineConfig,
    now: Timestamp,
)
    requires
        awaits_outcome(tasks, execution),
        told_in_three(tasks[execution.task.id].task),
    ensures
        told_in_three(
            tasks_after_execution(tasks, execution, outcome, config, now)[execution.task.id].task,
        ),
{
    let task = tasks[execution.task.id].task;
    let after =
        tasks_after_execution(tasks, execution, outcome, config, now)[execution.task.id].task;
    if execution.late {
        law_status_changes_three_times(task);
        assert(!ran_late(task));
        let note = after.transitions.last();
        assert(after.transitions == task.transitions.push(note));
        let noted = stepped(task, TaskStatus::Expired, note.reason, now);
        lemma_traceable_step(task, TaskStatus::Expired, note.reason, now);
        assert(noted.transitions == after.transitions);
        assert(consistent_trail(after));
    } else {
        match settled(outcome, config) {
            PipelineResult::Success { result } => {
                law_step_is_told_in_three(
                    Task { result: Some(result), ..task },
                    TaskStatus::Completed,
                    Some("Execution completed"@),
                    now,
                );
            },
            PipelineResult::Failure { stage, reason, retriable } => {
                let failure = FailureInfo { stage, reason, retriable };
                law_step_is_told_in_three(
                    with_failure(task, failure),
                    TaskStatus::Failed,
                    Some(reason),
                    now,
                );
            },
        }
    }
}

/// An execution changes no task but its own.
pub proof fn law_execution_is_local(
    tasks: Tasks,
    execution: ExecutionView,
    outcome: Option<PipelineView>,
    config: ApprovalEngineConfig,
    now: Timestamp,
    other: Seq<char>,
)
    requires
        other != execution.task.id,
    ensures
        ({
            let after = tasks_after_execution(tasks, execution, outcome, config, now);
            &&& after.contains_key(other) == tasks.contains_key(other)
            &&& tasks.contains_key(other) ==> after[other] == tasks[other]
        }),
{
}

/// A task that was cancelled while it awaited a decision is answered so, and its
/// call is not executed.
pub proof fn law_cancelled_call_never_runs(
    tasks: Tasks,
    id: Seq<char>,
    at: Timestamp,
    running: Set<Seq<char>>,
    config: ApprovalEngineConfig,
    now: Timestamp,
)
    ensures
        execution_step(
            tasks.insert(
                id,
                TaskEntry { task: cancelled(tasks[id].task, at), terminal_at: Some(at) },
            ),
            running,
            config,
            id,
            now,
        ) == ExecutionStepView::Answer(Err(ThoughtGateError::TaskCancelled { task_id: id })),
{
}

/// A task that expires while it awaits a decision, with the timeout action to
/// deny, is answered with the timeout, and its call is not executed.
pub proof fn law_expired_call_is_denied(
    tasks: Tasks,
    id: Seq<char>,
    at: Timestamp,
    running: Set<Seq<char>>,
    config: ApprovalEngineConfig,
    now: Timestamp,
)
    requires
        tasks.contains_key(id),
        expires(tasks[id], at),
        tasks[id].task.on_timeout is Deny,
    ensures
        execution_step(
            tasks.insert(id, expired_entry(tasks[id], at)),
            running,
            config,
            id,
            now,
        ) == ExecutionStepView::Answer(
            Err(
                ThoughtGateError::ApprovalTimeout {
                    tool: tasks[id].task.original_request.name,
                    timeout_secs: tasks[id].task.ttl.secs(),
                    workflow: None,
                },
            ),
        ),
{
}

/// What is posted for approval is the call that the agent made, on behalf of its
/// principal, and it names every field that is to be hidden: redacting the posted
/// arguments by the posted list shows nothing at any path that was listed.
pub proof fn law_post_names_what_to_hide(
    task: TaskView,
    fields: Seq<Seq<char>>,
    correlation_id: Seq<char>,
    i: int,
)
    ensures
        ({
            let post = approval_post(task, fields, correlation_id);
            &&& post.redact_fields == fields
            &&& post.task_id == task.id
            &&& post.tool_name == task.original_request.name
            &&& post.tool_arguments == task.original_request.arguments
            &&& post.principal == task.principal
            &&& post.expires_at == task.expires_at
            &&& post.created_at == task.created_at
            &&& post.correlation_id == correlation_id
            &&& 0 <= i < fields.len() ==> {
                let shown = value_at(
                    redacted(
                        post.tool_arguments,
                        post.redact_fields,
                        post.redact_fields.len() as int,
                    ),
                    parts(fields[i], '.'),
                );
                shown is None || shown == Some(JsonView::String("[REDACTED]"@))
            }
        }),
{
    if 0 <= i < fields.len() {
        law_named_fields_are_redacted(task.original_request.arguments, fields, i);
    }
}

/// The task of an approval that is started holds the call that the agent made, the
/// call as it was transformed and its hash, and the principal. Its time limit is
/// the workflow's if there is one, else the engine's, within the store's bounds,
/// and so is its timeout action; it expires when that time has passed.
pub proof fn law_started_task_holds_the_call(
    config: ApprovalEngineConfig,
    limits: TaskStoreConfig,
    id: Seq<char>,
    call: RequestView,
    transformed: RequestView,
    principal: PrincipalView,
    workflow_timeout: Option<Duration>,
    on_timeout_override: Option<TimeoutAction>,
    now: Timestamp,
)
    ensures
        ({
            let task = started_task(
                config,
                limits,
                id,
                call,
                transformed,
                principal,
                workflow_timeout,
                on_timeout_override,
                now,
            );
            let asked = if workflow_timeout is Some {
                workflow_timeout->0
            } else {
                config.approval_timeout
            };
            &&& task.id == id
            &&& task.original_request == call
            &&& task.pre_approval_transformed == transformed
            &&& task.request_hash == request_hash(transformed)
            &&& task.principal == principal
            &&& task.created_at == now
            &&& limits.min_ttl.nanos <= asked.nanos <= limits.max_ttl.nanos ==> task.ttl == asked
            &&& asked.nanos < limits.min_ttl.nanos ==> task.ttl == limits.min_ttl
            &&& limits.min_ttl.nanos <= limits.max_ttl.nanos < asked.nanos ==> task.ttl
                == limits.max_ttl
            &&& task.ttl.nanos <= MAX_TTL_MILLIS * 1_000_000 && now.nanos + task.ttl.nanos
                <= i128::MAX ==> task.expires_at.nanos == now.nanos + task.ttl.nanos
            &&& on_timeout_override is Some ==> task.on_timeout == on_timeout_override->0
            &&& on_timeout_override is None ==> task.on_timeout == config.on_timeout
            &&& task.status is Working
            &&& task.approval is None && task.result is None && task.failure is None
            &&& task.transitions.len() == 0
        }),
{
}

/// An approval is started unless the inspection failed or the task cannot be
/// created; its start is answered with the task unless the request could not be
/// posted, and then with the reason.
pub proof fn law_start_fails_with_its_reason(
    tasks: Tasks,
    limits: TaskStoreConfig,
    key: Seq<char>,
    inspected: Result<RequestView, Seq<char>>,
    start: ApprovalStartResult<Seq<char>>,
    posted: Result<(), Seq<char>>,
)
    ensures
        match inspected {
            Err(e) => start_error(tasks, limits, key, inspected) == Some(
                ApprovalEngineError::<Seq<char>>::Internal {
                    details: "Pre-approval phase failed: "@ + e,
                },
            ),
            Ok(call) => match create_error(tasks, limits, key, call.arguments) {
                Some(e) => start_error(tasks, limits, key, inspected) == Some(
                    ApprovalEngineError::<Seq<char>>::TaskCreation { details: e.text() },
                ),
                None => start_error(tasks, limits, key, inspected) is None,
            },
        },
        match posted {
            Ok(_) => started(start, posted) is Ok && started(start, posted)->Ok_0 == start,
            Err(e) => started(start, posted) is Err && started(start, posted)->Err_0 == (
            ApprovalEngineError::<Seq<char>>::PostFailed { details: e }),
        },
{
}

/// What a poll is answered, by the status of the task: a task that is not there is
/// not found, one that awaits a decision is not ready, one that was rejected is
/// answered with who rejected it, one that failed with its reason, one that was
/// cancelled so, one that completed with its result, and one that expired with its
/// time limit, unless it is to be approved then.
pub proof fn law_polls_are_answered_by_status(
    tasks: Tasks,
    running: Set<Seq<char>>,
    config: ApprovalEngineConfig,
    id: Seq<char>,
    now: Timestamp,
)
    ensures
        ({
            let task = tasks[id].task;
            let step = execution_step(tasks, running, config, id, now);
            let answer = step->Answer_0;
            &&& !tasks.contains_key(id) ==> step is Answer && answer == Err::<
                ToolCallResult<JsonView>,
                ThoughtGateError<Seq<char>>,
            >(ThoughtGateError::TaskNotFound { task_id: id })
            &&& tasks.contains_key(id) ==> {
                &&& task.status is Working || task.status is InputRequired ==> step is Answer
                    && answer is Err && answer->Err_0 == (ThoughtGateError::<
                    Seq<char>,
                >::TaskResultNotReady { task_id: id })
                &&& task.status is Rejected ==> {
                    &&& step is Answer && answer is Err && answer->Err_0 is ApprovalRejected
                    &&& answer->Err_0->ApprovalRejected_tool == task.original_request.name
                    &&& task.approval is Some ==> answer->Err_0->rejected_by == Some(
                        task.approval->0.decided_by,
                    )
                    &&& task.approval is None ==> answer->Err_0->rejected_by is None
                }
                &&& task.status is Failed ==> {
                    &&& step is Answer && answer is Err && answer->Err_0 is ServiceUnavailable
                    &&& task.failure is Some ==> answer->Err_0->reason == task.failure->0.reason
                }
                &&& task.status is Cancelled ==> step is Answer && answer is Err && answer->Err_0
                    == (ThoughtGateError::<Seq<char>>::TaskCancelled { task_id: id })
                &&& task.status is Completed && task.result is Some ==> step is Answer && answer
                    is Ok && answer->Ok_0 == task.result->0
                &&& task.status is Completed && task.result is None ==> step is Answer && answer
                    is Err && answer->Err_0 is ServiceUnavailable
                &&& task.status is Expired && task.on_timeout is Deny ==> {
                    &&& step is Answer && answer is Err && answer->Err_0 is ApprovalTimeout
                    &&& answer->Err_0->ApprovalTimeout_tool == task.original_request.name
                    &&& answer->Err_0->ApprovalTimeout_timeout_secs == task.ttl.secs()
                }
                &&& (task.status is Executing || task.status is Expired) && running.contains(id)
                    ==> step is Answer
            }
        }),
{
}

/// The call that is handed out for execution is the one that was approved: the task
/// is as it is in the store, on the approval that is on record; or, if it timed out
/// and is to be approved then, all but its status is, on an approval by the system
/// that says so and holds for the time that an execution may take.
pub proof fn law_the_approved_call_is_handed_out(
    tasks: Tasks,
    running: Set<Seq<char>>,
    config: ApprovalEngineConfig,
    id: Seq<char>,
    now: Timestamp,
)
    ensures
        ({
            let task = tasks[id].task;
            let step = execution_step(tasks, running, config, id, now);
            let e = step->Execute_0;
            &&& tasks.contains_key(id) && !running.contains(id) && task.status is Executing
                && task.approval is Some ==> step is Execute && !e.late && e.task == task
                && e.approval == task.approval->0
            &&& tasks.contains_key(id) && !running.contains(id) && task.status is Expired
                && task.on_timeout is Approve && task.result is None && task.failure is None ==> {
                &&& step is Execute && e.late
                &&& e.task.id == task.id
                &&& e.task.original_request == task.original_request
                &&& e.task.pre_approval_transformed == task.pre_approval_transformed
                &&& e.task.request_hash == task.request_hash
                &&& e.task.principal == task.principal
                &&& e.task.status is Executing
                &&& e.approval.decision is Approved
                &&& e.approval.decided_by == "system:auto-approve"@
                &&& e.approval.decided_at == now
                &&& config.execution_timeout.nanos <= MAX_TTL_MILLIS * 1_000_000 && now.nanos
                    + config.execution_timeout.nanos <= i128::MAX
                    ==> e.approval.approval_valid_until.nanos == now.nanos
                    + config.execution_timeout.nanos
            }
        }),
{
}

/// What an execution is answered: a call that succeeded with exactly its result; a
/// call that failed with the error that belongs to the stage at which it failed; a
/// call that took too long so. A call that was executed after expiry and failed is
/// answered that the service is not available, with the reason.
pub proof fn law_outcome_is_answered(
    execution: ExecutionView,
    result: ToolCallResult<JsonView>,
    stage: FailureStage,
    reason: Seq<char>,
    retriable: bool,
    config: ApprovalEngineConfig,
)
    ensures
        ({
            let good = execution_answer(
                execution,
                Some(PipelineResult::Success { result }),
                config,
            );
            let bad = execution_answer(
                execution,
                Some(PipelineResult::Failure { stage, reason, retriable }),
                config,
            );
            let slow = execution_answer(execution, None, config);
            &&& good is Ok && good->Ok_0 == result
            &&& bad is Err
            &&& slow is Err
            &&& execution.late ==> {
                &&& bad->Err_0 == (ThoughtGateError::<Seq<char>>::ServiceUnavailable {
                    reason: "Auto-approved task execution failed: "@ + reason,
                })
                &&& slow->Err_0 is ServiceUnavailable
            }
            &&& !execution.late ==> {
                let tool = execution.task.original_request.name;
                &&& stage is PolicyDrift ==> bad->Err_0 == (ThoughtGateError::<
                    Seq<char>,
                >::PolicyDrift { tool, task_id: execution.task.id })
                &&& stage is TransformDrift ==> bad->Err_0 == (ThoughtGateError::<
                    Seq<char>,
                >::TransformDrift { tool, task_id: execution.task.id })
                &&& stage is ApprovalTimeout ==> bad->Err_0 is ApprovalTimeout
                    && bad->Err_0->ApprovalTimeout_tool == tool
                    && bad->Err_0->ApprovalTimeout_timeout_secs == config.approval_timeout.secs()
                &&& stage is ApprovalRejected ==> bad->Err_0 is ApprovalRejected
                    && bad->Err_0->ApprovalRejected_tool == tool
                &&& stage is UpstreamError ==> if has_part(reason, "timeout"@) || has_part(
                    reason,
                    "timed out"@,
                ) {
                    bad->Err_0 is UpstreamTimeout && bad->Err_0->UpstreamTimeout_timeout_secs
                        == config.execution_timeout.secs()
                } else {
                    bad->Err_0 == (ThoughtGateError::<Seq<char>>::UpstreamError {
                        code: -32002i32,
                        message: reason,
                    })
                }
                &&& stage is PreHitlInspection || stage is PostHitlInspection || stage
                    is ServiceShutdown || stage is InvalidTaskState ==> bad->Err_0 == (
                ThoughtGateError::<Seq<char>>::ServiceUnavailable { reason })
            }
        }),
{
}

/// The outcome of an execution is what is recorded on its task: the result of a
/// call that succeeded, and the stage, the reason and whether it can be tried again
/// of one that failed. Nothing else of the task changes but its status, its trail
/// and its poll interval, and the approval that a call was executed on after
/// expiry.
pub proof fn law_outcome_is_recorded(
    tasks: Tasks,
    execution: ExecutionView,
    outcome: Option<PipelineView>,
    config: ApprovalEngineConfig,
    now: Timestamp,
)
    requires
        awaits_outcome(tasks, execution),
    ensures
        ({
            let before = tasks[execution.task.id].task;
            let after = tasks_after_execution(tasks, execution, outcome, config, now);
            let task = after[execution.task.id].task;
            &&& after.contains_key(execution.task.id)
            &&& task.id == before.id
            &&& task.original_request == before.original_request
            &&& task.pre_approval_transformed == before.pre_approval_transformed
            &&& task.request_hash == before.request_hash
            &&& task.principal == before.principal
            &&& task.created_at == before.created_at && task.expires_at == before.expires_at
            &&& task.ttl == before.ttl && task.on_timeout == before.on_timeout
            &&& before.transitions.is_prefix_of(task.transitions)
            &&& task.transitions.len() == before.transitions.len() + 1
            &&& task.transitions.last().at == now
            &&& execution.late ==> task.status is Expired
            &&& !execution.late ==> task.approval == before.approval
                && after[execution.task.id].terminal_at == Some(now)
            &&& match outcome {
                Some(PipelineResult::Success { result }) => {
                    &&& task.result == Some(result)
                    &&& task.failure == before.failure
                    &&& !execution.late ==> task.status is Completed
                    &&& execution.late ==> task.approval == Some(execution.approval)
                },
                Some(PipelineResult::Failure { stage, reason, retriable }) => {
                    &&& task.result == before.result
                    &&& task.failure is Some
                    &&& task.failure->0.stage == stage
                    &&& task.failure->0.retriable == retriable
                    &&& !execution.late ==> task.status is Failed && task.failure->0.reason
                        == reason
                    &&& execution.late ==> task.failure->0.reason
                        == "Auto-approved task execution failed: "@ + reason
                },
                None => {
                    &&& task.result == before.result
                    &&& task.failure is Some
                    &&& task.failure->0.stage is UpstreamError
                    &&& task.failure->0.retriable
                    &&& !execution.late ==> task.status is Failed
                },
            }
        }),
{
    let before = tasks[execution.task.id].task;
    let after = tasks_after_execution(tasks, execution, outcome, config, now);
    let task = after[execution.task.id].task;
    assert(task.transitions == before.transitions.push(task.transitions.last()));
}

/// An approval that times out is approved exactly if the variable says `approve`,
/// in whatever case; otherwise it is denied.
pub proof fn law_timeouts_deny_unless_told_to_approve(text: Option<Seq<char>>)
    ensures
        timeout_action(text) is Approve <==> text is Some && lower_case(text->0) == "approve"@,
        timeout_action(text) is Deny <==> !(timeout_action(text) is Approve),
{
}

/// An approval that is opened adds one task, which awaits a decision from then on and
/// is about the work that was asked for; no other task changes.
pub proof fn law_opened_task_awaits_a_decision(
    tasks: Tasks,
    task: TaskView,
    now: Timestamp,
    other: Seq<char>,
)
    ensures
        ({
            let after = tasks_after_open(tasks, task, now);
            &&& after.contains_key(task.id)
            &&& same_work(task, after[task.id].task)
            &&& after[task.id].task.status is InputRequired
            &&& after[task.id].task.approval == task.approval
            &&& after[task.id].terminal_at is None
            &&& other != task.id ==> after.contains_key(other) == tasks.contains_key(other)
                && after[other] == tasks[other]
        }),
{
}

} // verus!
