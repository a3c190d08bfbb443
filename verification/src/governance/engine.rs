//! The approval engine: it opens approvals, decides what a poll for a result is
//! answered, and sees to it that an approved call is executed once at a time.
//!
//! What the engine needs from outside (inspection before the approval, posting
//! the approval request, execution upstream) is done between its steps, and the
//! outcome is handed to the next step.

use std::sync::Arc;
use vstd::prelude::*;
use vstd::string::*;

use crate::config::schema::TimeoutAction;
use crate::error::ThoughtGateError;
use crate::governance::approval::types::{
    read_secs_or, secs_or, ApprovalRequest, ApprovalRequestView,
};
use crate::governance::executing::{add_id, drop_id, ids_in, new_id_set};
use crate::governance::task::error::TaskError;
use crate::governance::task::life::{new_task, stepped, MAX_TTL_MILLIS};
use crate::governance::task::maps::TaskEntry;
use crate::governance::task::status::TaskStatus;
use crate::governance::task::store::{
    clamped_ttl, completed, create_error, ran_late, ready_for, tasks_after_fail, trails_consistent,
    valid_until, with_late_failure, with_late_result, TaskStore, TaskStoreConfig, Tasks,
};
use crate::governance::task::types::{
    trail, ApprovalDecision, ApprovalRecord, ApprovalView, FailureInfo, FailureStage, Principal,
    PrincipalView, RequestView, Task, TaskId, TaskView, ToolCallRequest, ToolCallResult,
};
use crate::json::{lemma_member_views, member_views, Json, JsonView};
use crate::text::{
    contains_part, decimal, has_part, lower_case, numeral, opt_text, same_text, texts,
};
use crate::time::{Duration, Timestamp, NANOS_PER_MILLI};

verus! {

/// Configuration of the approval engine.
#[derive(Debug, Clone, Copy, PartialEq, Eq, Structural)]
pub struct ApprovalEngineConfig {
    /// Time limit of an approval.
    pub approval_timeout: Duration,
    /// What to do when an approval times out.
    pub on_timeout: TimeoutAction,
    /// Time limit of an execution upstream.
    pub execution_timeout: Duration,
}

impl Default for ApprovalEngineConfig {
    fn default() -> (r: Self)
        ensures
            r == (ApprovalEngineConfig {
                approval_timeout: Duration::of_secs(600),
                on_timeout: TimeoutAction::Deny,
                execution_timeout: Duration::of_secs(30),
            }),
    {
        ApprovalEngineConfig {
            approval_timeout: Duration::from_secs(600),
            on_timeout: TimeoutAction::Deny,
            execution_timeout: Duration::from_secs(30),
        }
    }
}

/// The view of an optional string slice.
pub open spec fn opt_slice(s: Option<&str>) -> Option<Seq<char>> {
    match s {
        Some(t) => Some(t@),
        None => None,
    }
}

/// The action that a text stands for: `approve` in any case, else denial.
pub open spec fn timeout_action(text: Option<Seq<char>>) -> TimeoutAction {
    match text {
        Some(t) => if lower_case(t) == "approve"@ {
            TimeoutAction::Approve
        } else {
            TimeoutAction::Deny
        },
        None => TimeoutAction::Deny,
    }
}

/// What a lower-case text means as the action on a timeout.
pub fn timeout_action_named(lower: &str) -> (r: TimeoutAction)
    ensures
        r == if lower@ == "approve"@ {
            TimeoutAction::Approve
        } else {
            TimeoutAction::Deny
        },
{
    if same_text(lower, "approve") {
        TimeoutAction::Approve
    } else {
        TimeoutAction::Deny
    }
}

impl ApprovalEngineConfig {
    /// The configuration for values given as texts, as environment variables
    /// give them: `THOUGHTGATE_APPROVAL_TIMEOUT_SECS`, `THOUGHTGATE_ON_TIMEOUT`
    /// and `THOUGHTGATE_EXECUTION_TIMEOUT_SECS`.
    pub fn from_env(
        approval_timeout: Option<&str>,
        on_timeout: Option<&str>,
        execution_timeout: Option<&str>,
    ) -> (r: Self)
        ensures
            r == (ApprovalEngineConfig {
                approval_timeout: secs_or(opt_slice(approval_timeout), 600),
                on_timeout: timeout_action(opt_slice(on_timeout)),
                execution_timeout: secs_or(opt_slice(execution_timeout), 30),
            }),
    {
        ApprovalEngineConfig {
            approval_timeout: read_secs_or(approval_timeout, 600),
            on_timeout: match on_timeout {
                Some(t) => timeout_action_named(t.to_lowercase().as_str()),
                None => TimeoutAction::Deny,
            },
            execution_timeout: read_secs_or(execution_timeout, 30),
        }
    }
}

/// Errors of the approval engine. `T` holds a text.
#[derive(Debug, Clone)]
pub enum ApprovalEngineError<T = String> {
    /// The task could not be created.
    TaskCreation { details: T },
    /// The approval request could not be posted.
    PostFailed { details: T },
    /// There is no such task.
    TaskNotFound { task_id: T },
    /// The task is in an unexpected state.
    InvalidState { task_id: T, status: TaskStatus },
    /// Internal error.
    Internal { details: T },
}

impl ApprovalEngineError {
    /// The error with its strings taken as character sequences.
    pub open spec fn view(self) -> ApprovalEngineError<Seq<char>> {
        match self {
            ApprovalEngineError::TaskCreation { details } => ApprovalEngineError::TaskCreation {
                details: details@,
            },
            ApprovalEngineError::PostFailed { details } => ApprovalEngineError::PostFailed {
                details: details@,
            },
            ApprovalEngineError::TaskNotFound { task_id } => ApprovalEngineError::TaskNotFound {
                task_id: task_id@,
            },
            ApprovalEngineError::InvalidState {
                task_id,
                status,
            } => ApprovalEngineError::InvalidState { task_id: task_id@, status },
            ApprovalEngineError::Internal { details } => ApprovalEngineError::Internal {
                details: details@,
            },
        }
    }

    /// The text that tells a person what is wrong.
    pub fn message(&self) -> (r: String)
        ensures
            r@ == self@.text(),
    {
        match self {
            ApprovalEngineError::TaskCreation {
                details,
            } => "Task creation failed: ".to_owned().concat(details.as_str()),
            ApprovalEngineError::PostFailed { details } => "Approval post failed: ".to_owned().concat(
                details.as_str(),
            ),
            ApprovalEngineError::TaskNotFound { task_id } => "Task not found: ".to_owned().concat(
                task_id.as_str(),
            ),
            ApprovalEngineError::InvalidState { task_id, status } => "Task ".to_owned().concat(
                task_id.as_str(),
            ).concat(" in invalid state: ").concat(status.to_text().as_str()),
            ApprovalEngineError::Internal { details } => "Internal error: ".to_owned().concat(
                details.as_str(),
            ),
        }
    }

    /// The engine's error for a task operation that failed.
    pub fn from_task_error(err: TaskError) -> (r: Self)
        ensures
            r@ == engine_error(err@),
    {
        let details = err.message();
        match err {
            TaskError::NotFound { task_id } => ApprovalEngineError::TaskNotFound { task_id },
            TaskError::InvalidTransition { task_id, from, to } => {
                ApprovalEngineError::InvalidState { task_id, status: from }
            },
            _ => ApprovalEngineError::Internal { details },
        }
    }
}

impl ApprovalEngineError<Seq<char>> {
    /// The text that tells a person what is wrong.
    pub open spec fn text(self) -> Seq<char> {
        match self {
            ApprovalEngineError::TaskCreation { details } => "Task creation failed: "@ + details,
            ApprovalEngineError::PostFailed { details } => "Approval post failed: "@ + details,
            ApprovalEngineError::TaskNotFound { task_id } => "Task not found: "@ + task_id,
            ApprovalEngineError::InvalidState { task_id, status } => {
                "Task "@ + task_id + " in invalid state: "@ + status.name()
            },
            ApprovalEngineError::Internal { details } => "Internal error: "@ + details,
        }
    }
}

/// The engine's error for a task operation that failed.
pub open spec fn engine_error(err: TaskError<Seq<char>>) -> ApprovalEngineError<Seq<char>> {
    match err {
        TaskError::NotFound { task_id } => ApprovalEngineError::TaskNotFound { task_id },
        TaskError::InvalidTransition { task_id, from, to } => ApprovalEngineError::InvalidState {
            task_id,
            status: from,
        },
        _ => ApprovalEngineError::Internal { details: err.text() },
    }
}

/// Result of starting an approval. `T` holds a text.
#[derive(Debug, Clone)]
pub struct ApprovalStartResult<T = String> {
    /// The task that was created.
    pub task_id: T,
    /// Its status.
    pub status: TaskStatus,
    /// Poll interval that the client is advised to keep.
    pub poll_interval: Duration,
}

impl ApprovalStartResult {
    /// The result with its string taken as a character sequence.
    pub open spec fn view(self) -> ApprovalStartResult<Seq<char>> {
        ApprovalStartResult {
            task_id: self.task_id@,
            status: self.status,
            poll_interval: self.poll_interval,
        }
    }
}

/// The tasks after a new one has been opened, which awaits a decision.
pub open spec fn tasks_after_open(tasks: Tasks, task: TaskView, now: Timestamp) -> Tasks {
    tasks.insert(
        task.id,
        TaskEntry {
            task: stepped(task, TaskStatus::InputRequired, None, now),
            terminal_at: None,
        },
    )
}

/// Creates a task and lets it await a decision; the task is returned as it was
/// created.
pub(crate) fn open_task(
    store: &mut TaskStore,
    task_id: TaskId,
    call: ToolCallRequest,
    transformed: ToolCallRequest,
    principal: Principal,
    ttl: Duration,
    on_timeout: TimeoutAction,
    now: Timestamp,
) -> (r: Result<Arc<Task>, TaskError>)
    requires
        old(store).wf(),
        ready_for(old(store)@, old(store).settings(), principal@.key(), task_id@),
    ensures
        final(store).wf(),
        final(store).settings() == old(store).settings(),
        trails_consistent(old(store)@) ==> trails_consistent(final(store)@),
        match r {
            Ok(t) => {
                let task = new_task(
                    task_id@,
                    call@,
                    transformed@,
                    principal@,
                    clamped_ttl(Some(ttl), old(store).settings()),
                    on_timeout,
                    now,
                );
                let key = principal@.key();
                &&& create_error(
                    old(store)@,
                    old(store).settings(),
                    key,
                    transformed@.arguments,
                ) is None
                &&& (*t)@ == task
                &&& final(store)@ == tasks_after_open(old(store)@, task, now)
                &&& final(store).index(key) == old(store).index(key).push(task_id@)
                &&& forall|k: Seq<char>|
                    k != key ==> #[trigger] final(store).index(k) == old(store).index(k)
            },
            Err(e) => {
                &&& create_error(
                    old(store)@,
                    old(store).settings(),
                    principal@.key(),
                    transformed@.arguments,
                ) == Some(e@)
                &&& *final(store) == *old(store)
            },
        },
{
    let id = task_id.clone();
    let ghost before = store@;
    let task = match store.create(
        task_id,
        call,
        transformed,
        principal,
        Some(ttl),
        on_timeout,
        now,
    ) {
        Ok(task) => task,
        Err(e) => {
            return Err(e);
        },
    };
    match store.transition(&id, TaskStatus::InputRequired, None, now) {
        Ok(_) => {
            assert(store@ =~= tasks_after_open(before, (*task)@, now));
            Ok(task)
        },
        Err(e) => Err(e),
    }
}

/// What inspection before the approval gave: the call as transformed, or what
/// went wrong.
pub open spec fn inspected_view(r: Result<ToolCallRequest, String>) -> Result<
    RequestView,
    Seq<char>,
> {
    match r {
        Ok(call) => Ok(call@),
        Err(e) => Err(e@),
    }
}

/// Why an approval cannot be started: the inspection failed, or the task cannot
/// be created.
pub open spec fn start_error(
    tasks: Tasks,
    settings: TaskStoreConfig,
    key: Seq<char>,
    inspected: Result<RequestView, Seq<char>>,
) -> Option<ApprovalEngineError<Seq<char>>> {
    match inspected {
        Err(e) => Some(
            ApprovalEngineError::Internal { details: "Pre-approval phase failed: "@ + e },
        ),
        Ok(call) => match create_error(tasks, settings, key, call.arguments) {
            Some(e) => Some(ApprovalEngineError::TaskCreation { details: e.text() }),
            None => None,
        },
    }
}

/// The task of an approval that is started. The workflow's time limit and timeout
/// action take precedence over the engine's.
pub open spec fn started_task(
    config: ApprovalEngineConfig,
    limits: TaskStoreConfig,
    id: Seq<char>,
    call: RequestView,
    transformed: RequestView,
    principal: PrincipalView,
    workflow_timeout: Option<Duration>,
    on_timeout_override: Option<TimeoutAction>,
    now: Timestamp,
) -> TaskView {
    let timeout = match workflow_timeout {
        Some(t) => t,
        None => config.approval_timeout,
    };
    let on_timeout = match on_timeout_override {
        Some(a) => a,
        None => config.on_timeout,
    };
    new_task(
        id,
        call,
        transformed,
        principal,
        clamped_ttl(Some(timeout), limits),
        on_timeout,
        now,
    )
}

/// What is posted to ask for the approval of a task.
pub open spec fn approval_post(
    task: TaskView,
    redact_fields: Seq<Seq<char>>,
    correlation_id: Seq<char>,
) -> ApprovalRequestView {
    ApprovalRequest {
        task_id: task.id,
        tool_name: task.original_request.name,
        tool_arguments: task.original_request.arguments,
        principal: task.principal,
        expires_at: task.expires_at,
        created_at: task.created_at,
        correlation_id,
        redact_fields,
    }
}

/// The engine's answer once the approval request has been posted.
pub open spec fn started(
    start: ApprovalStartResult<Seq<char>>,
    posted: Result<(), Seq<char>>,
) -> Result<ApprovalStartResult<Seq<char>>, ApprovalEngineError<Seq<char>>> {
    match posted {
        Ok(_) => Ok(start),
        Err(e) => Err(ApprovalEngineError::PostFailed { details: e }),
    }
}

/// The view of the outcome of a post.
pub open spec fn posted_view(r: Result<(), String>) -> Result<(), Seq<char>> {
    match r {
        Ok(_) => Ok(()),
        Err(e) => Err(e@),
    }
}

/// The view of what the engine answers to a request for an approval.
pub open spec fn start_view(r: Result<ApprovalStartResult, ApprovalEngineError>) -> Result<
    ApprovalStartResult<Seq<char>>,
    ApprovalEngineError<Seq<char>>,
> {
    match r {
        Ok(s) => Ok(s@),
        Err(e) => Err(e@),
    }
}

/// Ends the start of an approval: the request has been posted, or could not be.
pub fn finish_start(start: ApprovalStartResult, posted: Result<(), String>) -> (r: Result<
    ApprovalStartResult,
    ApprovalEngineError,
>)
    ensures
        start_view(r) == started(start@, posted_view(posted)),
{
    match posted {
        Ok(_) => Ok(start),
        Err(e) => Err(ApprovalEngineError::PostFailed { details: e }),
    }
}

/// The approval engine.
pub struct ApprovalEngine {
    config: ApprovalEngineConfig,
    executing: dashmap::DashSet<String>,
}

impl ApprovalEngine {
    /// The configuration.
    pub closed spec fn settings(self) -> ApprovalEngineConfig {
        self.config
    }

    /// The IDs of the tasks that are being executed.
    pub closed spec fn running(self) -> Set<Seq<char>> {
        ids_in(self.executing)
    }

    /// Creates an approval engine.
    pub fn new(config: ApprovalEngineConfig) -> (r: Self)
        ensures
            r.settings() == config,
            r.running() == Set::<Seq<char>>::empty(),
    {
        ApprovalEngine { config, executing: new_id_set() }
    }

    /// Returns the configuration.
    pub fn config(&self) -> (r: &ApprovalEngineConfig)
        ensures
            *r == self.settings(),
    {
        &self.config
    }

    /// Starts an approval: creates a task that awaits a decision, and makes the
    /// request to post. The workflow's time limit and timeout action take
    /// precedence over the engine's.
    pub fn start_approval(
        &self,
        store: &mut TaskStore,
        request: ToolCallRequest,
        inspected: Result<ToolCallRequest, String>,
        principal: Principal,
        workflow_timeout: Option<Duration>,
        on_timeout_override: Option<TimeoutAction>,
        redact_fields: Vec<String>,
        task_id: TaskId,
        correlation_id: String,
        now: Timestamp,
    ) -> (r: Result<(ApprovalRequest, ApprovalStartResult), ApprovalEngineError>)
        requires
            old(store).wf(),
            inspected is Ok ==> ready_for(
                old(store)@,
                old(store).settings(),
                principal@.key(),
                task_id@,
            ),
        ensures
            final(store).wf(),
            final(store).settings() == old(store).settings(),
            trails_consistent(old(store)@) ==> trails_consistent(final(store)@),
            match r {
                Ok((post, start)) => {
                    let task = started_task(
                        self.settings(),
                        old(store).settings(),
                        task_id@,
                        request@,
                        inspected_view(inspected)->Ok_0,
                        principal@,
                        workflow_timeout,
                        on_timeout_override,
                        now,
                    );
                    let key = principal@.key();
                    &&& start_error(
                        old(store)@,
                        old(store).settings(),
                        key,
                        inspected_view(inspected),
                    ) is None
                    &&& post@ == approval_post(task, texts(redact_fields@), correlation_id@)
                    &&& post.task_id@ == task_id@
                    &&& post.tool_name@ == request.name@
                    &&& post.tool_arguments@ == request.arguments@
                    &&& post.principal@ == principal@
                    &&& post.created_at == now
                    &&& post.correlation_id@ == correlation_id@
                    &&& post.redact_fields@ == redact_fields@
                    &&& start@ == (ApprovalStartResult::<Seq<char>> {
                        task_id: task_id@,
                        status: TaskStatus::InputRequired,
                        poll_interval: task.poll_interval,
                    })
                    &&& final(store)@ == tasks_after_open(old(store)@, task, now)
                    &&& final(store).index(key) == old(store).index(key).push(task_id@)
                    &&& forall|k: Seq<char>|
                        k != key ==> #[trigger] final(store).index(k) == old(store).index(k)
                },
                Err(e) => {
                    &&& start_error(
                        old(store)@,
                        old(store).settings(),
                        principal@.key(),
                        inspected_view(inspected),
                    ) == Some(e@)
                    &&& *final(store) == *old(store)
                },
            },
    {
        let transformed = match inspected {
            Ok(call) => call,
            Err(e) => {
                return Err(
                    ApprovalEngineError::Internal {
                        details: "Pre-approval phase failed: ".to_owned().concat(e.as_str()),
                    },
                );
            },
        };
        let timeout = match workflow_timeout {
            Some(t) => t,
            None => self.config.approval_timeout,
        };
        let on_timeout = match on_timeout_override {
            Some(a) => a,
            None => self.config.on_timeout,
        };
        let task = match open_task(
            store,
            task_id,
            request,
            transformed,
            principal,
            timeout,
            on_timeout,
            now,
        ) {
            Ok(task) => task,
            Err(e) => {
                return Err(ApprovalEngineError::TaskCreation { details: e.message() });
            },
        };
        let post = ApprovalRequest {
            task_id: task.id.clone(),
            tool_name: task.original_request.name.clone(),
            tool_arguments: task.original_request.arguments.copy(),
            principal: task.principal.copy(),
            expires_at: task.expires_at,
            created_at: task.created_at,
            correlation_id,
            redact_fields,
        };
        let start = ApprovalStartResult {
            task_id: task.id.clone(),
            status: TaskStatus::InputRequired,
            poll_interval: task.poll_interval,
        };
        Ok((post, start))
    }
}

/// Outcome of an execution upstream. `T` holds a text and `J` a JSON value.
#[derive(Debug)]
pub enum PipelineResult<T = String, J = Json> {
    /// The call was executed.
    Success { result: ToolCallResult<J> },
    /// The call was not executed, or failed.
    Failure {
        /// Stage at which the failure occurred.
        stage: FailureStage,
        /// Reason for people.
        reason: T,
        /// Whether the operation can be tried again.
        retriable: bool,
    },
}

/// An outcome with its strings taken as character sequences.
pub type PipelineView = PipelineResult<Seq<char>, JsonView>;

impl PipelineResult {
    /// The outcome with its strings taken as character sequences.
    pub open spec fn view(self) -> PipelineView {
        match self {
            PipelineResult::Success { result } => PipelineResult::Success { result: result@ },
            PipelineResult::Failure { stage, reason, retriable } => PipelineResult::Failure {
                stage,
                reason: reason@,
                retriable,
            },
        }
    }
}

/// The view of an outcome that may be missing because time ran out.
pub open spec fn outcome_view(r: Option<PipelineResult>) -> Option<PipelineView> {
    match r {
        Some(p) => Some(p@),
        None => None,
    }
}

/// An execution that has been handed out. `X` holds the task and `A` the
/// approval.
#[derive(Debug)]
pub struct Execution<X = Task, A = ApprovalRecord> {
    /// The task.
    pub task: X,
    /// The approval on which it is executed.
    pub approval: A,
    /// Whether the task had expired and was approved by its timeout action.
    pub late: bool,
}

/// An execution with its strings taken as character sequences.
pub type ExecutionView = Execution<TaskView, ApprovalView>;

impl Execution {
    /// The execution with its strings taken as character sequences.
    pub open spec fn view(self) -> ExecutionView {
        Execution { task: self.task@, approval: self.approval@, late: self.late }
    }
}

/// What a client is answered: the result of the call, or an error.
pub type Answer = Result<ToolCallResult<JsonView>, ThoughtGateError<Seq<char>>>;

/// The view of what a client is answered.
pub open spec fn answer_view(r: Result<ToolCallResult, ThoughtGateError>) -> Answer {
    match r {
        Ok(t) => Ok(t@),
        Err(e) => Err(e@),
    }
}

/// What a poll for a result leads to.
#[derive(Debug)]
pub enum ExecutionStep {
    /// The client is answered.
    Answer(Result<ToolCallResult, ThoughtGateError>),
    /// The call is to be executed.
    Execute(Execution),
}

/// What a poll for a result leads to.
pub enum ExecutionStepView {
    /// The client is answered.
    Answer(Answer),
    /// The call is to be executed.
    Execute(ExecutionView),
}

impl ExecutionStep {
    /// The step with its strings taken as character sequences.
    pub open spec fn view(self) -> ExecutionStepView {
        match self {
            ExecutionStep::Answer(r) => ExecutionStepView::Answer(answer_view(r)),
            ExecutionStep::Execute(e) => ExecutionStepView::Execute(e@),
        }
    }
}

/// The answer that the service is not available.
pub open spec fn unavailable(reason: Seq<char>) -> Answer {
    Err(ThoughtGateError::ServiceUnavailable { reason })
}

/// Who decided on a task.
pub open spec fn decider(task: TaskView) -> Option<Seq<char>> {
    match task.approval {
        Some(a) => Some(a.decided_by),
        None => None,
    }
}

/// The answer on a task that was rejected.
pub open spec fn rejection(task: TaskView) -> Answer {
    Err(
        ThoughtGateError::ApprovalRejected {
            tool: task.original_request.name,
            rejected_by: decider(task),
            workflow: None,
        },
    )
}

/// The approval that is made up for a task that timed out and is to be approved
/// then.
pub open spec fn automatic_approval(now: Timestamp, valid_for: Duration) -> ApprovalView {
    ApprovalRecord {
        decision: ApprovalDecision::Approved,
        decided_by: "system:auto-approve"@,
        decided_at: now,
        approval_valid_until: valid_until(now, valid_for),
        metadata: Some(
            JsonView::Object(
                seq![
                    ("auto_approve"@, JsonView::Bool(true)),
                    ("reason"@, JsonView::String("timeout with on_timeout: approve"@)),
                ],
            ),
        ),
    }
}

/// The answer on an expired task whose call has been executed after all: its
/// result, or why the execution failed.
pub open spec fn late_answer(task: TaskView) -> Option<Answer> {
    match (task.result, task.failure) {
        (Some(result), _) => Some(Ok(result)),
        (None, Some(failure)) => if ran_late(task) {
            Some(unavailable(failure.reason))
        } else {
            None
        },
        (None, None) => None,
    }
}

/// What a poll for the result of a task leads to.
pub open spec fn execution_step(
    tasks: Tasks,
    running: Set<Seq<char>>,
    config: ApprovalEngineConfig,
    id: Seq<char>,
    now: Timestamp,
) -> ExecutionStepView {
    if !tasks.contains_key(id) {
        ExecutionStepView::Answer(Err(ThoughtGateError::TaskNotFound { task_id: id }))
    } else {
        let task = tasks[id].task;
        match task.status {
            TaskStatus::Working | TaskStatus::InputRequired => ExecutionStepView::Answer(
                Err(ThoughtGateError::TaskResultNotReady { task_id: id }),
            ),
            TaskStatus::Rejected => ExecutionStepView::Answer(rejection(task)),
            TaskStatus::Failed => ExecutionStepView::Answer(
                unavailable(
                    match task.failure {
                        Some(f) => f.reason,
                        None => "Task failed"@,
                    },
                ),
            ),
            TaskStatus::Cancelled => ExecutionStepView::Answer(
                Err(ThoughtGateError::TaskCancelled { task_id: id }),
            ),
            TaskStatus::Completed => ExecutionStepView::Answer(
                match task.result {
                    Some(r) => Ok(r),
                    None => unavailable("Task completed but no result available"@),
                },
            ),
            TaskStatus::Executing => if running.contains(id) {
                ExecutionStepView::Answer(unavailable("Task execution already in progress"@))
            } else {
                match task.approval {
                    Some(approval) => ExecutionStepView::Execute(
                        Execution { task, approval, late: false },
                    ),
                    None => ExecutionStepView::Answer(
                        unavailable("Task approved but no approval record"@),
                    ),
                }
            },
            TaskStatus::Expired => if task.on_timeout is Deny {
                ExecutionStepView::Answer(
                    Err(
                        ThoughtGateError::ApprovalTimeout {
                            tool: task.original_request.name,
                            timeout_secs: task.ttl.secs(),
                            workflow: None,
                        },
                    ),
                )
            } else if late_answer(task) is Some {
                ExecutionStepView::Answer(late_answer(task)->0)
            } else if running.contains(id) {
                ExecutionStepView::Answer(unavailable("Task execution already in progress"@))
            } else {
                ExecutionStepView::Execute(
                    Execution {
                        task: Task { status: TaskStatus::Executing, ..task },
                        approval: automatic_approval(now, config.execution_timeout),
                        late: true,
                    },
                )
            },
        }
    }
}

/// Makes up the approval for a task that timed out.
fn make_automatic_approval(now: Timestamp, valid_for: Duration) -> (r: ApprovalRecord)
    ensures
        r@ == automatic_approval(now, valid_for),
{
    let approval_valid_until = if valid_for.nanos > MAX_TTL_MILLIS as u128 * NANOS_PER_MILLI {
        now
    } else {
        now.plus(valid_for)
    };
    let mut members: Vec<(String, Json)> = Vec::new();
    members.push(("auto_approve".to_owned(), Json::Bool(true)));
    members.push(
        ("reason".to_owned(), Json::String("timeout with on_timeout: approve".to_owned())),
    );
    proof {
        lemma_member_views(members@);
        assert(member_views(members@) =~= seq![
            ("auto_approve"@, JsonView::Bool(true)),
            ("reason"@, JsonView::String("timeout with on_timeout: approve"@)),
        ]);
    }
    ApprovalRecord {
        decision: ApprovalDecision::Approved,
        decided_by: "system:auto-approve".to_owned(),
        decided_at: now,
        approval_valid_until,
        metadata: Some(Json::Object(members)),
    }
}

fn answer_unavailable(reason: &str) -> (r: ExecutionStep)
    ensures
        r@ == ExecutionStepView::Answer(unavailable(reason@)),
{
    ExecutionStep::Answer(Err(ThoughtGateError::ServiceUnavailable { reason: reason.to_owned() }))
}

fn decider_of(task: &Task) -> (r: Option<String>)
    ensures
        opt_text(r) == decider(task@),
{
    match &task.approval {
        Some(a) => Some(a.decided_by.clone()),
        None => None,
    }
}

/// The answer on an expired task whose call has been executed after all.
fn answer_late(task: &Task) -> (r: Option<Result<ToolCallResult, ThoughtGateError>>)
    ensures
        match r {
            Some(answer) => late_answer(task@) == Some(answer_view(answer)),
            None => late_answer(task@) is None,
        },
{
    if let Some(result) = &task.result {
        return Some(Ok(result.copy()));
    }
    if let Some(failure) = &task.failure {
        let n: usize = task.transitions.len();
        assert(trail(task.transitions@).len() == n);
        if n > 0 && task.transitions[n - 1].from == TaskStatus::Expired {
            assert(trail(task.transitions@).last() == task.transitions@.last()@);
            return Some(
                Err(ThoughtGateError::ServiceUnavailable { reason: failure.reason.clone() }),
            );
        }
    }
    None
}

impl ApprovalEngine {
    /// Decides what a poll for the result of a task leads to. A call that is to
    /// be executed is marked as running until its outcome is handed in.
    pub fn execute_on_result(&mut self, store: &TaskStore, task_id: &TaskId, now: Timestamp) -> (r:
        ExecutionStep)
        ensures
            r@ == execution_step(
                store@,
                old(self).running(),
                old(self).settings(),
                task_id@,
                now,
            ),
            final(self).settings() == old(self).settings(),
            final(self).running() == if r is Execute {
                old(self).running().insert(task_id@)
            } else {
                old(self).running()
            },
    {
        let task = match store.get(task_id) {
            Ok(task) => task,
            Err(_) => {
                return ExecutionStep::Answer(
                    Err(ThoughtGateError::TaskNotFound { task_id: task_id.clone() }),
                );
            },
        };
        match task.status {
            TaskStatus::Working | TaskStatus::InputRequired => ExecutionStep::Answer(
                Err(ThoughtGateError::TaskResultNotReady { task_id: task_id.clone() }),
            ),
            TaskStatus::Rejected => ExecutionStep::Answer(
                Err(
                    ThoughtGateError::ApprovalRejected {
                        tool: task.original_request.name.clone(),
                        rejected_by: decider_of(&task),
                        workflow: None,
                    },
                ),
            ),
            TaskStatus::Failed => match &task.failure {
                Some(f) => answer_unavailable(f.reason.as_str()),
                None => answer_unavailable("Task failed"),
            },
            TaskStatus::Cancelled => ExecutionStep::Answer(
                Err(ThoughtGateError::TaskCancelled { task_id: task_id.clone() }),
            ),
            TaskStatus::Completed => match &task.result {
                Some(result) => ExecutionStep::Answer(Ok(result.copy())),
                None => answer_unavailable("Task completed but no result available"),
            },
            TaskStatus::Expired => self.handle_expired_task(task_id, &task, now),
            TaskStatus::Executing => {
                let ghost before = self.running();
                if !add_id(&mut self.executing, task_id.clone()) {
                    assert(before.insert(task_id@) =~= before);
                    return answer_unavailable("Task execution already in progress");
                }
                match &task.approval {
                    Some(approval) => ExecutionStep::Execute(
                        Execution {
                            task: task.copy(),
                            approval: approval.copy(),
                            late: false,
                        },
                    ),
                    None => {
                        drop_id(&mut self.executing, task_id);
                        assert(before.insert(task_id@).remove(task_id@) =~= before);
                        answer_unavailable("Task approved but no approval record")
                    },
                }
            },
        }
    }

    /// Decides what a poll for the result of an expired task leads to.
    fn handle_expired_task(&mut self, task_id: &TaskId, task: &Task, now: Timestamp) -> (r:
        ExecutionStep)
        requires
            task@.status is Expired,
        ensures
            forall|tasks: Tasks|
                tasks.contains_key(task_id@) && #[trigger] tasks[task_id@].task == task@
                    ==> r@ == execution_step(
                    tasks,
                    old(self).running(),
                    old(self).settings(),
                    task_id@,
                    now,
                ),
            final(self).settings() == old(self).settings(),
            final(self).running() == if r is Execute {
                old(self).running().insert(task_id@)
            } else {
                old(self).running()
            },
    {
        match task.on_timeout {
            TimeoutAction::Deny => ExecutionStep::Answer(
                Err(
                    ThoughtGateError::ApprovalTimeout {
                        tool: task.original_request.name.clone(),
                        timeout_secs: task.ttl.as_secs(),
                        workflow: None,
                    },
                ),
            ),
            TimeoutAction::Approve => {
                if let Some(answer) = answer_late(task) {
                    return ExecutionStep::Answer(answer);
                }
                let ghost before = self.running();
                if !add_id(&mut self.executing, task_id.clone()) {
                    assert(before.insert(task_id@) =~= before);
                    return answer_unavailable("Task execution already in progress");
                }
                let approval = make_automatic_approval(now, self.config.execution_timeout);
                let mut approved = task.copy();
                approved.status = TaskStatus::Executing;
                ExecutionStep::Execute(Execution { task: approved, approval, late: true })
            },
        }
    }
}

/// The outcome of an execution; one that took too long counts as a failure that
/// can be tried again.
pub open spec fn settled(outcome: Option<PipelineView>, config: ApprovalEngineConfig) -> PipelineView {
    match outcome {
        Some(r) => r,
        None => PipelineResult::Failure {
            stage: FailureStage::UpstreamError,
            reason: "Pipeline execution timed out after "@ + numeral(
                config.execution_timeout.secs() as nat,
            ) + "s"@,
            retriable: true,
        },
    }
}

/// The answer for an execution that failed at a stage.
pub open spec fn failure_answer(
    stage: FailureStage,
    reason: Seq<char>,
    task: TaskView,
    config: ApprovalEngineConfig,
) -> Answer {
    let tool = task.original_request.name;
    match stage {
        FailureStage::ApprovalTimeout => Err(
            ThoughtGateError::ApprovalTimeout {
                tool,
                timeout_secs: config.approval_timeout.secs(),
                workflow: None,
            },
        ),
        FailureStage::ApprovalRejected => rejection(task),
        FailureStage::PolicyDrift => Err(ThoughtGateError::PolicyDrift { tool, task_id: task.id }),
        FailureStage::TransformDrift => Err(
            ThoughtGateError::TransformDrift { tool, task_id: task.id },
        ),
        FailureStage::UpstreamError => if has_part(reason, "timeout"@) || has_part(
            reason,
            "timed out"@,
        ) {
            Err(
                ThoughtGateError::UpstreamTimeout {
                    url: "unknown"@,
                    timeout_secs: config.execution_timeout.secs(),
                },
            )
        } else {
            Err(ThoughtGateError::UpstreamError { code: -32002i32, message: reason })
        },
        _ => unavailable(reason),
    }
}

/// The failure that is recorded of an execution after expiry.
pub open spec fn late_failure(
    outcome: Option<PipelineView>,
    config: ApprovalEngineConfig,
) -> FailureInfo<Seq<char>> {
    match outcome {
        Some(PipelineResult::Failure { stage, reason, retriable }) => FailureInfo {
            stage,
            reason: "Auto-approved task execution failed: "@ + reason,
            retriable,
        },
        _ => FailureInfo {
            stage: FailureStage::UpstreamError,
            reason: "Auto-approved task execution timed out after "@ + numeral(
                config.execution_timeout.secs() as nat,
            ) + "s"@,
            retriable: true,
        },
    }
}

/// The answer for an execution.
pub open spec fn execution_answer(
    execution: ExecutionView,
    outcome: Option<PipelineView>,
    config: ApprovalEngineConfig,
) -> Answer {
    if !execution.late {
        match settled(outcome, config) {
            PipelineResult::Success { result } => Ok(result),
            PipelineResult::Failure { stage, reason, .. } => failure_answer(
                stage,
                reason,
                execution.task,
                config,
            ),
        }
    } else {
        match outcome {
            Some(PipelineResult::Success { result }) => Ok(result),
            _ => unavailable(late_failure(outcome, config).reason),
        }
    }
}

/// The tasks after an execution: one that was approved in time is completed or
/// has failed; on one that had expired the result or the failure is noted.
pub open spec fn tasks_after_execution(
    tasks: Tasks,
    execution: ExecutionView,
    outcome: Option<PipelineView>,
    config: ApprovalEngineConfig,
    now: Timestamp,
) -> Tasks {
    let id = execution.task.id;
    if !execution.late {
        match settled(outcome, config) {
            PipelineResult::Success { result } => if tasks.contains_key(id)
                && tasks[id].task.status is Executing {
                tasks.insert(
                    id,
                    TaskEntry {
                        task: completed(tasks[id].task, result, now),
                        terminal_at: Some(now),
                    },
                )
            } else {
                tasks
            },
            PipelineResult::Failure { stage, reason, retriable } => tasks_after_fail(
                tasks,
                id,
                FailureInfo { stage, reason, retriable },
                now,
            ),
        }
    } else {
        match outcome {
            Some(PipelineResult::Success { result }) => if tasks.contains_key(id) {
                tasks.insert(
                    id,
                    TaskEntry {
                        task: with_late_result(tasks[id].task, result, execution.approval, now),
                        terminal_at: tasks[id].terminal_at,
                    },
                )
            } else {
                tasks
            },
            _ => if tasks.contains_key(id) {
                tasks.insert(
                    id,
                    TaskEntry {
                        task: with_late_failure(tasks[id].task, late_failure(outcome, config), now),
                        terminal_at: tasks[id].terminal_at,
                    },
                )
            } else {
                tasks
            },
        }
    }
}

fn seconds_text(before: &str, d: Duration) -> (r: String)
    ensures
        r@ == before@ + numeral(d.secs() as nat) + "s"@,
{
    before.to_owned().concat(decimal(d.as_secs()).as_str()).concat("s")
}

impl ApprovalEngine {
    /// Gives an execution up that came to no outcome, as when the poll that asked
    /// for it was dropped: the task stays as it is, and a later poll may execute it.
    pub fn abandon_execution(&mut self, execution: Execution)
        ensures
            final(self).settings() == old(self).settings(),
            final(self).running() == old(self).running().remove(execution@.task.id),
    {
        drop_id(&mut self.executing, &execution.task.id);
    }

    /// Takes the outcome of an execution that was handed out (`None` if it took
    /// too long): records it on the task and answers the client. The task is no
    /// longer marked as running.
    pub fn finish_execution(
        &mut self,
        store: &mut TaskStore,
        execution: Execution,
        outcome: Option<PipelineResult>,
        now: Timestamp,
    ) -> (r: Result<ToolCallResult, ThoughtGateError>)
        requires
            old(store).wf(),
        ensures
            answer_view(r) == execution_answer(
                execution@,
                outcome_view(outcome),
                old(self).settings(),
            ),
            final(store).wf(),
            final(store).settings() == old(store).settings(),
            forall|key: Seq<char>| #[trigger] final(store).index(key) == old(store).index(key),
            trails_consistent(old(store)@) && (execution.late && old(store)@.contains_key(
                execution@.task.id,
            ) ==> old(store)@[execution@.task.id].task.status is Expired) ==> trails_consistent(
                final(store)@,
            ),
            final(store)@ == tasks_after_execution(
                old(store)@,
                execution@,
                outcome_view(outcome),
                old(self).settings(),
                now,
            ),
            final(self).settings() == old(self).settings(),
            final(self).running() == old(self).running().remove(execution@.task.id),
    {
        drop_id(&mut self.executing, &execution.task.id);
        if execution.late {
            return self.finish_late(store, execution, outcome, now);
        }
        let result = match outcome {
            Some(result) => result,
            None => PipelineResult::Failure {
                stage: FailureStage::UpstreamError,
                reason: seconds_text(
                    "Pipeline execution timed out after ",
                    self.config.execution_timeout,
                ),
                retriable: true,
            },
        };
        self.handle_pipeline_result(store, result, &execution, now)
    }

    /// Takes the outcome of an execution after expiry.
    fn finish_late(
        &self,
        store: &mut TaskStore,
        execution: Execution,
        outcome: Option<PipelineResult>,
        now: Timestamp,
    ) -> (r: Result<ToolCallResult, ThoughtGateError>)
        requires
            old(store).wf(),
            execution.late,
        ensures
            answer_view(r) == execution_answer(execution@, outcome_view(outcome), self.settings()),
            final(store).wf(),
            final(store).settings() == old(store).settings(),
            forall|key: Seq<char>| #[trigger] final(store).index(key) == old(store).index(key),
            trails_consistent(old(store)@) && (execution.late && old(store)@.contains_key(
                execution@.task.id,
            ) ==> old(store)@[execution@.task.id].task.status is Expired) ==> trails_consistent(
                final(store)@,
            ),
            final(store)@ == tasks_after_execution(
                old(store)@,
                execution@,
                outcome_view(outcome),
                self.settings(),
                now,
            ),
    {
        let failure = match outcome {
            Some(PipelineResult::Success { result }) => {
                let _ = store.record_auto_approve_result(
                    &execution.task.id,
                    result.copy(),
                    execution.approval,
                    now,
                );
                return Ok(result);
            },
            Some(PipelineResult::Failure { stage, reason, retriable }) => FailureInfo {
                stage,
                reason: "Auto-approved task execution failed: ".to_owned().concat(
                    reason.as_str(),
                ),
                retriable,
            },
            None => FailureInfo {
                stage: FailureStage::UpstreamError,
                reason: seconds_text(
                    "Auto-approved task execution timed out after ",
                    self.config.execution_timeout,
                ),
                retriable: true,
            },
        };
        let reason = failure.reason.clone();
        let _ = store.record_auto_approve_failure(&execution.task.id, failure, now);
        Err(ThoughtGateError::ServiceUnavailable { reason })
    }

    fn handle_pipeline_result(
        &self,
        store: &mut TaskStore,
        result: PipelineResult,
        execution: &Execution,
        now: Timestamp,
    ) -> (r: Result<ToolCallResult, ThoughtGateError>)
        requires
            old(store).wf(),
            !execution.late,
        ensures
            answer_view(r) == execution_answer(execution@, Some(result@), self.settings()),
            final(store).wf(),
            final(store).settings() == old(store).settings(),
            forall|key: Seq<char>| #[trigger] final(store).index(key) == old(store).index(key),
            trails_consistent(old(store)@) && (execution.late && old(store)@.contains_key(
                execution@.task.id,
            ) ==> old(store)@[execution@.task.id].task.status is Expired) ==> trails_consistent(
                final(store)@,
            ),
            final(store)@ == tasks_after_execution(
                old(store)@,
                execution@,
                Some(result@),
                self.settings(),
                now,
            ),
    {
        let task = &execution.task;
        match result {
            PipelineResult::Success { result } => {
                let _ = store.complete(&task.id, result.copy(), now);
                Ok(result)
            },
            PipelineResult::Failure { stage, reason, retriable } => {
                let failure = FailureInfo { stage, reason: reason.clone(), retriable };
                let _ = store.fail(&task.id, failure, now);
                self.map_pipeline_failure(stage, reason, task)
            },
        }
    }

    fn map_pipeline_failure(&self, stage: FailureStage, reason: String, task: &Task) -> (r: Result<
        ToolCallResult,
        ThoughtGateError,
    >)
        ensures
            answer_view(r) == failure_answer(stage, reason@, task@, self.settings()),
    {
        let tool = task.original_request.name.clone();
        match stage {
            FailureStage::ApprovalTimeout => Err(
                ThoughtGateError::ApprovalTimeout {
                    tool,
                    timeout_secs: self.config.approval_timeout.as_secs(),
                    workflow: None,
                },
            ),
            FailureStage::ApprovalRejected => Err(
                ThoughtGateError::ApprovalRejected {
                    tool,
                    rejected_by: decider_of(task),
                    workflow: None,
                },
            ),
            FailureStage::PolicyDrift => Err(
                ThoughtGateError::PolicyDrift { tool, task_id: task.id.clone() },
            ),
            FailureStage::TransformDrift => Err(
                ThoughtGateError::TransformDrift { tool, task_id: task.id.clone() },
            ),
            FailureStage::UpstreamError => {
                if contains_part(reason.as_str(), "timeout") || contains_part(
                    reason.as_str(),
                    "timed out",
                ) {
                    Err(
                        ThoughtGateError::UpstreamTimeout {
                            url: "unknown".to_owned(),
                            timeout_secs: self.config.execution_timeout.as_secs(),
                        },
                    )
                } else {
                    Err(ThoughtGateError::UpstreamError { code: -32002, message: reason })
                }
            },
            _ => Err(ThoughtGateError::ServiceUnavailable { reason }),
        }
    }
}

} // verus!
