//! The approval engine and blocking waits.

use serde_json::Value;
use thoughtgate_core::config::schema::TimeoutAction;
use thoughtgate_core::error::ThoughtGateError;
use thoughtgate_core::governance::blocking::{
    clamp_poll_interval, BlockingWait, WaitAction, WaitEvent,
};
use thoughtgate_core::governance::engine::{
    finish_start, ApprovalEngine, ApprovalEngineConfig, ApprovalEngineError, ApprovalStartResult,
    ExecutionStep, PipelineResult,
};
use thoughtgate_core::governance::task::error::TaskError;
use thoughtgate_core::governance::task::status::TaskStatus;
use thoughtgate_core::governance::task::store::TaskStore;
use thoughtgate_core::governance::task::types::{
    ApprovalDecision, FailureStage, JsonRpcId, Principal, ToolCallRequest, ToolCallResult,
};
use thoughtgate_core::json::{Json, JsonNumber};
use thoughtgate_core::time::{Duration, Timestamp};

/// The value that a JSON text stands for.
fn json(text: &str) -> Json {
    value(&serde_json::from_str(text).unwrap())
}

fn value(v: &Value) -> Json {
    match v {
        Value::Null => Json::Null,
        Value::Bool(b) => Json::Bool(*b),
        Value::Number(n) => Json::Number(match (n.as_i64(), n.as_u64()) {
            (Some(i), _) => JsonNumber::Int(i),
            (None, Some(u)) => JsonNumber::Uint(u),
            (None, None) => JsonNumber::Real(n.to_string()),
        }),
        Value::String(s) => Json::String(s.clone()),
        Value::Array(items) => Json::Array(items.iter().map(value).collect()),
        Value::Object(members) => {
            Json::Object(members.iter().map(|(k, v)| (k.clone(), value(v))).collect())
        }
    }
}

fn start() -> Timestamp {
    Timestamp { nanos: 1_700_000_000_000_000_000 }
}

fn fresh_id() -> String {
    format!("tg_{}", uuid::Uuid::new_v4())
}

fn test_request() -> ToolCallRequest {
    ToolCallRequest {
        method: "tools/call".to_string(),
        name: "delete_user".to_string(),
        arguments: json(r#"{"user_id": "123"}"#),
        mcp_request_id: JsonRpcId::Number(1),
    }
}

fn success() -> ToolCallResult {
    ToolCallResult { content: json(r#"{"success": true}"#), is_error: false }
}

type Answer = Result<ToolCallResult, ThoughtGateError>;

/// An engine with a store, a clock and an upstream server.
struct Running {
    engine: ApprovalEngine,
    store: TaskStore,
    now: Timestamp,
    posts: u32,
    forwards: u32,
    progress: Vec<Json>,
    /// What upstream gives; `None` if it takes too long.
    outcome: fn() -> Option<PipelineResult>,
}

fn engine(config: ApprovalEngineConfig) -> Running {
    Running {
        engine: ApprovalEngine::new(config),
        store: TaskStore::with_defaults(),
        now: start(),
        posts: 0,
        forwards: 0,
        progress: vec![],
        outcome: || Some(PipelineResult::Success { result: success() }),
    }
}

impl Running {
    fn start_approval(&mut self) -> Result<ApprovalStartResult, ApprovalEngineError> {
        let (post, start) = self.engine.start_approval(
            &mut self.store,
            test_request(),
            Ok(test_request()),
            Principal::new("test-app"),
            None,
            None,
            Vec::new(),
            fresh_id(),
            "corr".to_string(),
            self.now,
        )?;
        assert_eq!(post.task_id, start.task_id);
        assert_eq!(post.tool_name, "delete_user");
        assert_eq!(post.created_at, self.now);
        self.posts += 1;
        finish_start(start, Ok(()))
    }

    fn execute_on_result(&mut self, id: &String) -> Answer {
        match self.engine.execute_on_result(&self.store, id, self.now) {
            ExecutionStep::Answer(answer) => answer,
            ExecutionStep::Execute(execution) => {
                self.forwards += 1;
                let outcome = (self.outcome)();
                self.engine.finish_execution(&mut self.store, execution, outcome, self.now)
            }
        }
    }

    fn wait_and_execute(
        &mut self,
        id: &String,
        tool: &str,
        timeout: Duration,
        poll: Duration,
        heartbeat: Option<Duration>,
    ) -> Answer {
        let every = clamp_poll_interval(poll);
        let mut wait =
            BlockingWait::new(id.clone(), tool.to_string(), timeout, heartbeat, self.now);
        let mut event = WaitEvent::Begun;
        loop {
            event = match wait.step(event, self.now) {
                WaitAction::Rest => {
                    self.now = self.now.plus(every);
                    WaitEvent::Ticked
                }
                WaitAction::Poll(message) => {
                    self.progress.extend(message);
                    WaitEvent::Answered(self.execute_on_result(id))
                }
                WaitAction::Answer(answer) => return answer,
            };
        }
    }

    fn decide(&mut self, id: &String, decision: ApprovalDecision) {
        self.store
            .record_approval(
                id,
                decision,
                "test-approver".to_string(),
                Duration::from_secs(60),
                self.now,
            )
            .unwrap();
    }
}

fn rejected() -> ApprovalDecision {
    ApprovalDecision::Rejected { reason: Some("Not authorized".to_string()) }
}

#[test]
fn engine_test_config_defaults() {
    let config = ApprovalEngineConfig::default();

    assert_eq!(config.approval_timeout, Duration::from_secs(600));
    assert_eq!(config.on_timeout, TimeoutAction::Deny);
    assert_eq!(config.execution_timeout, Duration::from_secs(30));
}

#[test]
fn test_timeout_action_default() {
    assert_eq!(TimeoutAction::default(), TimeoutAction::Deny);
}

#[test]
fn test_approval_engine_error_display() {
    let err: ApprovalEngineError = ApprovalEngineError::TaskNotFound { task_id: fresh_id() };
    assert!(err.message().contains("Task not found"));

    let err: ApprovalEngineError =
        ApprovalEngineError::PostFailed { details: "connection refused".to_string() };
    assert!(err.message().contains("connection refused"));
}

#[test]
fn test_start_approval_creates_task() {
    let mut run = engine(ApprovalEngineConfig::default());

    let result = run.start_approval();

    assert!(result.is_ok(), "start_approval should succeed");
    let start_result = result.unwrap();

    let task = run.store.get(&start_result.task_id);
    assert!(task.is_ok(), "Task should exist");
    assert_eq!(task.unwrap().status, TaskStatus::InputRequired);

    assert_eq!(start_result.status, TaskStatus::InputRequired);

    assert_eq!(run.posts, 1);
}

#[test]
fn test_execute_on_result_task_not_found() {
    let mut run = engine(ApprovalEngineConfig::default());

    let result = run.execute_on_result(&fresh_id());

    match result.unwrap_err() {
        ThoughtGateError::TaskNotFound { .. } => {}
        other => panic!("Expected TaskNotFound, got {:?}", other),
    }
}

#[test]
fn test_execute_on_result_still_pending() {
    let mut run = engine(ApprovalEngineConfig::default());
    let start_result = run.start_approval().unwrap();

    let result = run.execute_on_result(&start_result.task_id);

    match result.unwrap_err() {
        ThoughtGateError::TaskResultNotReady { task_id } => {
            assert_eq!(task_id, start_result.task_id);
        }
        other => panic!("Expected TaskResultNotReady, got {:?}", other),
    }
}

#[test]
fn test_execute_on_result_rejected() {
    let mut run = engine(ApprovalEngineConfig::default());
    let start_result = run.start_approval().unwrap();
    run.decide(&start_result.task_id, rejected());

    let result = run.execute_on_result(&start_result.task_id);

    match result.unwrap_err() {
        ThoughtGateError::ApprovalRejected { tool, rejected_by, .. } => {
            assert_eq!(tool, "delete_user");
            assert_eq!(rejected_by, Some("test-approver".to_string()));
        }
        other => panic!("Expected ApprovalRejected, got {:?}", other),
    }
    assert_eq!(run.forwards, 0);
}

#[test]
fn test_execute_on_result_timeout_deny() {
    let mut run = engine(ApprovalEngineConfig {
        on_timeout: TimeoutAction::Deny,
        ..ApprovalEngineConfig::default()
    });
    let start_result = run.start_approval().unwrap();

    run.store.transition(&start_result.task_id, TaskStatus::Expired, None, run.now).unwrap();

    let result = run.execute_on_result(&start_result.task_id);

    match result.unwrap_err() {
        ThoughtGateError::ApprovalTimeout { tool, timeout_secs, .. } => {
            assert_eq!(tool, "delete_user");
            assert_eq!(timeout_secs, 600);
        }
        other => panic!("Expected ApprovalTimeout, got {:?}", other),
    }
}

#[test]
fn test_execute_on_result_cancelled() {
    let mut run = engine(ApprovalEngineConfig::default());
    let start_result = run.start_approval().unwrap();

    run.store.cancel(&start_result.task_id, run.now).unwrap();

    let result = run.execute_on_result(&start_result.task_id);

    match result.unwrap_err() {
        ThoughtGateError::TaskCancelled { task_id } => {
            assert_eq!(task_id, start_result.task_id);
        }
        other => panic!("Expected TaskCancelled, got {:?}", other),
    }
}

#[test]
fn test_execute_on_result_returns_cached() {
    let mut run = engine(ApprovalEngineConfig::default());
    let start_result = run.start_approval().unwrap();
    run.decide(&start_result.task_id, ApprovalDecision::Approved);

    let result = ToolCallResult { content: json(r#"{"cached": "result"}"#), is_error: false };
    run.store.complete(&start_result.task_id, result, run.now).unwrap();

    let tool_result = run.execute_on_result(&start_result.task_id).unwrap();
    assert!(!tool_result.is_error);
    assert_eq!(tool_result.content.get("cached"), Some(&json(r#""result""#)));
    assert_eq!(run.forwards, 0);
}

#[test]
fn test_start_approval_returns_poll_interval() {
    let mut run = engine(ApprovalEngineConfig::default());
    let result = run.start_approval().unwrap();

    assert!(result.poll_interval >= Duration::from_secs(1));
    assert!(result.poll_interval <= Duration::from_secs(30));
}

#[test]
fn test_config_from_env_defaults() {
    let config = ApprovalEngineConfig::from_env(None, None, None);
    assert_eq!(config.approval_timeout, Duration::from_secs(600));
    assert_eq!(config.on_timeout, TimeoutAction::Deny);
    let config = ApprovalEngineConfig::from_env(Some("7"), Some("APPROVE"), Some("x"));
    assert_eq!(config.approval_timeout, Duration::from_secs(7));
    assert_eq!(config.on_timeout, TimeoutAction::Approve);
    assert_eq!(config.execution_timeout, Duration::from_secs(30));
}

#[test]
fn test_task_error_conversion() {
    let task_id = fresh_id();
    let err: TaskError = TaskError::NotFound { task_id: task_id.clone() };

    match ApprovalEngineError::from_task_error(err) {
        ApprovalEngineError::TaskNotFound { task_id: id } => {
            assert_eq!(id, task_id);
        }
        _ => panic!("Expected TaskNotFound"),
    }

    let err: TaskError = TaskError::InvalidTransition {
        task_id: task_id.clone(),
        from: TaskStatus::Executing,
        to: TaskStatus::Cancelled,
    };
    let converted = ApprovalEngineError::from_task_error(err);
    assert_eq!(
        converted.message(),
        format!("Task {task_id} in invalid state: {}", TaskStatus::Executing.to_text())
    );
    let converted = ApprovalEngineError::from_task_error(TaskError::CapacityExceeded);
    assert_eq!(converted.message(), "Internal error: Global task capacity exceeded");
}

#[test]
fn test_execute_on_result_timeout_approve() {
    let mut run = engine(ApprovalEngineConfig {
        on_timeout: TimeoutAction::Approve,
        execution_timeout: Duration::from_secs(30),
        ..ApprovalEngineConfig::default()
    });
    let start_result = run.start_approval().unwrap();

    run.store.transition(&start_result.task_id, TaskStatus::Expired, None, run.now).unwrap();

    let result = run.execute_on_result(&start_result.task_id);

    assert!(result.is_ok(), "Auto-approve on timeout should succeed, got: {:?}", result.err());
    assert_eq!(run.forwards, 1);
    let task = run.store.get(&start_result.task_id).unwrap();
    assert_eq!(task.status, TaskStatus::Expired);
    let approval = task.approval.as_ref().unwrap();
    assert_eq!(approval.decided_by, "system:auto-approve");
    assert_eq!(approval.approval_valid_until, run.now.plus(Duration::from_secs(30)));
    assert_eq!(
        approval.metadata.as_ref().unwrap().get("reason"),
        Some(&json(r#""timeout with on_timeout: approve""#))
    );
    assert!(task.result.is_some());
}

#[test]
fn late_results_are_given_again() {
    let mut run = engine(ApprovalEngineConfig {
        on_timeout: TimeoutAction::Approve,
        ..ApprovalEngineConfig::default()
    });
    let id = run.start_approval().unwrap().task_id;
    run.store.transition(&id, TaskStatus::Expired, None, run.now).unwrap();
    let first = run.execute_on_result(&id).unwrap();
    for _ in 0..3 {
        assert_eq!(run.execute_on_result(&id).unwrap().content, first.content);
    }
    assert_eq!(run.forwards, 1);
    let task = run.store.get(&id).unwrap();
    assert_eq!(task.status, TaskStatus::Expired);
    assert_eq!(task.transitions.len(), 3);
}

#[test]
fn test_wait_and_execute_approved() {
    let mut run = engine(ApprovalEngineConfig::default());
    let start_result = run.start_approval().unwrap();
    run.decide(&start_result.task_id, ApprovalDecision::Approved);

    let result = run.wait_and_execute(
        &start_result.task_id,
        "delete_user",
        Duration::from_secs(10),
        Duration::from_millis(100),
        None,
    );

    assert!(result.is_ok(), "wait_and_execute should succeed: {:?}", result.err());
    let tool_result = result.unwrap();
    assert!(!tool_result.is_error, "Tool result should not be error");
    assert_eq!(run.forwards, 1);
}

#[test]
fn test_wait_and_execute_rejected() {
    let mut run = engine(ApprovalEngineConfig::default());
    let start_result = run.start_approval().unwrap();
    run.decide(&start_result.task_id, rejected());

    let result = run.wait_and_execute(
        &start_result.task_id,
        "delete_user",
        Duration::from_secs(10),
        Duration::from_millis(100),
        None,
    );

    match result.unwrap_err() {
        ThoughtGateError::ApprovalRejected { tool, .. } => {
            assert_eq!(tool, "delete_user");
        }
        other => panic!("Expected ApprovalRejected, got {:?}", other),
    }
}

fn timeout_text(result: &ToolCallResult) -> String {
    match &result.content {
        Json::Array(items) => items[0].get("text").unwrap().as_str().unwrap().to_string(),
        _ => panic!("expected a list"),
    }
}

#[test]
fn test_wait_and_execute_timeout() {
    let mut run = engine(ApprovalEngineConfig::default());
    let start_result = run.start_approval().unwrap();

    let result = run.wait_and_execute(
        &start_result.task_id,
        "delete_user",
        Duration::from_millis(200),
        Duration::from_millis(100),
        None,
    );

    assert!(result.is_ok(), "Should return Ok (tool-level error), got: {:?}", result.err());
    let tool_result = result.unwrap();
    assert!(tool_result.is_error, "Should have is_error: true for timeout");
    let text = timeout_text(&tool_result);
    assert!(text.contains("timed out"), "Should mention timeout: {text}");
    assert!(text.contains("delete_user"), "Should mention tool name: {text}");
    assert_eq!(run.forwards, 0);
}

#[test]
fn test_wait_and_execute_emits_progress() {
    let mut run = engine(ApprovalEngineConfig::default());
    let start_result = run.start_approval().unwrap();

    let _ = run.wait_and_execute(
        &start_result.task_id,
        "delete_user",
        Duration::from_millis(500),
        Duration::from_millis(100),
        Some(Duration::from_millis(150)),
    );

    assert!(!run.progress.is_empty(), "Should have received at least 1 progress notification");
    let message = &run.progress[0];
    assert_eq!(message.get("method"), Some(&json(r#""notifications/progress""#)));
    let token = message.get("params").unwrap().get("progressToken").unwrap();
    assert_eq!(token.as_str().unwrap(), format!("blocking-{}", start_result.task_id));
}

#[test]
fn expired_task_ends_a_wait_with_its_own_limit() {
    let mut run = engine(ApprovalEngineConfig::default());
    let start_result = run.start_approval().unwrap();
    run.store.transition(&start_result.task_id, TaskStatus::Expired, None, run.now).unwrap();
    let result = run
        .wait_and_execute(
            &start_result.task_id,
            "other",
            Duration::from_secs(10),
            Duration::from_millis(1),
            None,
        )
        .unwrap();
    assert!(result.is_error);
    assert_eq!(
        timeout_text(&result),
        "Approval timed out after 600s for tool 'delete_user'. The request was sent to the \
         approval channel but no response was received. The tool call was NOT executed. You may \
         retry."
    );
}

#[test]
fn poll_interval_is_clamped() {
    assert_eq!(clamp_poll_interval(Duration::from_millis(1)), Duration::from_millis(100));
    assert_eq!(clamp_poll_interval(Duration::from_secs(31)), Duration::from_secs(30));
    assert_eq!(clamp_poll_interval(Duration::from_secs(7)), Duration::from_secs(7));
}

#[test]
fn running_calls_are_not_handed_out_twice() {
    let mut run = engine(ApprovalEngineConfig::default());
    let id = run.start_approval().unwrap().task_id;
    run.decide(&id, ApprovalDecision::Approved);
    let execution = match run.engine.execute_on_result(&run.store, &id, run.now) {
        ExecutionStep::Execute(execution) => execution,
        ExecutionStep::Answer(_) => panic!("expected an execution"),
    };
    match run.engine.execute_on_result(&run.store, &id, run.now) {
        ExecutionStep::Answer(Err(ThoughtGateError::ServiceUnavailable { reason })) => {
            assert_eq!(reason, "Task execution already in progress")
        }
        _ => panic!("expected a refusal"),
    }
    let outcome = Some(PipelineResult::Success { result: success() });
    let result = run.engine.finish_execution(&mut run.store, execution, outcome, run.now).unwrap();
    assert_eq!(result.content, success().content);
    assert_eq!(run.execute_on_result(&id).unwrap().content, success().content);
    assert_eq!(run.forwards, 0);
}

#[test]
fn abandoned_calls_may_be_taken_up_again() {
    let mut run = engine(ApprovalEngineConfig::default());
    let id = run.start_approval().unwrap().task_id;
    run.decide(&id, ApprovalDecision::Approved);
    let execution = match run.engine.execute_on_result(&run.store, &id, run.now) {
        ExecutionStep::Execute(execution) => execution,
        ExecutionStep::Answer(_) => panic!("expected an execution"),
    };
    run.engine.abandon_execution(execution);
    assert_eq!(run.store.get(&id).unwrap().status, TaskStatus::Executing);
    assert_eq!(run.execute_on_result(&id).unwrap().content, success().content);
    assert_eq!(run.forwards, 1);
}

fn failing(outcome: fn() -> Option<PipelineResult>) -> (ThoughtGateError, ThoughtGateError) {
    let mut run = engine(ApprovalEngineConfig::default());
    let id = run.start_approval().unwrap().task_id;
    run.decide(&id, ApprovalDecision::Approved);
    run.outcome = outcome;
    let first = run.execute_on_result(&id).unwrap_err();
    let again = run.execute_on_result(&id).unwrap_err();
    assert_eq!(run.forwards, 1);
    (first, again)
}

#[test]
fn failures_are_answered_by_stage() {
    let (first, again) = failing(|| None);
    assert_eq!(
        first,
        ThoughtGateError::UpstreamTimeout { url: "unknown".to_string(), timeout_secs: 30 }
    );
    assert_eq!(
        again,
        ThoughtGateError::ServiceUnavailable {
            reason: "Pipeline execution timed out after 30s".to_string()
        }
    );
    let (first, _) = failing(|| {
        Some(PipelineResult::Failure {
            stage: FailureStage::UpstreamError,
            reason: "boom".to_string(),
            retriable: false,
        })
    });
    assert_eq!(
        first,
        ThoughtGateError::UpstreamError { code: -32002, message: "boom".to_string() }
    );
    let (first, _) = failing(|| {
        Some(PipelineResult::Failure {
            stage: FailureStage::UpstreamError,
            reason: "request timed out".to_string(),
            retriable: false,
        })
    });
    assert!(matches!(first, ThoughtGateError::UpstreamTimeout { .. }));
    let (first, _) = failing(|| {
        Some(PipelineResult::Failure {
            stage: FailureStage::PolicyDrift,
            reason: "changed".to_string(),
            retriable: false,
        })
    });
    assert!(matches!(first, ThoughtGateError::PolicyDrift { .. }));
    let (first, _) = failing(|| {
        Some(PipelineResult::Failure {
            stage: FailureStage::TransformDrift,
            reason: "changed".to_string(),
            retriable: false,
        })
    });
    assert!(matches!(first, ThoughtGateError::TransformDrift { .. }));
    let (first, _) = failing(|| {
        Some(PipelineResult::Failure {
            stage: FailureStage::ApprovalTimeout,
            reason: "late".to_string(),
            retriable: false,
        })
    });
    assert!(matches!(first, ThoughtGateError::ApprovalTimeout { timeout_secs: 600, .. }));
    let (first, _) = failing(|| {
        Some(PipelineResult::Failure {
            stage: FailureStage::ApprovalRejected,
            reason: "no".to_string(),
            retriable: false,
        })
    });
    assert!(matches!(
        first,
        ThoughtGateError::ApprovalRejected { rejected_by: Some(ref by), .. } if by == "test-approver"
    ));
    let (first, _) = failing(|| {
        Some(PipelineResult::Failure {
            stage: FailureStage::InvalidTaskState,
            reason: "odd".to_string(),
            retriable: false,
        })
    });
    assert_eq!(first, ThoughtGateError::ServiceUnavailable { reason: "odd".to_string() });
}

#[test]
fn late_failures_are_told() {
    for (outcome, text) in [
        (
            (|| None) as fn() -> Option<PipelineResult>,
            "Auto-approved task execution timed out after 30s",
        ),
        (
            || {
                Some(PipelineResult::Failure {
                    stage: FailureStage::UpstreamError,
                    reason: "boom".to_string(),
                    retriable: false,
                })
            },
            "Auto-approved task execution failed: boom",
        ),
    ] {
        let mut run = engine(ApprovalEngineConfig {
            on_timeout: TimeoutAction::Approve,
            ..ApprovalEngineConfig::default()
        });
        let id = run.start_approval().unwrap().task_id;
        run.store.transition(&id, TaskStatus::Expired, None, run.now).unwrap();
        run.outcome = outcome;
        assert_eq!(
            run.execute_on_result(&id).unwrap_err(),
            ThoughtGateError::ServiceUnavailable { reason: text.to_string() }
        );
        let task = run.store.get(&id).unwrap();
        assert!(task.result.is_none());
        assert_eq!(task.status, TaskStatus::Expired);
        assert_eq!(task.failure.as_ref().unwrap().reason, text);
        assert_eq!(
            task.transitions.last().unwrap().reason.as_deref(),
            Some("Auto-approved after expiration; execution failed")
        );
        assert_eq!(
            run.execute_on_result(&id).unwrap_err(),
            ThoughtGateError::ServiceUnavailable { reason: text.to_string() }
        );
        assert_eq!(run.forwards, 1);
    }
}

#[test]
fn approvals_that_cannot_start() {
    let mut run = engine(ApprovalEngineConfig::default());
    let refused = run.engine.start_approval(
        &mut run.store,
        test_request(),
        Err("inspector said no".to_string()),
        Principal::new("test-app"),
        None,
        None,
        Vec::new(),
        fresh_id(),
        "corr".to_string(),
        run.now,
    );
    assert_eq!(
        refused.err().unwrap().message(),
        "Internal error: Pre-approval phase failed: inspector said no"
    );
    for _ in 0..10 {
        run.start_approval().unwrap();
    }
    match run.start_approval() {
        Err(ApprovalEngineError::TaskCreation { details }) => {
            assert!(details.contains("Rate limit exceeded"))
        }
        _ => panic!("expected a refusal"),
    }
    let start = ApprovalStartResult {
        task_id: fresh_id(),
        status: TaskStatus::InputRequired,
        poll_interval: Duration::from_secs(5),
    };
    assert_eq!(
        finish_start(start, Err("slack down".to_string())).err().unwrap().message(),
        "Approval post failed: slack down"
    );
}

#[test]
fn waits_end_at_their_deadline() {
    let limit = Duration::from_secs(10);
    let mut wait = BlockingWait::new("t".to_string(), "tool".to_string(), limit, None, start());
    assert!(matches!(wait.step(WaitEvent::Begun, start()), WaitAction::Rest));
    assert!(matches!(wait.step(WaitEvent::Ticked, start()), WaitAction::Poll(None)));
    let not_ready = || {
        WaitEvent::Answered(Err(ThoughtGateError::TaskResultNotReady { task_id: "t".to_string() }))
    };
    assert!(matches!(wait.step(not_ready(), start()), WaitAction::Rest));
    match wait.step(not_ready(), start().plus(limit)) {
        WaitAction::Answer(Ok(result)) => assert!(result.is_error),
        other => panic!("expected an answer, got {other:?}"),
    }
    let last = wait.step(WaitEvent::Answered(Ok(success())), start().plus(limit));
    assert!(matches!(last, WaitAction::Answer(Ok(result)) if !result.is_error));
}

#[test]
fn engine_errors_are_told() {
    let err: ApprovalEngineError = ApprovalEngineError::InvalidState {
        task_id: "t".to_string(),
        status: TaskStatus::Expired,
    };
    assert!(err.message().contains('t'));
    let err: ApprovalEngineError = ApprovalEngineError::Internal { details: "why".to_string() };
    assert!(err.message().contains("why"));
}
