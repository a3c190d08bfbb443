//! Tasks: the state machine, the store, request hashes.

use std::sync::Arc;

use serde_json::Value;
use sha2::Digest;
use thoughtgate_core::config::schema::TimeoutAction;
use thoughtgate_core::governance::task::error::TaskError;
use thoughtgate_core::governance::task::helpers::{
    canonical_json, compute_poll_interval, hash_request,
};
use thoughtgate_core::governance::task::status::TaskStatus;
use thoughtgate_core::governance::task::store::{TaskStore, TaskStoreConfig, WaitStep};
use thoughtgate_core::governance::task::types::{
    ApprovalDecision, ApprovalRecord, FailureInfo, FailureStage, JsonRpcId, Principal, Task,
    ToolCallRequest, ToolCallResult,
};
use thoughtgate_core::json::{Json, JsonNumber};
use thoughtgate_core::time::{Duration, Timestamp};

/// The value that a JSON text stands for.
fn json(text: &str) -> Json {
    value(&serde_json::from_str(text).unwrap())
}

fn value(v: &Value) -> Json {
    match v {
        Value::Null => Json::Null,
        Value::Bool(b) => Json::Bool(*b),
        Value::Number(n) => Json::Number(match (n.as_i64(), n.as_u64()) {
            (Some(i), _) => JsonNumber::Int(i),
            (None, Some(u)) => JsonNumber::Uint(u),
            (None, None) => JsonNumber::Real(n.to_string()),
        }),
        Value::String(s) => Json::String(s.clone()),
        Value::Array(items) => Json::Array(items.iter().map(value).collect()),
        Value::Object(members) => {
            Json::Object(members.iter().map(|(k, v)| (k.clone(), value(v))).collect())
        }
    }
}

fn test_request() -> ToolCallRequest {
    ToolCallRequest {
        method: "tools/call".to_string(),
        name: "delete_user".to_string(),
        arguments: json(r#"{"user_id": "123"}"#),
        mcp_request_id: JsonRpcId::Number(1),
    }
}

fn test_principal() -> Principal {
    Principal::new("test-app")
}

fn start() -> Timestamp {
    Timestamp { nanos: 1_700_000_000_000_000_000 }
}

fn fresh_id() -> String {
    format!("tg_{}", uuid::Uuid::new_v4())
}

/// A store with a clock.
struct Clocked {
    store: TaskStore,
    now: Timestamp,
}

type Outcome = Result<Arc<Task>, TaskError>;

impl Clocked {
    fn new(config: TaskStoreConfig) -> Clocked {
        Clocked { store: TaskStore::new(config), now: start() }
    }

    fn with_defaults() -> Clocked {
        Clocked { store: TaskStore::with_defaults(), now: start() }
    }

    fn sleep(&mut self, d: Duration) {
        self.now = self.now.plus(d);
    }

    fn create(
        &mut self,
        call: ToolCallRequest,
        transformed: ToolCallRequest,
        principal: Principal,
        ttl: Option<Duration>,
        on_timeout: TimeoutAction,
    ) -> Outcome {
        self.store.create(fresh_id(), call, transformed, principal, ttl, on_timeout, self.now)
    }

    fn get(&self, id: &String) -> Outcome {
        self.store.get(id)
    }

    fn transition(&mut self, id: &String, to: TaskStatus, reason: Option<String>) -> Outcome {
        self.store.transition(id, to, reason, self.now)
    }

    fn transition_if(
        &mut self,
        id: &String,
        expected: TaskStatus,
        to: TaskStatus,
        reason: Option<String>,
    ) -> Outcome {
        self.store.transition_if(id, expected, to, reason, self.now)
    }

    fn record_approval(
        &mut self,
        id: &String,
        decision: ApprovalDecision,
        by: String,
        valid_for: Duration,
    ) -> Outcome {
        self.store.record_approval(id, decision, by, valid_for, self.now)
    }

    fn complete(&mut self, id: &String, result: ToolCallResult) -> Outcome {
        self.store.complete(id, result, self.now)
    }

    fn fail(&mut self, id: &String, failure: FailureInfo) -> Outcome {
        self.store.fail(id, failure, self.now)
    }

    fn cancel(&mut self, id: &String) -> Outcome {
        self.store.cancel(id, self.now)
    }

    fn expire_overdue(&mut self) -> usize {
        self.store.expire_overdue(self.now)
    }

    fn fail_all_pending(&mut self, reason: &str) -> usize {
        self.store.fail_all_pending(reason, self.now)
    }

    fn cleanup_terminal(&mut self) -> usize {
        self.store.cleanup_terminal(self.now)
    }

    fn list_for_principal(&self, principal: &Principal, offset: usize, limit: usize) -> Vec<Arc<Task>> {
        self.store.list_for_principal(principal, offset, limit)
    }

    fn pending_count(&self) -> usize {
        self.store.pending_count()
    }

    fn total_count(&self) -> usize {
        self.store.total_count()
    }

    fn has_principal_entry(&self, key: &String) -> bool {
        self.store.has_principal_entry(key)
    }
}

/// Tests that is_terminal correctly identifies terminal states.
#[test]
fn test_task_status_is_terminal() {
    assert!(!TaskStatus::Working.is_terminal());
    assert!(!TaskStatus::InputRequired.is_terminal());
    assert!(!TaskStatus::Executing.is_terminal());
    assert!(TaskStatus::Completed.is_terminal());
    assert!(TaskStatus::Failed.is_terminal());
    assert!(TaskStatus::Rejected.is_terminal());
    assert!(TaskStatus::Cancelled.is_terminal());
    assert!(TaskStatus::Expired.is_terminal());
}

/// Tests that is_agent_visible correctly hides internal states.
#[test]
fn test_task_status_is_agent_visible() {
    assert!(TaskStatus::Working.is_agent_visible());
    assert!(TaskStatus::InputRequired.is_agent_visible());
    assert!(!TaskStatus::Executing.is_agent_visible()); // Internal only
    assert!(TaskStatus::Completed.is_agent_visible());
    assert!(TaskStatus::Failed.is_agent_visible());
    assert!(TaskStatus::Rejected.is_agent_visible());
    assert!(TaskStatus::Cancelled.is_agent_visible());
    assert!(TaskStatus::Expired.is_agent_visible());
}

/// Tests SEP-1686 status mapping.
#[test]
fn test_task_status_to_sep1686() {
    assert_eq!(TaskStatus::Working.to_sep1686(), "working");
    assert_eq!(TaskStatus::InputRequired.to_sep1686(), "input_required");
    assert_eq!(TaskStatus::Executing.to_sep1686(), "working"); // Maps to working
    assert_eq!(TaskStatus::Completed.to_sep1686(), "completed");
    assert_eq!(TaskStatus::Failed.to_sep1686(), "failed");
    assert_eq!(TaskStatus::Rejected.to_sep1686(), "failed"); // Maps to failed
    assert_eq!(TaskStatus::Cancelled.to_sep1686(), "cancelled");
    assert_eq!(TaskStatus::Expired.to_sep1686(), "failed"); // Maps to failed
}

/// Tests valid state transitions.
#[test]
fn test_state_machine_valid_transitions() {
    // From Working
    assert!(TaskStatus::Working.can_transition_to(TaskStatus::InputRequired));
    assert!(TaskStatus::Working.can_transition_to(TaskStatus::Failed));
    assert!(TaskStatus::Working.can_transition_to(TaskStatus::Expired));

    // From InputRequired
    assert!(TaskStatus::InputRequired.can_transition_to(TaskStatus::Executing));
    assert!(TaskStatus::InputRequired.can_transition_to(TaskStatus::Rejected));
    assert!(TaskStatus::InputRequired.can_transition_to(TaskStatus::Cancelled));
    assert!(TaskStatus::InputRequired.can_transition_to(TaskStatus::Expired));

    // From Executing
    assert!(TaskStatus::Executing.can_transition_to(TaskStatus::Completed));
    assert!(TaskStatus::Executing.can_transition_to(TaskStatus::Failed));
}

/// Tests invalid state transitions.
#[test]
fn test_state_machine_invalid_transitions() {
    // Can't go backwards
    assert!(!TaskStatus::InputRequired.can_transition_to(TaskStatus::Working));
    assert!(!TaskStatus::Executing.can_transition_to(TaskStatus::InputRequired));
    assert!(!TaskStatus::Completed.can_transition_to(TaskStatus::Executing));

    // Can't skip states
    assert!(!TaskStatus::Working.can_transition_to(TaskStatus::Executing));
    assert!(!TaskStatus::Working.can_transition_to(TaskStatus::Completed));

    // Terminal states can't transition
    assert!(!TaskStatus::Completed.can_transition_to(TaskStatus::Failed));
    assert!(!TaskStatus::Failed.can_transition_to(TaskStatus::Completed));
    assert!(!TaskStatus::Rejected.can_transition_to(TaskStatus::Cancelled));
}

/// Tests task creation.
#[test]
fn test_task_creation() {
    let id = fresh_id();
    let task = Task::new(
        id.clone(),
        test_request(),
        test_request(),
        test_principal(),
        Duration::from_secs(600),
        TimeoutAction::default(),
        start(),
    )
    .unwrap();

    assert_eq!(task.status, TaskStatus::Working);
    assert_eq!(task.id, id);
    assert!(task.id.starts_with("tg_"), "Task ID should be ThoughtGate-owned");
    assert!(task.transitions.is_empty());
    assert!(task.approval.is_none());
    assert!(task.result.is_none());
    assert!(task.failure.is_none());
    assert_eq!(task.on_timeout, TimeoutAction::Deny);
}

/// Tests task transition records audit trail.
#[test]
fn test_task_transition_audit_trail() {
    let mut task = Task::new(
        fresh_id(),
        test_request(),
        test_request(),
        test_principal(),
        Duration::from_secs(600),
        TimeoutAction::default(),
        start(),
    )
    .unwrap();

    task.transition(
        TaskStatus::InputRequired,
        Some("Ready for approval".to_string()),
        start(),
    )
    .unwrap();

    assert_eq!(task.status, TaskStatus::InputRequired);
    assert_eq!(task.transitions.len(), 1);
    assert_eq!(task.transitions[0].from, TaskStatus::Working);
    assert_eq!(task.transitions[0].to, TaskStatus::InputRequired);
    assert_eq!(
        task.transitions[0].reason,
        Some("Ready for approval".to_string())
    );
}

/// Tests that terminal states are immutable.
#[test]
fn test_terminal_states_immutable() {
    let mut task = Task::new(
        fresh_id(),
        test_request(),
        test_request(),
        test_principal(),
        Duration::from_secs(600),
        TimeoutAction::default(),
        start(),
    )
    .unwrap();

    // Get to a terminal state
    task.transition(TaskStatus::InputRequired, None, start()).unwrap();
    task.transition(TaskStatus::Cancelled, None, start()).unwrap();

    // Try to transition from terminal
    let result = task.transition(TaskStatus::Completed, None, start());
    assert!(matches!(result, Err(TaskError::AlreadyTerminal { .. })));
}

/// Tests optimistic locking.
#[test]
fn test_optimistic_locking() {
    let mut task = Task::new(
        fresh_id(),
        test_request(),
        test_request(),
        test_principal(),
        Duration::from_secs(600),
        TimeoutAction::default(),
        start(),
    )
    .unwrap();

    // Correct expected status
    task.transition_if(TaskStatus::Working, TaskStatus::InputRequired, None, start())
        .unwrap();

    // Wrong expected status
    let result = task.transition_if(TaskStatus::Working, TaskStatus::Executing, None, start());
    assert!(matches!(
        result,
        Err(TaskError::ConcurrentModification { .. })
    ));
}

/// Tests task store creation and retrieval.
#[test]
fn test_task_store_create_and_get() {
    let mut store = Clocked::with_defaults();

    let task = store
        .create(
            test_request(),
            test_request(),
            test_principal(),
            None,
            TimeoutAction::default(),
        )
        .unwrap();

    assert_eq!(task.status, TaskStatus::Working);
    assert_eq!(store.pending_count(), 1);

    let retrieved = store.get(&task.id).unwrap();
    assert_eq!(retrieved.id, task.id);
}

/// Tests task not found error.
#[test]
fn test_task_store_not_found() {
    let mut store = Clocked::with_defaults();
    let fake_id = fresh_id();

    let result = store.get(&fake_id);
    assert!(matches!(result, Err(TaskError::NotFound { .. })));
}

/// Tests rate limiting per principal.
#[test]
fn test_rate_limiting_per_principal() {
    let config = TaskStoreConfig {
        max_pending_per_principal: 2,
        ..TaskStoreConfig::default()
    };
    let mut store = Clocked::new(config);

    // Create up to limit
    store
        .create(
            test_request(),
            test_request(),
            test_principal(),
            None,
            TimeoutAction::default(),
        )
        .unwrap();
    store
        .create(
            test_request(),
            test_request(),
            test_principal(),
            None,
            TimeoutAction::default(),
        )
        .unwrap();

    // Third should fail
    let result = store.create(
        test_request(),
        test_request(),
        test_principal(),
        None,
        TimeoutAction::default(),
    );
    assert!(matches!(result, Err(TaskError::RateLimited { .. })));

    // Different principal should work
    let other_principal = Principal::new("other-app");
    store
        .create(
            test_request(),
            test_request(),
            other_principal,
            None,
            TimeoutAction::default(),
        )
        .unwrap();
}

/// Tests global capacity limit.
#[test]
fn test_global_capacity_limit() {
    let config = TaskStoreConfig {
        max_pending_global: 2,
        max_pending_per_principal: 10,
        ..TaskStoreConfig::default()
    };
    let mut store = Clocked::new(config);

    store
        .create(
            test_request(),
            test_request(),
            Principal::new("app-1"),
            None,
            TimeoutAction::default(),
        )
        .unwrap();
    store
        .create(
            test_request(),
            test_request(),
            Principal::new("app-2"),
            None,
            TimeoutAction::default(),
        )
        .unwrap();

    let result = store.create(
        test_request(),
        test_request(),
        Principal::new("app-3"),
        None,
        TimeoutAction::default(),
    );
    assert!(matches!(result, Err(TaskError::CapacityExceeded)));
}

/// Tests task cancellation.
#[test]
fn test_task_cancellation() {
    let mut store = Clocked::with_defaults();

    let task = store
        .create(
            test_request(),
            test_request(),
            test_principal(),
            None,
            TimeoutAction::default(),
        )
        .unwrap();

    // Transition to InputRequired first
    store
        .transition(&task.id, TaskStatus::InputRequired, None)
        .unwrap();

    // Cancel
    let cancelled = store.cancel(&task.id).unwrap();
    assert_eq!(cancelled.status, TaskStatus::Cancelled);
    assert_eq!(store.pending_count(), 0);
}

/// Tests cannot cancel completed task.
#[test]
fn test_cannot_cancel_completed() {
    let mut store = Clocked::with_defaults();

    let task = store
        .create(
            test_request(),
            test_request(),
            test_principal(),
            None,
            TimeoutAction::default(),
        )
        .unwrap();

    // Complete the task
    store
        .transition(&task.id, TaskStatus::InputRequired, None)
        .unwrap();
    store
        .record_approval(
            &task.id,
            ApprovalDecision::Approved,
            "tester".to_string(),
            Duration::from_secs(60),
        )
        .unwrap();
    store
        .complete(
            &task.id,
            ToolCallResult {
                content: json(r#"{}"#),
                is_error: false,
            },
        )
        .unwrap();

    // Try to cancel
    let result = store.cancel(&task.id);
    assert!(matches!(result, Err(TaskError::AlreadyTerminal { .. })));
}

/// Tests cannot cancel executing task.
#[test]
fn test_cannot_cancel_executing() {
    let mut store = Clocked::with_defaults();

    let task = store
        .create(
            test_request(),
            test_request(),
            test_principal(),
            None,
            TimeoutAction::default(),
        )
        .unwrap();

    // Move to Executing
    store
        .transition(&task.id, TaskStatus::InputRequired, None)
        .unwrap();
    store
        .record_approval(
            &task.id,
            ApprovalDecision::Approved,
            "tester".to_string(),
            Duration::from_secs(60),
        )
        .unwrap();

    // Try to cancel - should fail with InvalidTransition since Executing is not terminal
    let result = store.cancel(&task.id);
    assert!(matches!(
        result,
        Err(TaskError::InvalidTransition {
            from: TaskStatus::Executing,
            to: TaskStatus::Cancelled,
            ..
        })
    ));
}

/// Tests task expiration.
#[test]
fn test_task_expiration() {
    let config = TaskStoreConfig {
        min_ttl: Duration::from_millis(10),
        default_ttl: Duration::from_millis(10),
        ..TaskStoreConfig::default()
    };
    let mut store = Clocked::new(config);

    let task = store
        .create(
            test_request(),
            test_request(),
            test_principal(),
            None,
            TimeoutAction::default(),
        )
        .unwrap();

    // Transition to InputRequired (expiration is allowed from this state)
    store
        .transition(&task.id, TaskStatus::InputRequired, None)
        .unwrap();

    // Wait for expiration (longer than TTL to ensure expiration)
    store.sleep(Duration::from_millis(50));

    // Run cleanup
    let expired = store.expire_overdue();
    assert_eq!(expired, 1);

    let task = store.get(&task.id).unwrap();
    assert_eq!(task.status, TaskStatus::Expired);
}

/// Tests concurrent modification detection.
#[test]
fn test_concurrent_modification() {
    let mut store = Clocked::with_defaults();

    let task = store
        .create(
            test_request(),
            test_request(),
            test_principal(),
            None,
            TimeoutAction::default(),
        )
        .unwrap();

    // First transition succeeds
    store
        .transition_if(
            &task.id,
            TaskStatus::Working,
            TaskStatus::InputRequired,
            None,
        )
        .unwrap();

    // Second transition with wrong expected status fails
    let result = store.transition_if(&task.id, TaskStatus::Working, TaskStatus::Failed, None);
    assert!(matches!(
        result,
        Err(TaskError::ConcurrentModification { .. })
    ));
}

/// Tests listing tasks for principal.
#[test]
fn test_list_for_principal() {
    let mut store = Clocked::with_defaults();
    let principal = test_principal();

    // Create 3 tasks
    for _ in 0..3 {
        store
            .create(
                test_request(),
                test_request(),
                principal.clone(),
                None,
                TimeoutAction::default(),
            )
            .unwrap();
    }

    // List all
    let tasks = store.list_for_principal(&principal, 0, 10);
    assert_eq!(tasks.len(), 3);

    // List with pagination
    let page1 = store.list_for_principal(&principal, 0, 2);
    assert_eq!(page1.len(), 2);

    let page2 = store.list_for_principal(&principal, 2, 2);
    assert_eq!(page2.len(), 1);

    // Different principal sees nothing
    let other = Principal::new("other");
    let empty = store.list_for_principal(&other, 0, 10);
    assert!(empty.is_empty());
}

/// Tests shutdown marks pending tasks as failed.
#[test]
fn test_shutdown_fails_pending() {
    let mut store = Clocked::with_defaults();

    // Create 3 pending tasks
    for _ in 0..3 {
        store
            .create(
                test_request(),
                test_request(),
                test_principal(),
                None,
                TimeoutAction::default(),
            )
            .unwrap();
    }

    assert_eq!(store.pending_count(), 3);

    // Shutdown
    let failed = store.fail_all_pending("Service shutting down");
    assert_eq!(failed, 3);
    assert_eq!(store.pending_count(), 0);
}

/// Tests poll interval computation.
#[test]
fn test_poll_interval_computation() {
    assert_eq!(
        compute_poll_interval(Duration::from_secs(30)),
        Duration::from_secs(2)
    );
    assert_eq!(
        compute_poll_interval(Duration::from_secs(60)),
        Duration::from_secs(2)
    );
    assert_eq!(
        compute_poll_interval(Duration::from_secs(120)),
        Duration::from_secs(5)
    );
    assert_eq!(
        compute_poll_interval(Duration::from_secs(600)),
        Duration::from_secs(10)
    );
    assert_eq!(
        compute_poll_interval(Duration::from_secs(1200)),
        Duration::from_secs(30)
    );
}

/// Tests request hash computation.
#[test]
fn test_request_hash() {
    let req1 = test_request();
    let req2 = test_request();
    let req3 = ToolCallRequest {
        method: "tools/call".to_string(),
        name: "other_tool".to_string(),
        arguments: json(r#"{}"#),
        mcp_request_id: JsonRpcId::Number(1),
    };

    let hash1 = hash_request(&req1).unwrap();
    let hash2 = hash_request(&req2).unwrap();
    let hash3 = hash_request(&req3).unwrap();

    // Same request produces same hash
    assert_eq!(hash1, hash2);

    // Different request produces different hash
    assert_ne!(hash1, hash3);

    // Hash is a valid hex string
    assert!(hash1.chars().all(|c| c.is_ascii_hexdigit()));
}

/// Tests that canonical JSON hashing produces identical hashes regardless of
/// key insertion order in `serde_json::Value` objects.
/// This is critical because `serde_json/preserve_order` is transitively
/// enabled by `cedar-policy-core`, making `Value::to_string()` dependent
/// on insertion order.
#[test]
fn test_canonical_json_hash_key_order_independent() {
    // Build two Value::Objects with different key insertion orders
    let args_ab = json(r#"{"a": 1, "b": 2}"#);
    let args_ba = json(r#"{"b": 2, "a": 1}"#);

    let req_ab = ToolCallRequest {
        method: "tools/call".to_string(),
        name: "test_tool".to_string(),
        arguments: args_ab,
        mcp_request_id: JsonRpcId::Number(1),
    };
    let req_ba = ToolCallRequest {
        method: "tools/call".to_string(),
        name: "test_tool".to_string(),
        arguments: args_ba,
        mcp_request_id: JsonRpcId::Number(2),
    };

    // Must produce identical hashes despite different key orders
    assert_eq!(
        hash_request(&req_ab).unwrap(),
        hash_request(&req_ba).unwrap()
    );

    // Nested objects should also be order-independent
    let nested_1 = json(r#"{"outer": {"z": 3, "a": 1}, "list": [1, 2]}"#);
    let nested_2 = json(r#"{"list": [1, 2], "outer": {"a": 1, "z": 3}}"#);

    let req_nested_1 = ToolCallRequest {
        method: "tools/call".to_string(),
        name: "nested_tool".to_string(),
        arguments: nested_1,
        mcp_request_id: JsonRpcId::Number(3),
    };
    let req_nested_2 = ToolCallRequest {
        method: "tools/call".to_string(),
        name: "nested_tool".to_string(),
        arguments: nested_2,
        mcp_request_id: JsonRpcId::Number(4),
    };

    assert_eq!(
        hash_request(&req_nested_1).unwrap(),
        hash_request(&req_nested_2).unwrap()
    );
}

/// Tests approval recording and state transition.
#[test]
fn test_approval_recording() {
    let mut store = Clocked::with_defaults();

    let task = store
        .create(
            test_request(),
            test_request(),
            test_principal(),
            None,
            TimeoutAction::default(),
        )
        .unwrap();

    // Move to InputRequired
    store
        .transition(&task.id, TaskStatus::InputRequired, None)
        .unwrap();

    // Approve
    let approved = store
        .record_approval(
            &task.id,
            ApprovalDecision::Approved,
            "approver@example.com".to_string(),
            Duration::from_secs(300),
        )
        .unwrap();

    assert_eq!(approved.status, TaskStatus::Executing);
    assert!(approved.approval.is_some());
    let approval = approved.approval.as_ref().unwrap();
    assert_eq!(approval.decision, ApprovalDecision::Approved);
    assert_eq!(approval.decided_by, "approver@example.com");
}

/// Tests rejection recording.
#[test]
fn test_rejection_recording() {
    let mut store = Clocked::with_defaults();

    let task = store
        .create(
            test_request(),
            test_request(),
            test_principal(),
            None,
            TimeoutAction::default(),
        )
        .unwrap();

    // Move to InputRequired
    store
        .transition(&task.id, TaskStatus::InputRequired, None)
        .unwrap();

    // Reject
    let rejected = store
        .record_approval(
            &task.id,
            ApprovalDecision::Rejected {
                reason: Some("Too risky".to_string()),
            },
            "approver@example.com".to_string(),
            Duration::from_secs(0),
        )
        .unwrap();

    assert_eq!(rejected.status, TaskStatus::Rejected);
    assert!(rejected.approval.is_some());
}

/// Tests full task lifecycle: create → approve → complete.
#[test]
fn test_full_lifecycle() {
    let mut store = Clocked::with_defaults();

    // Create
    let task = store
        .create(
            test_request(),
            test_request(),
            test_principal(),
            None,
            TimeoutAction::default(),
        )
        .unwrap();
    assert_eq!(task.status, TaskStatus::Working);
    assert_eq!(store.pending_count(), 1);

    // Pre-approval complete
    store
        .transition(&task.id, TaskStatus::InputRequired, None)
        .unwrap();

    // Approve
    store
        .record_approval(
            &task.id,
            ApprovalDecision::Approved,
            "approver".to_string(),
            Duration::from_secs(60),
        )
        .unwrap();

    // Executing (still pending)
    let task = store.get(&task.id).unwrap();
    assert_eq!(task.status, TaskStatus::Executing);
    assert_eq!(store.pending_count(), 1);

    // Complete
    let result = ToolCallResult {
        content: json(r#"{"success": true}"#),
        is_error: false,
    };
    let completed = store.complete(&task.id, result).unwrap();

    assert_eq!(completed.status, TaskStatus::Completed);
    assert!(completed.result.is_some());
    assert_eq!(store.pending_count(), 0);
}

/// Tests task failure recording.
#[test]
fn test_task_failure() {
    let mut store = Clocked::with_defaults();

    let task = store
        .create(
            test_request(),
            test_request(),
            test_principal(),
            None,
            TimeoutAction::default(),
        )
        .unwrap();

    let failure = FailureInfo {
        stage: FailureStage::PreHitlInspection,
        reason: "Validation failed".to_string(),
        retriable: false,
    };

    let failed = store.fail(&task.id, failure).unwrap();
    assert_eq!(failed.status, TaskStatus::Failed);
    assert!(failed.failure.is_some());
    assert_eq!(store.pending_count(), 0);
}

/// Tests terminal grace period cleanup.
#[test]
fn test_terminal_cleanup() {
    let config = TaskStoreConfig {
        terminal_grace_period: Duration::from_millis(1),
        ..TaskStoreConfig::default()
    };
    let mut store = Clocked::new(config);

    let task = store
        .create(
            test_request(),
            test_request(),
            test_principal(),
            None,
            TimeoutAction::default(),
        )
        .unwrap();

    // Complete it
    store
        .transition(&task.id, TaskStatus::InputRequired, None)
        .unwrap();
    store
        .record_approval(
            &task.id,
            ApprovalDecision::Approved,
            "test".to_string(),
            Duration::from_secs(60),
        )
        .unwrap();
    store
        .complete(
            &task.id,
            ToolCallResult {
                content: json(r#"{}"#),
                is_error: false,
            },
        )
        .unwrap();

    assert_eq!(store.total_count(), 1);

    // Wait for grace period
    store.sleep(Duration::from_millis(10));

    // Cleanup
    let removed = store.cleanup_terminal();
    assert_eq!(removed, 1);
    assert_eq!(store.total_count(), 0);
}

#[test]
fn test_cleanup_terminal_removes_empty_principal_entries() {
    let config = TaskStoreConfig {
        terminal_grace_period: Duration::from_millis(1),
        ..TaskStoreConfig::default()
    };
    let mut store = Clocked::new(config);

    let principal = test_principal();

    // Create two tasks for the same principal
    let task1 = store
        .create(
            test_request(),
            test_request(),
            principal.clone(),
            None,
            TimeoutAction::default(),
        )
        .unwrap();
    let task2 = store
        .create(
            test_request(),
            test_request(),
            principal.clone(),
            None,
            TimeoutAction::default(),
        )
        .unwrap();

    // Principal should have entries
    let key = principal.rate_limit_key();
    assert!(
        store.has_principal_entry(&key),
        "by_principal should contain the principal"
    );

    // Complete both tasks
    for task_id in [&task1.id, &task2.id] {
        store
            .transition(task_id, TaskStatus::InputRequired, None)
            .unwrap();
        store
            .record_approval(
                task_id,
                ApprovalDecision::Approved,
                "test".to_string(),
                Duration::from_secs(60),
            )
            .unwrap();
        store
            .complete(
                task_id,
                ToolCallResult {
                    content: json(r#"{}"#),
                    is_error: false,
                },
            )
            .unwrap();
    }

    // Wait for grace period
    store.sleep(Duration::from_millis(10));

    // Cleanup should remove both tasks AND the empty principal entry
    let removed = store.cleanup_terminal();
    assert_eq!(removed, 2);
    assert_eq!(store.total_count(), 0);
    assert!(
        !store.has_principal_entry(&key),
        "by_principal should not contain the principal after all tasks cleaned up"
    );
}

#[test]
fn test_canonical_json_depth_limit() {
    // Build deeply nested JSON: {"a": {"a": {"a": ... }}}
    let mut deep = json(r#""leaf""#);
    for _ in 0..100 {
        deep = Json::Object(vec![("a".to_string(), deep)]);
    }

    // Should not stack overflow; returns error on excessive depth
    let result = canonical_json(&deep);
    assert!(result.is_err(), "Expected error for deeply nested JSON");
    assert!(
        result.unwrap_err().contains("nesting depth"),
        "Error should mention nesting depth"
    );
}

#[test]
fn test_canonical_json_sorted_keys() {
    let value = json(
        r#"{
        "z": "last",
        "a": "first",
        "m": {"nested": "value"}
    }"#,
    );

    let result = canonical_json(&value).unwrap();
    // Keys must be sorted: a before m before z
    let a_pos = result.find("\"a\"").expect("missing key a");
    let m_pos = result.find("\"m\"").expect("missing key m");
    let z_pos = result.find("\"z\"").expect("missing key z");
    assert!(a_pos < m_pos, "a should come before m");
    assert!(m_pos < z_pos, "m should come before z");
}

/// A waiting task in a store.
fn waiting(store: &mut Clocked, on_timeout: TimeoutAction) -> String {
    let task = store
        .create(test_request(), test_request(), test_principal(), None, on_timeout)
        .unwrap();
    store.transition(&task.id, TaskStatus::InputRequired, None).unwrap();
    task.id.clone()
}

#[test]
fn hash_is_sha256_of_the_canonical_request() {
    let request = test_request();
    let mut hasher = sha2::Sha256::new();
    hasher.update(b"tools/calldelete_user{\"user_id\":\"123\"}");
    let digest = hasher.finalize();
    let hex: String = digest.iter().map(|b| format!("{b:02x}")).collect();
    assert_eq!(hash_request(&request).unwrap(), hex);
}

#[test]
fn canonical_text_escapes_strings() {
    let value = json(r#"{"b": [1, -2, true, null, "a\"\n"], "a": {}}"#);
    assert_eq!(
        canonical_json(&value).unwrap(),
        r#"{"a":{},"b":[1,-2,true,null,"a\"\n"]}"#
    );
}

#[test]
fn time_to_live_is_clamped() {
    let mut store = Clocked::with_defaults();
    let short = store
        .create(
            test_request(),
            test_request(),
            test_principal(),
            Some(Duration::from_secs(1)),
            TimeoutAction::Deny,
        )
        .unwrap();
    assert_eq!(short.ttl, Duration::from_secs(60));
    let long = store
        .create(
            test_request(),
            test_request(),
            test_principal(),
            Some(Duration::from_secs(100_000)),
            TimeoutAction::Deny,
        )
        .unwrap();
    assert_eq!(long.ttl, Duration::from_secs(86_400));
    assert_eq!(long.expires_at, start().plus(Duration::from_secs(86_400)));
}

#[test]
fn deep_arguments_are_refused() {
    let mut deep = json(r#""leaf""#);
    for _ in 0..100 {
        deep = Json::Object(vec![("a".to_string(), deep)]);
    }
    let mut store = Clocked::with_defaults();
    let call = ToolCallRequest { arguments: deep.clone(), ..test_request() };
    let transformed = ToolCallRequest { arguments: deep, ..test_request() };
    let result = store.create(call, transformed, test_principal(), None, TimeoutAction::Deny);
    match result {
        Err(TaskError::Internal { details }) => assert!(details.contains("nesting depth")),
        _ => panic!("expected an internal error"),
    }
    assert_eq!(store.total_count(), 0);
}

/// Expiry, cancellation and rejection free the principal's place.
#[test]
fn ended_tasks_free_their_place() {
    let mut store = Clocked::new(TaskStoreConfig {
        max_pending_per_principal: 1,
        ..TaskStoreConfig::default()
    });
    let first = waiting(&mut store, TimeoutAction::Deny);
    let full = store.create(
        test_request(),
        test_request(),
        test_principal(),
        None,
        TimeoutAction::Deny,
    );
    match full {
        Err(e) => {
            assert_eq!(
                e.message(),
                "Rate limit exceeded for principal 'test-app', retry after 60s"
            )
        }
        Ok(_) => panic!("expected a rate limit"),
    }
    store.cancel(&first).unwrap();
    let second = waiting(&mut store, TimeoutAction::Deny);
    store.sleep(Duration::from_secs(601));
    assert_eq!(store.expire_overdue(), 1);
    assert_eq!(store.get(&second).unwrap().status, TaskStatus::Expired);
    let third = waiting(&mut store, TimeoutAction::Deny);
    store
        .record_approval(
            &third,
            ApprovalDecision::Rejected { reason: None },
            "someone".to_string(),
            Duration::from_secs(60),
        )
        .unwrap();
    assert_eq!(store.pending_count(), 0);
    waiting(&mut store, TimeoutAction::Deny);
    assert_eq!(store.total_count(), 4);
}

#[test]
fn cancelling_twice_is_allowed() {
    let mut store = Clocked::with_defaults();
    let id = waiting(&mut store, TimeoutAction::Deny);
    store.cancel(&id).unwrap();
    let again = store.cancel(&id).unwrap();
    assert_eq!(again.status, TaskStatus::Cancelled);
    assert_eq!(store.pending_count(), 0);
}

#[test]
fn failing_a_waiting_task_records_the_failure_only() {
    let mut store = Clocked::with_defaults();
    let id = waiting(&mut store, TimeoutAction::Deny);
    let failure = FailureInfo {
        stage: FailureStage::UpstreamError,
        reason: "down".to_string(),
        retriable: true,
    };
    assert!(matches!(
        store.fail(&id, failure),
        Err(TaskError::InvalidTransition { from: TaskStatus::InputRequired, .. })
    ));
    let task = store.get(&id).unwrap();
    assert_eq!(task.status, TaskStatus::InputRequired);
    assert_eq!(task.failure.as_ref().unwrap().reason, "down");
    assert_eq!(store.pending_count(), 1);
}

#[test]
fn late_results_are_noted() {
    let mut store = Clocked::with_defaults();
    let id = waiting(&mut store, TimeoutAction::Approve);
    store.sleep(Duration::from_secs(601));
    assert_eq!(store.expire_overdue(), 1);
    let approval = ApprovalRecord {
        decision: ApprovalDecision::Approved,
        decided_by: "system".to_string(),
        decided_at: store.now,
        approval_valid_until: store.now,
        metadata: None,
    };
    let result = ToolCallResult { content: json("[1]"), is_error: false };
    store.store.record_auto_approve_result(&id, result, approval, store.now).unwrap();
    let task = store.get(&id).unwrap();
    assert_eq!(task.status, TaskStatus::Expired);
    assert_eq!(task.result.as_ref().unwrap().content, json("[1]"));
    assert_eq!(task.transitions.len(), 3);
}

#[test]
fn waiting_for_the_end() {
    let mut store = Clocked::with_defaults();
    let id = waiting(&mut store, TimeoutAction::Deny);
    let deadline = store.now.plus(Duration::from_secs(10));
    match store.store.wait_step(&id, store.now, deadline, false) {
        WaitStep::Wait(d) => assert_eq!(d, Duration::from_secs(10)),
        WaitStep::Over(_) => panic!("expected to wait"),
    }
    assert!(matches!(
        store.store.wait_step(&id, deadline, deadline, false),
        WaitStep::Over(Err(TaskError::ResultNotReady { .. }))
    ));
    store.cancel(&id).unwrap();
    match store.store.wait_step(&id, deadline, deadline, true) {
        WaitStep::Over(Ok(task)) => assert_eq!(task.status, TaskStatus::Cancelled),
        _ => panic!("expected the wait to be over"),
    }
    assert!(matches!(
        store.store.wait_step(&"none".to_string(), store.now, deadline, false),
        WaitStep::Over(Err(TaskError::NotFound { .. }))
    ));
}

#[test]
fn newest_tasks_come_first() {
    let mut store = Clocked::with_defaults();
    let mut ids = vec![];
    for _ in 0..3 {
        ids.push(waiting(&mut store, TimeoutAction::Deny));
        store.sleep(Duration::from_secs(1));
    }
    let listed: Vec<String> = store
        .list_for_principal(&test_principal(), 0, 2)
        .iter()
        .map(|t| t.id.clone())
        .collect();
    assert_eq!(listed, vec![ids[2].clone(), ids[1].clone()]);
}

#[test]
fn expired_exactly_after_the_deadline() {
    let mut tasks = Clocked::with_defaults();
    let task = tasks
        .create(
            test_request(),
            test_request(),
            test_principal(),
            Some(Duration::from_secs(60)),
            TimeoutAction::Deny,
        )
        .unwrap();
    assert!(!task.is_expired(task.expires_at));
    assert!(task.is_expired(task.expires_at.plus(Duration { nanos: 1 })));
    assert_eq!(task.remaining_ttl(start()), Duration::from_secs(60));
    tasks.now = task.expires_at;
    assert_eq!(tasks.expire_overdue(), 0);
    tasks.sleep(Duration { nanos: 1 });
    assert_eq!(tasks.expire_overdue(), 1);
    assert_eq!(tasks.expire_overdue(), 0);
}

#[test]
fn principals_do_not_share_their_limits() {
    let config = TaskStoreConfig { max_pending_per_principal: 1, ..TaskStoreConfig::default() };
    let mut tasks = Clocked::new(config);
    let create = |tasks: &mut Clocked, name: &str| {
        tasks.create(
            test_request(),
            test_request(),
            Principal::new(name),
            None,
            TimeoutAction::Deny,
        )
    };
    let mine = create(&mut tasks, "mine").unwrap();
    assert!(matches!(create(&mut tasks, "mine"), Err(TaskError::RateLimited { .. })));
    create(&mut tasks, "theirs").unwrap();
    tasks.transition(&mine.id, TaskStatus::InputRequired, None).unwrap();
    tasks.cancel(&mine.id).unwrap();
    create(&mut tasks, "mine").unwrap();
    assert!(matches!(create(&mut tasks, "theirs"), Err(TaskError::RateLimited { .. })));
}

#[test]
fn sweeps_leave_ended_tasks_alone() {
    let mut tasks = Clocked::with_defaults();
    let task = tasks
        .create(test_request(), test_request(), test_principal(), None, TimeoutAction::Deny)
        .unwrap();
    tasks.transition(&task.id, TaskStatus::InputRequired, None).unwrap();
    tasks.cancel(&task.id).unwrap();
    let before = tasks.get(&task.id).unwrap();
    assert_eq!(tasks.fail_all_pending("stop"), 0);
    tasks.sleep(Duration::from_secs(2_592_001));
    assert_eq!(tasks.expire_overdue(), 0);
    let after = tasks.get(&task.id).unwrap();
    assert_eq!(before.status, after.status);
    assert_eq!(before.transitions.len(), after.transitions.len());
    assert_eq!(tasks.cleanup_terminal(), 1);
    assert!(matches!(tasks.get(&task.id), Err(TaskError::NotFound { .. })));
}

#[test]
fn principals_from_policies() {
    let roles = vec!["admin".to_string()];
    let principal = Principal::from_policy("app", "ns", "sa", roles.clone());
    assert_eq!(principal.app_name, "app");
    assert_eq!(principal.namespace, "ns");
    assert_eq!(principal.service_account, "sa");
    assert_eq!(principal.roles, roles);
    assert_eq!(principal.user_id, None);
}

#[test]
fn task_errors_are_told() {
    let err: TaskError = TaskError::Expired { task_id: "t".to_string() };
    assert!(err.message().contains('t'));
}

#[test]
fn shutdown_fails_tasks_that_await_approval() {
    let mut tasks = Clocked::with_defaults();
    let mut ids = vec![];
    for _ in 0..3 {
        let task = tasks
            .create(test_request(), test_request(), test_principal(), None, TimeoutAction::Deny)
            .unwrap();
        ids.push(task.id.clone());
    }
    tasks.transition(&ids[0], TaskStatus::InputRequired, None).unwrap();
    tasks.transition(&ids[1], TaskStatus::InputRequired, None).unwrap();
    tasks.transition(&ids[1], TaskStatus::Executing, None).unwrap();
    assert_eq!(tasks.fail_all_pending("bye"), 3);
    for id in &ids {
        let task = tasks.get(id).unwrap();
        assert_eq!(task.status, TaskStatus::Failed);
        assert_eq!(task.failure.as_ref().unwrap().stage, FailureStage::ServiceShutdown);
        assert_eq!(task.transitions.last().unwrap().to, TaskStatus::Failed);
    }
    assert_eq!(tasks.pending_count(), 0);
    assert_eq!(tasks.fail_all_pending("bye"), 0);
}

#[test]
fn late_failures_are_noted() {
    let mut tasks = Clocked::with_defaults();
    let task = tasks
        .create(test_request(), test_request(), test_principal(), None, TimeoutAction::Approve)
        .unwrap();
    tasks.transition(&task.id, TaskStatus::Expired, None).unwrap();
    let failure = FailureInfo {
        stage: FailureStage::UpstreamError,
        reason: "boom".to_string(),
        retriable: false,
    };
    tasks.store.record_auto_approve_failure(&task.id, failure.clone(), tasks.now).unwrap();
    let task = tasks.get(&task.id).unwrap();
    assert_eq!(task.status, TaskStatus::Expired);
    assert_eq!(task.failure.as_ref().unwrap().reason, "boom");
    assert!(task.approval.is_none());
    assert!(matches!(
        tasks.store.record_auto_approve_failure(&"no".to_string(), failure, tasks.now),
        Err(TaskError::NotFound { .. })
    ));
}

#[test]
fn hashes_tell_requests_apart() {
    let call = |method: &str, name: &str, arguments: &str| {
        let request = ToolCallRequest {
            method: method.to_string(),
            name: name.to_string(),
            arguments: json(arguments),
            mcp_request_id: JsonRpcId::Null,
        };
        hash_request(&request).unwrap()
    };
    let base = call("tools/call", "x", r#"{"a": 1, "b": [true]}"#);
    assert_eq!(base.len(), 64);
    assert!(base.chars().all(|c| c.is_ascii_digit() || ('a'..='f').contains(&c)));
    assert_eq!(base, call("tools/call", "x", r#"{"b": [true], "a": 1}"#));
    for other in [
        call("resources/read", "x", r#"{"a": 1, "b": [true]}"#),
        call("tools/call", "y", r#"{"a": 1, "b": [true]}"#),
        call("tools/call", "x", r#"{"a": 1.0, "b": [true]}"#),
        call("tools/call", "x", r#"{"a": "1", "b": [true]}"#),
        call("tools/call", "x", r#"{"a": 1, "b": true}"#),
    ] {
        assert_ne!(base, other);
    }
}

#[test]
fn string_literals_escape_what_json_asks_for() {
    let mut text = String::new();
    let mut expected = String::from("\"");
    for n in 0u8..=0x7f {
        let c = n as char;
        text.push(c);
        match c {
            '"' => expected.push_str("\\\""),
            '\\' => expected.push_str("\\\\"),
            '\u{8}' => expected.push_str("\\b"),
            '\t' => expected.push_str("\\t"),
            '\n' => expected.push_str("\\n"),
            '\u{c}' => expected.push_str("\\f"),
            '\r' => expected.push_str("\\r"),
            _ if n < 0x20 => expected.push_str(&format!("\\u{:04x}", n)),
            _ => expected.push(c),
        }
    }
    for c in ['\u{80}', '\u{e9}', '\u{2028}', '\u{1f600}'] {
        text.push(c);
        expected.push(c);
    }
    expected.push('"');
    assert_eq!(canonical_json(&Json::String(text)).unwrap(), expected);
}

#[test]
fn rate_limit_keys_tell_principals_apart() {
    let key = |app: &str, user: Option<&str>, session: Option<&str>| {
        let mut principal = Principal::new(app);
        principal.user_id = user.map(str::to_string);
        principal.session_id = session.map(str::to_string);
        principal.rate_limit_key()
    };
    let keys = [
        key("a", None, None),
        key("a", Some("b"), None),
        key("a", None, Some("b")),
        key("a", Some("b"), Some("c")),
        key("a", Some("b"), Some("c:d")),
        key("a", Some(""), None),
        key("ab", None, None),
    ];
    assert_eq!(keys, ["a", "a:b", "a::b", "a:b:c", "a:b:c:d", "a:", "ab"]);
    for (i, one) in keys.iter().enumerate() {
        assert!(keys.iter().skip(i + 1).all(|other| other != one), "{one}");
    }
    // A colon in a name, or a session of a user without a name, can be mistaken.
    assert_eq!(key("a:b", None, None), key("a", Some("b"), None));
    assert_eq!(key("a", Some(""), Some("b")), key("a", None, Some("b")));
}

#[test]
fn trails_hold_at_most_three_entries() {
    let paths: [&[TaskStatus]; 4] = [
        &[TaskStatus::InputRequired, TaskStatus::Executing, TaskStatus::Completed],
        &[TaskStatus::InputRequired, TaskStatus::Executing, TaskStatus::Failed],
        &[TaskStatus::InputRequired, TaskStatus::Expired],
        &[TaskStatus::Failed],
    ];
    let all = [
        TaskStatus::Working,
        TaskStatus::InputRequired,
        TaskStatus::Executing,
        TaskStatus::Completed,
        TaskStatus::Failed,
        TaskStatus::Rejected,
        TaskStatus::Cancelled,
        TaskStatus::Expired,
    ];
    for path in paths {
        let mut task = Task::new(
            fresh_id(),
            test_request(),
            test_request(),
            test_principal(),
            Duration::from_secs(600),
            TimeoutAction::default(),
            start(),
        )
        .unwrap();
        for status in path {
            task.transition(*status, None, start()).unwrap();
        }
        assert!(all.iter().all(|to| task.transition(*to, None, start()).is_err()));
        assert_eq!(task.transitions.len(), path.len());
        assert!(task.transitions.len() <= 3);
    }
}
