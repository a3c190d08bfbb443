//! Approval adapters, their configuration, and the redaction of arguments.

use serde_json::Value;
use thoughtgate_core::governance::approval::mock::MockAdapter;
use thoughtgate_core::governance::approval::redact::redact_fields;
use thoughtgate_core::governance::approval::types::{
    AdapterError, ApprovalRequest, DecisionMethod, PollDecision, PollingConfig,
};
use thoughtgate_core::governance::task::types::Principal;
use thoughtgate_core::json::{Json, JsonNumber};
use thoughtgate_core::time::{Duration, Timestamp};

/// The value that a JSON text stands for.
fn json(text: &str) -> Json {
    value(&serde_json::from_str(text).unwrap())
}

fn value(v: &Value) -> Json {
    match v {
        Value::Null => Json::Null,
        Value::Bool(b) => Json::Bool(*b),
        Value::Number(n) => Json::Number(match (n.as_i64(), n.as_u64()) {
            (Some(i), _) => JsonNumber::Int(i),
            (None, Some(u)) => JsonNumber::Uint(u),
            (None, None) => JsonNumber::Real(n.to_string()),
        }),
        Value::String(s) => Json::String(s.clone()),
        Value::Array(items) => Json::Array(items.iter().map(value).collect()),
        Value::Object(members) => {
            Json::Object(members.iter().map(|(k, v)| (k.clone(), value(v))).collect())
        }
    }
}

fn now() -> Timestamp {
    Timestamp { nanos: 1_700_000_000_000_000_000 }
}

fn strings(list: &[&str]) -> Vec<String> {
    list.iter().map(|s| s.to_string()).collect()
}

fn make_test_request() -> ApprovalRequest {
    ApprovalRequest {
        task_id: "6f1c2f8e-0000-4000-8000-000000000001".to_string(),
        tool_name: "test_tool".to_string(),
        tool_arguments: json(r#"{"key": "value"}"#),
        principal: Principal::new("test_app"),
        expires_at: now().plus(Duration::from_secs(300)),
        created_at: now(),
        correlation_id: "test-123".to_string(),
        redact_fields: Vec::new(),
    }
}

#[test]
fn test_instant_approve() {
    let mut adapter = MockAdapter::instant_approve();
    let request = make_test_request();

    let reference = adapter.post_approval_request(&request, now()).unwrap();
    assert_eq!(reference.task_id, request.task_id);
    assert_eq!(adapter.post_count(), 1);

    let result = adapter.poll_for_decision(&reference, now()).unwrap();
    assert!(result.is_some());
    let poll_result = result.unwrap();
    assert_eq!(poll_result.decision, PollDecision::Approved);
    assert_eq!(adapter.poll_count(), 1);
}

#[test]
fn test_instant_reject() {
    let mut adapter = MockAdapter::instant_reject();
    let request = make_test_request();

    let reference = adapter.post_approval_request(&request, now()).unwrap();
    let result = adapter.poll_for_decision(&reference, now()).unwrap();

    assert!(result.is_some());
    assert_eq!(result.unwrap().decision, PollDecision::Rejected);
}

#[test]
fn test_delayed_approval() {
    let mut adapter = MockAdapter::new(Duration::from_millis(50), true);
    let request = make_test_request();

    let reference = adapter.post_approval_request(&request, now()).unwrap();

    let result = adapter.poll_for_decision(&reference, now()).unwrap();
    assert!(result.is_none());

    let later = now().plus(Duration::from_millis(60));
    let result = adapter.poll_for_decision(&reference, later).unwrap();
    assert!(result.is_some());
    assert_eq!(result.unwrap().decision, PollDecision::Approved);
}

#[test]
fn test_adapter_name() {
    let adapter = MockAdapter::instant_approve();
    assert_eq!(adapter.name(), "mock");
}

#[test]
fn test_cancel_is_noop() {
    let mut adapter = MockAdapter::instant_approve();
    let request = make_test_request();

    let reference = adapter.post_approval_request(&request, now()).unwrap();

    let result = adapter.cancel_approval(&reference);
    assert!(result.is_ok());
}

#[test]
fn test_reset_counters() {
    let mut adapter = MockAdapter::instant_approve();
    let request = make_test_request();
    for _ in 0..10 {
        let reference = adapter.post_approval_request(&request, now()).unwrap();
        adapter.poll_for_decision(&reference, now()).unwrap();
        adapter.poll_for_decision(&reference, now()).unwrap();
    }
    assert_eq!(adapter.post_count(), 10);
    assert_eq!(adapter.poll_count(), 20);

    adapter.reset_counters();

    assert_eq!(adapter.post_count(), 0);
    assert_eq!(adapter.poll_count(), 0);
}

#[test]
fn mock_adapter_from_texts() {
    let mut adapter = MockAdapter::from_env(Some("2"), Some("FALSE"));
    let reference = adapter.post_approval_request(&make_test_request(), now()).unwrap();
    assert_eq!(reference.next_poll_at, now().plus(Duration::from_secs(2)));
    let result = adapter.poll_for_decision(&reference, reference.next_poll_at).unwrap();
    assert_eq!(result.unwrap().decision, PollDecision::Rejected);
    let mut other = MockAdapter::from_env(Some("x"), Some("no"));
    let reference = other.post_approval_request(&make_test_request(), now()).unwrap();
    assert_eq!(reference.next_poll_at, now().plus(Duration::from_secs(5)));
    let result = other.poll_for_decision(&reference, reference.next_poll_at).unwrap();
    assert_eq!(result.unwrap().decision, PollDecision::Approved);
}

#[test]
fn test_decision_method_description() {
    let reaction: DecisionMethod = DecisionMethod::Reaction { emoji: "+1".to_string() };
    assert_eq!(reaction.description(), ":+1: reaction");

    let short_reply: DecisionMethod = DecisionMethod::Reply { text: "approved".to_string() };
    assert_eq!(short_reply.description(), "reply \"approved\"");

    let long_reply: DecisionMethod = DecisionMethod::Reply {
        text: "This is a very long reply that should be truncated".to_string(),
    };
    assert!(long_reply.description().ends_with("...\""));
    assert_eq!(long_reply.description(), "reply \"This is a very long reply that...\"");
}

#[test]
fn test_adapter_error_retriable() {
    let failed: AdapterError =
        AdapterError::PostFailed { reason: "timeout".to_string(), retriable: true };
    assert!(failed.is_retriable());

    let failed: AdapterError =
        AdapterError::PostFailed { reason: "invalid".to_string(), retriable: false };
    assert!(!failed.is_retriable());

    let limited: AdapterError =
        AdapterError::RateLimited { retry_after: Duration::from_secs(60) };
    assert!(limited.is_retriable());

    let token: AdapterError = AdapterError::InvalidToken;
    assert!(!token.is_retriable());
    let channel: AdapterError = AdapterError::ChannelNotFound { channel: "#foo".to_string() };
    assert!(!channel.is_retriable());
}

#[test]
fn test_polling_config_default() {
    let config = PollingConfig::default();
    assert_eq!(config.base_interval, Duration::from_secs(5));
    assert_eq!(config.max_interval, Duration::from_secs(30));
    assert_eq!(config.max_concurrent, 100);
}

#[test]
fn test_polling_config_backoff() {
    let config = PollingConfig::default();

    assert_eq!(config.backoff_interval(0), Duration::from_secs(5));
    assert_eq!(config.backoff_interval(1), Duration::from_secs(10));
    assert_eq!(config.backoff_interval(2), Duration::from_secs(20));
    // 40 seconds, but no more than 30.
    assert_eq!(config.backoff_interval(3), Duration::from_secs(30));
    assert_eq!(config.backoff_interval(10), Duration::from_secs(30));
}

#[test]
fn test_redact_top_level_field() {
    let value = json(r#"{"password": "secret", "user": "admin"}"#);
    let result = redact_fields(&value, &strings(&["password"]));
    assert_eq!(result.get("password"), Some(&json(r#""[REDACTED]""#)));
    assert_eq!(result.get("user"), Some(&json(r#""admin""#)));
}

#[test]
fn test_redact_nested_field() {
    let value = json(r#"{"credentials": {"api_key": "sk-123", "region": "us-east-1"}}"#);
    let result = redact_fields(&value, &strings(&["credentials.api_key"]));
    let credentials = result.get("credentials").unwrap();
    assert_eq!(credentials.get("api_key"), Some(&json(r#""[REDACTED]""#)));
    assert_eq!(credentials.get("region"), Some(&json(r#""us-east-1""#)));
}

#[test]
fn test_redact_missing_field_is_noop() {
    let value = json(r#"{"user": "admin"}"#);
    let result = redact_fields(&value, &strings(&["password"]));
    assert_eq!(result, value);
}

#[test]
fn test_redact_empty_config_is_noop() {
    let value = json(r#"{"password": "secret"}"#);
    let result = redact_fields(&value, &strings(&[]));
    assert_eq!(result, value);
}

#[test]
fn test_redact_multiple_fields() {
    let value = json(r#"{"password": "secret", "api_key": "sk-123", "name": "test"}"#);
    let result = redact_fields(&value, &strings(&["password", "api_key"]));
    assert_eq!(result.get("password"), Some(&json(r#""[REDACTED]""#)));
    assert_eq!(result.get("api_key"), Some(&json(r#""[REDACTED]""#)));
    assert_eq!(result.get("name"), Some(&json(r#""test""#)));
}

#[test]
fn test_redact_deeply_nested() {
    let value = json(r#"{"a": {"b": {"c": "deep_secret"}}}"#);
    let result = redact_fields(&value, &strings(&["a.b.c"]));
    assert_eq!(result, json(r#"{"a": {"b": {"c": "[REDACTED]"}}}"#));
}

#[test]
fn test_redact_missing_intermediate_is_noop() {
    let value = json(r#"{"a": {"x": "value"}}"#);
    let result = redact_fields(&value, &strings(&["a.b.c"]));
    assert_eq!(result, value);
}

#[test]
fn log_shows_no_arguments() {
    let logged = make_test_request().for_log();
    assert_eq!(logged.tool_arguments, Json::String("[REDACTED]".to_string()));
    assert_eq!(logged.tool_name, "test_tool");
}

#[test]
fn adapter_errors_are_told() {
    let limited: AdapterError =
        AdapterError::RateLimited { retry_after: Duration::from_millis(1500) };
    assert!(limited.message().contains("1.5s"), "{}", limited.message());
}

#[test]
fn redacting_twice_changes_nothing_more() {
    let value = json(r#"{"password": "x", "a": {"b": {"c": 1}, "d": 2}}"#);
    let fields = strings(&["password", "a.b", "a.b.c"]);
    let once = redact_fields(&value, &fields);
    assert_eq!(once.get("password"), Some(&json(r#""[REDACTED]""#)));
    assert_eq!(once.get("a").unwrap().get("b"), Some(&json(r#""[REDACTED]""#)));
    assert_eq!(once.get("a").unwrap().get("d"), Some(&json("2")));
    assert_eq!(redact_fields(&once, &fields), once);
}

#[test]
fn listed_fields_show_nothing_of_their_values() {
    let fields = strings(&["password", "a.b", "a.b.c", "list"]);
    let one = json(r#"{"password": "x", "a": {"b": {"c": 1}, "d": 2}, "list": [1], "z": 0}"#);
    let other = json(r#"{"password": {"k": 9}, "a": {"b": 7, "d": 2}, "list": "y", "z": 0}"#);
    let seen = redact_fields(&one, &fields);
    assert_eq!(redact_fields(&other, &fields), seen);
    let expected = r#"{"password": "[REDACTED]", "a": {"b": "[REDACTED]", "d": 2},
        "list": "[REDACTED]", "z": 0}"#;
    assert_eq!(seen, json(expected));
    let elsewhere = json(r#"{"password": "x", "a": {"b": 7, "d": 3}, "list": [1], "z": 0}"#);
    assert_ne!(redact_fields(&elsewhere, &fields), seen);
}

#[test]
fn redaction_adds_no_key() {
    let value = json(r#"{"a": {"x": 1}, "p": "q"}"#);
    let fields = strings(&["secret", "a.b.c", "p.q", "", "a."]);
    assert_eq!(redact_fields(&value, &fields), value);
    let named = json(r#"{"": 1, "a": {"": {"b": 2}}}"#);
    assert_eq!(
        redact_fields(&named, &strings(&["", "a..b"])),
        json(r#"{"": "[REDACTED]", "a": {"": {"b": "[REDACTED]"}}}"#)
    );
}
