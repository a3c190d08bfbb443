//! Classification of JSON-RPC messages.

use serde_json::Value;
use thoughtgate_core::governance::task::types::JsonRpcId;
use thoughtgate_core::json::{Json, JsonNumber};
use thoughtgate_core::jsonrpc::{classify_jsonrpc, JsonRpcClassifyError, JsonRpcMessageKind};

/// The value that a JSON text stands for.
fn json(text: &str) -> Json {
    value(&serde_json::from_str(text).unwrap())
}

fn value(v: &Value) -> Json {
    match v {
        Value::Null => Json::Null,
        Value::Bool(b) => Json::Bool(*b),
        Value::Number(n) => Json::Number(match (n.as_i64(), n.as_u64()) {
            (Some(i), _) => JsonNumber::Int(i),
            (None, Some(u)) => JsonNumber::Uint(u),
            (None, None) => JsonNumber::Real(n.to_string()),
        }),
        Value::String(s) => Json::String(s.clone()),
        Value::Array(items) => Json::Array(items.iter().map(value).collect()),
        Value::Object(members) => {
            Json::Object(members.iter().map(|(k, v)| (k.clone(), value(v))).collect())
        }
    }
}

#[test]
fn test_classify_request() {
    let val = json(r#"{"jsonrpc": "2.0", "id": 1, "method": "tools/call", "params": {}}"#);
    let kind = classify_jsonrpc(&val).unwrap();
    assert_eq!(
        kind,
        JsonRpcMessageKind::Request {
            id: JsonRpcId::Number(1),
            method: "tools/call".to_string()
        }
    );
}

#[test]
fn test_classify_response() {
    let val = json(r#"{"jsonrpc": "2.0", "id": 1, "result": {}}"#);
    let kind = classify_jsonrpc(&val).unwrap();
    assert_eq!(
        kind,
        JsonRpcMessageKind::Response {
            id: JsonRpcId::Number(1)
        }
    );
}

#[test]
fn test_classify_notification() {
    let val = json(r#"{"jsonrpc": "2.0", "method": "initialized"}"#);
    let kind = classify_jsonrpc(&val).unwrap();
    assert_eq!(
        kind,
        JsonRpcMessageKind::Notification {
            method: "initialized".to_string()
        }
    );
}

#[test]
fn test_classify_missing_version() {
    let val = json(r#"{"id": 1, "method": "x"}"#);
    let err = classify_jsonrpc(&val).unwrap_err();
    assert!(matches!(err, JsonRpcClassifyError::InvalidVersion));
}

#[test]
fn test_classify_wrong_version() {
    let val = json(r#"{"jsonrpc": "1.0", "id": 1, "method": "x"}"#);
    let err = classify_jsonrpc(&val).unwrap_err();
    assert!(matches!(err, JsonRpcClassifyError::InvalidVersion));
}

#[test]
fn test_classify_unclassifiable() {
    let val = json(r#"{"jsonrpc": "2.0"}"#);
    let err = classify_jsonrpc(&val).unwrap_err();
    assert!(matches!(err, JsonRpcClassifyError::Unclassifiable));
}

#[test]
fn test_classify_integer_id() {
    let val = json(r#"{"jsonrpc": "2.0", "id": 42, "method": "ping"}"#);
    let kind = classify_jsonrpc(&val).unwrap();
    assert_eq!(
        kind,
        JsonRpcMessageKind::Request {
            id: JsonRpcId::Number(42),
            method: "ping".to_string()
        }
    );
}

#[test]
fn test_classify_string_id() {
    let val = json(r#"{"jsonrpc": "2.0", "id": "abc-123", "method": "ping"}"#);
    let kind = classify_jsonrpc(&val).unwrap();
    assert_eq!(
        kind,
        JsonRpcMessageKind::Request {
            id: JsonRpcId::String("abc-123".to_string()),
            method: "ping".to_string()
        }
    );
}

#[test]
fn test_classify_null_id() {
    // null id with no method = response (unusual but valid per JSON-RPC 2.0)
    let val = json(r#"{"jsonrpc": "2.0", "id": null, "result": "ok"}"#);
    let kind = classify_jsonrpc(&val).unwrap();
    assert_eq!(
        kind,
        JsonRpcMessageKind::Response {
            id: JsonRpcId::Null
        }
    );
}

#[test]
fn test_classify_error_response() {
    let val = json(r#"{
        "jsonrpc": "2.0",
        "id": 5,
        "error": {"code": -32600, "message": "Invalid Request"}
    }"#);
    let kind = classify_jsonrpc(&val).unwrap();
    assert_eq!(
        kind,
        JsonRpcMessageKind::Response {
            id: JsonRpcId::Number(5)
        }
    );
}

#[test]
fn test_classify_invalid_id_type() {
    // boolean id is invalid per JSON-RPC 2.0
    let val = json(r#"{"jsonrpc": "2.0", "id": true, "method": "x"}"#);
    let err = classify_jsonrpc(&val).unwrap_err();
    assert!(matches!(err, JsonRpcClassifyError::InvalidId));
}

#[test]
fn integers_of_64_bits_are_identifiers() {
    let largest = json(r#"{"jsonrpc": "2.0", "id": 9223372036854775807}"#);
    assert_eq!(
        classify_jsonrpc(&largest).unwrap(),
        JsonRpcMessageKind::Response { id: JsonRpcId::Number(i64::MAX) }
    );
    let larger = json(r#"{"jsonrpc": "2.0", "id": 9223372036854775808}"#);
    assert_eq!(classify_jsonrpc(&larger).unwrap_err(), JsonRpcClassifyError::InvalidId);
    let real = json(r#"{"jsonrpc": "2.0", "id": 1.5}"#);
    assert_eq!(classify_jsonrpc(&real).unwrap_err(), JsonRpcClassifyError::InvalidId);
}

#[test]
fn classification_errors_are_told() {
    assert_eq!(
        JsonRpcClassifyError::InvalidVersion.message(),
        "missing or invalid jsonrpc version field"
    );
    assert_eq!(JsonRpcClassifyError::InvalidId.message(), "invalid id field");
    assert_eq!(
        JsonRpcClassifyError::Unclassifiable.message(),
        "message has neither id nor method"
    );
}
