//! Capabilities in the answer to `initialize`.

use serde_json::Value;
use thoughtgate_core::json::{Json, JsonNumber};
use thoughtgate_core::protocol::capability::{
    extract_upstream_sse_support, extract_upstream_task_support, inject_sse_capability,
    inject_task_capability, strip_sse_capability, CapabilityCache,
};

/// The value that a JSON text stands for.
fn json(text: &str) -> Json {
    value(&serde_json::from_str(text).unwrap())
}

fn value(v: &Value) -> Json {
    match v {
        Value::Null => Json::Null,
        Value::Bool(b) => Json::Bool(*b),
        Value::Number(n) => Json::Number(match (n.as_i64(), n.as_u64()) {
            (Some(i), _) => JsonNumber::Int(i),
            (None, Some(u)) => JsonNumber::Uint(u),
            (None, None) => JsonNumber::Real(n.to_string()),
        }),
        Value::String(s) => Json::String(s.clone()),
        Value::Array(items) => Json::Array(items.iter().map(value).collect()),
        Value::Object(members) => {
            Json::Object(members.iter().map(|(k, v)| (k.clone(), value(v))).collect())
        }
    }
}

/// What stands at the end of a path.
fn at(value: &Json, path: &[&str]) -> Option<Json> {
    let mut here = value;
    for key in path {
        here = here.get(key)?;
    }
    Some(here.clone())
}

#[test]
fn test_capability_cache_defaults() {
    let cache = CapabilityCache::new();
    assert!(!cache.upstream_supports_tasks());
    assert!(!cache.upstream_supports_task_sse());
    assert!(!cache.has_initialized());
}

#[test]
fn test_capability_cache_set_and_get() {
    let mut cache = CapabilityCache::new();

    cache.set_upstream_supports_tasks(true);
    assert!(cache.upstream_supports_tasks());
    assert!(cache.has_initialized());

    cache.set_upstream_supports_task_sse(true);
    assert!(cache.upstream_supports_task_sse());
}

#[test]
fn test_capability_cache_invalidate() {
    let mut cache = CapabilityCache::new();
    cache.set_upstream_supports_tasks(true);
    cache.set_upstream_supports_task_sse(true);

    cache.invalidate();

    assert!(!cache.upstream_supports_tasks());
    assert!(!cache.upstream_supports_task_sse());
    assert!(!cache.has_initialized());
}

#[test]
fn test_extract_upstream_task_support_present() {
    let result = json(r#"{
        "capabilities": {
            "tasks": {
                "requests": {
                    "tools/call": true
                }
            }
        }
    }"#);
    assert!(extract_upstream_task_support(&result));
}

#[test]
fn test_extract_upstream_task_support_false() {
    let result = json(r#"{
        "capabilities": {
            "tasks": {
                "requests": {
                    "tools/call": false
                }
            }
        }
    }"#);
    assert!(!extract_upstream_task_support(&result));
}

#[test]
fn test_extract_upstream_task_support_absent() {
    let result = json(r#"{
        "capabilities": {
            "tools": {}
        }
    }"#);
    assert!(!extract_upstream_task_support(&result));
}

#[test]
fn test_extract_upstream_task_support_empty() {
    let result = json(r#"{}"#);
    assert!(!extract_upstream_task_support(&result));
}

#[test]
fn test_extract_upstream_sse_support_present() {
    let result = json(r#"{
        "capabilities": {
            "notifications": {
                "tasks": {
                    "status": true
                }
            }
        }
    }"#);
    assert!(extract_upstream_sse_support(&result));
}

#[test]
fn test_extract_upstream_sse_support_absent() {
    let result = json(r#"{
        "capabilities": {
            "notifications": {}
        }
    }"#);
    assert!(!extract_upstream_sse_support(&result));
}

#[test]
fn test_inject_task_capability_empty() {
    let mut result = json(r#"{}"#);
    inject_task_capability(&mut result);

    assert_eq!(at(&result, &["capabilities", "tasks", "requests", "tools/call"]), Some(json(r#"true"#)));
}

#[test]
fn test_inject_task_capability_preserves_existing() {
    let mut result = json(r#"{
        "capabilities": {
            "tools": { "listChanged": true }
        },
        "serverInfo": { "name": "test" }
    }"#);
    inject_task_capability(&mut result);

    // Task capability injected
    assert_eq!(at(&result, &["capabilities", "tasks", "requests", "tools/call"]), Some(json(r#"true"#)));
    // Existing capabilities preserved
    assert_eq!(at(&result, &["capabilities", "tools", "listChanged"]), Some(json(r#"true"#)));
    assert_eq!(at(&result, &["serverInfo", "name"]), Some(json(r#""test""#)));
}

#[test]
fn test_inject_task_capability_overwrites_false() {
    let mut result = json(r#"{
        "capabilities": {
            "tasks": {
                "requests": {
                    "tools/call": false
                }
            }
        }
    }"#);
    inject_task_capability(&mut result);

    assert_eq!(at(&result, &["capabilities", "tasks", "requests", "tools/call"]), Some(json(r#"true"#)));
}

#[test]
fn test_inject_sse_capability() {
    let mut result = json(r#"{}"#);
    inject_sse_capability(&mut result);

    assert_eq!(at(&result, &["capabilities", "notifications", "tasks", "status"]), Some(json(r#"true"#)));
}

#[test]
fn test_inject_sse_capability_preserves_existing() {
    let mut result = json(r#"{
        "capabilities": {
            "notifications": {
                "progress": true
            }
        }
    }"#);
    inject_sse_capability(&mut result);

    // SSE capability injected
    assert_eq!(at(&result, &["capabilities", "notifications", "tasks", "status"]), Some(json(r#"true"#)));
    // Existing notifications preserved
    assert_eq!(at(&result, &["capabilities", "notifications", "progress"]), Some(json(r#"true"#)));
}

#[test]
fn test_inject_both_capabilities() {
    let mut result = json(r#"{
        "protocolVersion": "2024-11-05",
        "serverInfo": {
            "name": "upstream-server",
            "version": "1.0.0"
        }
    }"#);

    inject_task_capability(&mut result);
    inject_sse_capability(&mut result);

    // Both capabilities present
    assert_eq!(at(&result, &["capabilities", "tasks", "requests", "tools/call"]), Some(json(r#"true"#)));
    assert_eq!(at(&result, &["capabilities", "notifications", "tasks", "status"]), Some(json(r#"true"#)));
    // Original fields preserved
    assert_eq!(at(&result, &["protocolVersion"]), Some(json(r#""2024-11-05""#)));
    assert_eq!(at(&result, &["serverInfo", "name"]), Some(json(r#""upstream-server""#)));
}

#[test]
fn test_strip_sse_capability() {
    let mut result = json(r#"{
        "capabilities": {
            "notifications": {
                "tasks": {
                    "status": true
                }
            }
        }
    }"#);

    strip_sse_capability(&mut result);

    // SSE should be removed
    assert!(at(&result, &["capabilities", "notifications", "tasks", "status"]).is_none());
    // Empty objects should be cleaned up
    assert!(at(&result, &["capabilities", "notifications"]).is_none());
}

#[test]
fn test_strip_sse_capability_preserves_other_notifications() {
    let mut result = json(r#"{
        "capabilities": {
            "notifications": {
                "tasks": {
                    "status": true
                },
                "progress": true
            }
        }
    }"#);

    strip_sse_capability(&mut result);

    // SSE should be removed
    assert!(at(&result, &["capabilities", "notifications", "tasks"]).is_none());
    // Other notifications preserved
    assert_eq!(at(&result, &["capabilities", "notifications", "progress"]), Some(json(r#"true"#)));
}

#[test]
fn test_strip_sse_capability_no_sse_present() {
    let mut result = json(r#"{
        "capabilities": {
            "tasks": {
                "requests": {
                    "tools/call": true
                }
            }
        }
    }"#);

    // Should not panic or modify other capabilities
    strip_sse_capability(&mut result);

    // Task capability unchanged
    assert_eq!(at(&result, &["capabilities", "tasks", "requests", "tools/call"]), Some(json(r#"true"#)));
}

#[test]
fn test_strip_sse_capability_empty_result() {
    let mut result = json(r#"{}"#);

    // Should not panic on empty object
    strip_sse_capability(&mut result);

    assert_eq!(result, json("{}"));
}

#[test]
fn written_capability_is_found_and_stripped() {
    let mut result = json(r#"{"capabilities": {"notifications": {"progress": true}}}"#);
    assert!(!extract_upstream_sse_support(&result));
    inject_sse_capability(&mut result);
    assert!(extract_upstream_sse_support(&result));
    inject_task_capability(&mut result);
    assert!(extract_upstream_sse_support(&result));
    assert!(extract_upstream_task_support(&result));
    strip_sse_capability(&mut result);
    assert!(!extract_upstream_sse_support(&result));
    assert!(extract_upstream_task_support(&result));
    assert_eq!(at(&result, &["capabilities", "notifications", "progress"]), Some(json("true")));
}

#[test]
fn what_is_no_object_is_left_alone() {
    for text in ["7", r#"{"capabilities": 7}"#, r#"{"capabilities": {"tasks": []}}"#] {
        let mut result = json(text);
        inject_task_capability(&mut result);
        assert_eq!(result, json(text));
        assert!(!extract_upstream_task_support(&result));
    }
    let mut emptied = json(r#"{"capabilities": {"notifications": {}}}"#);
    strip_sse_capability(&mut emptied);
    assert_eq!(emptied, json(r#"{"capabilities": {}}"#));
}

#[test]
fn written_then_stripped_leaves_what_stripping_leaves() {
    for (before, after) in [
        (r#"{}"#, r#"{"capabilities": {}}"#),
        (r#"{"capabilities": {}}"#, r#"{"capabilities": {}}"#),
        (r#"{"capabilities": {"tools": {}}}"#, r#"{"capabilities": {"tools": {}}}"#),
        (r#"{"capabilities": 7}"#, r#"{"capabilities": 7}"#),
        (r#"{"capabilities": {"notifications": {}}}"#, r#"{"capabilities": {}}"#),
        (
            r#"{"capabilities": {"notifications": {"tasks": {"status": false, "a": 1}}}}"#,
            r#"{"capabilities": {"notifications": {"tasks": {"a": 1}}}}"#,
        ),
        (
            r#"{"capabilities": {"notifications": {"progress": true}}}"#,
            r#"{"capabilities": {"notifications": {"progress": true}}}"#,
        ),
    ] {
        let mut result = json(before);
        inject_sse_capability(&mut result);
        strip_sse_capability(&mut result);
        assert_eq!(result, json(after), "{before}");
    }
}
