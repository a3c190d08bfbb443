//! Inspectors and their decisions.

use thoughtgate_core::inspector::{
    Decision, InspectionContext, InspectionError, Inspector, NoOpInspector,
};

fn request() -> InspectionContext {
    InspectionContext::Request {
        method: "POST".to_string(),
        uri: "/api/test".to_string(),
        headers: vec![("content-type".to_string(), "application/json".to_string())],
    }
}

#[test]
fn test_decision_helpers() {
    assert!(Decision::Approve.is_approve());
    assert!(!Decision::Approve.is_modify());
    assert!(!Decision::Approve.is_reject());

    let modify = Decision::Modify(b"test".to_vec());
    assert!(!modify.is_approve());
    assert!(modify.is_modify());
    assert!(!modify.is_reject());

    let reject = Decision::Reject(403);
    assert!(!reject.is_approve());
    assert!(!reject.is_modify());
    assert!(reject.is_reject());
}

#[test]
fn test_inspection_context_request() {
    let ctx = request();

    assert!(ctx.is_request());
    assert!(!ctx.is_response());
    assert_eq!(ctx.method().map(|m| m.as_str()), Some("POST"));
    assert_eq!(ctx.uri().map(|u| u.as_str()), Some("/api/test"));
    assert!(ctx.status().is_none());
    assert!(ctx.headers().iter().any(|h| h.0 == "content-type"));
}

#[test]
fn test_inspection_context_response() {
    let ctx = InspectionContext::Response {
        status: 200,
        headers: vec![("content-type".to_string(), "application/json".to_string())],
    };

    assert!(!ctx.is_request());
    assert!(ctx.is_response());
    assert!(ctx.method().is_none());
    assert!(ctx.uri().is_none());
    assert_eq!(ctx.status(), Some(200));
    assert!(ctx.headers().iter().any(|h| h.0 == "content-type"));
}

#[test]
fn test_noop_inspector() {
    let inspector = NoOpInspector;

    assert_eq!(inspector.name(), "noop");

    let result = inspector.inspect(b"test payload", &request());
    assert!(result.is_ok());
    assert!(result.unwrap().is_approve());
}

/// An inspector that always rejects.
struct RejectingInspector(u16);

impl Inspector for RejectingInspector {
    fn name(&self) -> &'static str {
        "rejecting"
    }

    fn inspect(&self, _body: &[u8], _ctx: &InspectionContext) -> Result<Decision, InspectionError> {
        Ok(Decision::Reject(self.0))
    }
}

#[test]
fn test_rejecting_inspector() {
    let inspector = RejectingInspector(403);
    let result = inspector.inspect(b"", &request()).unwrap();
    assert!(matches!(result, Decision::Reject(403)));
}

/// An inspector that doubles the payload.
struct ModifyingInspector;

impl Inspector for ModifyingInspector {
    fn name(&self) -> &'static str {
        "modifying"
    }

    fn inspect(&self, body: &[u8], _ctx: &InspectionContext) -> Result<Decision, InspectionError> {
        let mut modified = body.to_vec();
        modified.extend_from_slice(body);
        Ok(Decision::Modify(modified))
    }
}

#[test]
fn test_modifying_inspector() {
    let inspector = ModifyingInspector;
    let result = inspector.inspect(b"test", &request()).unwrap();
    match result {
        Decision::Modify(bytes) => {
            assert_eq!(&bytes[..], b"testtest");
        }
        _ => panic!("Expected Modify decision"),
    }
}

#[test]
fn inspection_errors_are_told() {
    let failed: InspectionError =
        InspectionError::Failed { name: "a".to_string(), reason: "b".to_string() };
    assert_eq!(failed.message(), "Inspector 'a' failed: b");
    let panicked: InspectionError = InspectionError::Panicked { name: "a".to_string() };
    assert_eq!(panicked.message(), "Inspector 'a' panicked");
}
