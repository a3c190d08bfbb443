//! Loading of policies and of the schema.

use thoughtgate_core::policy::loader::{
    embedded_default_policies, embedded_schema, load_policies, load_policies_with_config,
    load_schema, load_schema_with_config, policy_file_path, schema_file_path, PolicyError,
    PolicySource, ReadFile,
};
use thoughtgate_core::time::Timestamp;

const PERMIT: &str = "permit(principal, action, resource);";

fn now() -> Timestamp {
    Timestamp { nanos: 1_700_000_000_000_000_000 }
}

fn missing(path: &str) -> ReadFile {
    ReadFile {
        path: path.to_string(),
        exists: false,
        content: Err("No such file or directory".to_string()),
    }
}

fn unreadable(path: &str) -> ReadFile {
    ReadFile { path: path.to_string(), exists: true, content: Err("Permission denied".to_string()) }
}

fn holding(path: &str, content: &str) -> ReadFile {
    ReadFile { path: path.to_string(), exists: true, content: Ok(content.to_string()) }
}

#[test]
fn test_load_policies_embedded() {
    let (policies, source) = load_policies(&missing("/etc/x"), None, now()).unwrap();
    assert!(!policies.is_empty());
    assert!(matches!(source, PolicySource::Embedded));
}

#[test]
fn test_load_policies_from_env() {
    let (policies, source) = load_policies(&missing("/etc/x"), Some(PERMIT), now()).unwrap();
    assert_eq!(policies, "permit(principal, action, resource);");
    assert!(matches!(source, PolicySource::Environment { .. }));
}

#[test]
fn test_load_schema_embedded() {
    let schema = load_schema(&missing("/etc/thoughtgate/schema.cedarschema")).unwrap();
    assert!(!schema.is_empty());
    assert!(schema.contains("namespace ThoughtGate"));
}

#[test]
fn test_embedded_policies_not_empty() {
    let policies = embedded_default_policies();
    assert!(!policies.is_empty());
}

#[test]
fn test_embedded_schema_not_empty() {
    let schema = embedded_schema();
    assert!(!schema.is_empty());
    assert!(schema.contains("namespace ThoughtGate"));
}

#[test]
fn test_ec_pol_004_configmap_exists() {
    let (policies, source) = load_policies(&holding("/tmp/p.cedar", PERMIT), None, now()).unwrap();
    assert_eq!(policies, PERMIT);
    assert_eq!(
        source,
        PolicySource::ConfigMap { path: "/tmp/p.cedar".to_string(), loaded_at: now() }
    );
}

#[test]
fn test_ec_pol_005_env_fallback() {
    let file = missing("/nonexistent/path/policy.cedar");
    let (policies, source) = load_policies(&file, Some(PERMIT), now()).unwrap();
    assert_eq!(policies, "permit(principal, action, resource);");
    assert!(matches!(source, PolicySource::Environment { .. }));
}

#[test]
fn test_load_policies_with_config_paths() {
    let file = missing("/nonexistent/path/policy.cedar");
    let configured = vec![holding("/tmp/cfg.cedar", PERMIT)];
    let (policies, source) = load_policies_with_config(&file, None, &configured, now()).unwrap();
    assert_eq!(policies, "permit(principal, action, resource);");
    assert!(matches!(source, PolicySource::ConfigMap { .. }));
}

#[test]
fn test_load_policies_env_overrides_config() {
    let file = missing("/nonexistent/path/policy.cedar");
    let configured = vec![holding("/tmp/cfg.cedar", "forbid(principal, action, resource);")];
    let (policies, source) =
        load_policies_with_config(&file, Some(PERMIT), &configured, now()).unwrap();
    assert_eq!(policies, "permit(principal, action, resource);");
    assert!(matches!(source, PolicySource::Environment { .. }));
}

#[test]
fn test_load_policies_config_when_no_env() {
    let file = missing("/nonexistent/path/policy.cedar");
    let configured = vec![
        holding("/tmp/1.cedar", "// policy file 1\n"),
        holding("/tmp/2.cedar", "// policy file 2\n"),
    ];
    let (policies, source) = load_policies_with_config(&file, None, &configured, now()).unwrap();
    assert!(policies.contains("policy file 1"));
    assert!(policies.contains("policy file 2"));
    assert_eq!(policies, "// policy file 1\n\n// policy file 2\n");
    assert_eq!(
        source,
        PolicySource::ConfigMap { path: "/tmp/1.cedar".to_string(), loaded_at: now() }
    );
}

#[test]
fn test_ec_pol_006_embedded_fallback() {
    let file = missing("/nonexistent/path/policy.cedar");
    let (policies, source) = load_policies(&file, None, now()).unwrap();
    assert!(!policies.is_empty());
    assert!(matches!(source, PolicySource::Embedded));
    assert!(policies.contains("Forward"));
    assert!(policies.contains("Approve"));
}

#[test]
fn test_configmap_exists_but_unreadable_fails_hard() {
    let result = load_policies(&unreadable("/tmp/p.cedar"), None, now());
    assert_eq!(
        result.unwrap_err(),
        PolicyError::PolicyLoadError {
            path: "/tmp/p.cedar".to_string(),
            reason: "Permission denied".to_string(),
        }
    );
}

#[test]
fn test_yaml_path_unreadable_fails_hard() {
    let file = missing("/nonexistent/path/policy.cedar");
    let result =
        load_policies_with_config(&file, None, &vec![unreadable("/tmp/cfg.cedar")], now());
    assert!(result.is_err(), "Should fail when YAML path is unreadable");
    let configured = vec![holding("/tmp/ok.cedar", PERMIT), unreadable("/tmp/cfg.cedar")];
    assert!(load_policies_with_config(&file, None, &configured, now()).is_err());
}

#[test]
fn missing_configured_files_are_passed_over() {
    let file = missing("/nonexistent/path/policy.cedar");
    let none = vec![missing("/tmp/a.cedar")];
    assert_eq!(
        load_policies_with_config(&file, None, &none, now()).unwrap(),
        (embedded_default_policies(), PolicySource::Embedded)
    );
    let some = vec![missing("/tmp/a.cedar"), holding("/tmp/b.cedar", PERMIT)];
    let (policies, source) = load_policies_with_config(&file, None, &some, now()).unwrap();
    assert_eq!(policies, PERMIT);
    assert!(matches!(source, PolicySource::ConfigMap { .. }));
}

#[test]
fn empty_files_fall_back_to_the_default() {
    let file = missing("/nonexistent/path/policy.cedar");
    let configured = vec![holding("/tmp/1.cedar", ""), holding("/tmp/2.cedar", "")];
    let (_, source) = load_policies_with_config(&file, None, &configured, now()).unwrap();
    assert_eq!(source, PolicySource::Embedded);
}

#[test]
fn schema_from_files() {
    let first = holding("/a", "A");
    let second = holding("/b", "B");
    assert_eq!(load_schema_with_config(&first, Some(&second)).unwrap(), "A");
    assert_eq!(load_schema_with_config(&missing("/a"), Some(&second)).unwrap(), "B");
    assert_eq!(
        load_schema_with_config(&missing("/a"), Some(&missing("/b"))).unwrap(),
        embedded_schema()
    );
    assert!(load_schema_with_config(&unreadable("/a"), Some(&second)).is_err());
    assert!(load_schema_with_config(&missing("/a"), Some(&unreadable("/b"))).is_err());
}

#[test]
fn default_paths() {
    assert_eq!(policy_file_path(None), "/etc/thoughtgate/policies.cedar");
    assert_eq!(policy_file_path(Some("/x")), "/x");
    assert_eq!(schema_file_path(None), "/etc/thoughtgate/schema.cedarschema");
    assert_eq!(schema_file_path(Some("/y")), "/y");
}
