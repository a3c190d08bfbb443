//! Validation of configurations.

use serde_json::Value;
use thoughtgate_core::config::error::{ConfigError, ValidationResult, ValidationWarning};
use thoughtgate_core::config::schema::{
    Action, ApprovalDestination, BatchConfig, CedarConfig, Config, ExposeConfig, Governance,
    GovernanceDefaults, HumanWorkflow, OtlpConfig, Rule, SampleRate, SamplingConfig, Source,
    SourceFilter, TelemetryYamlConfig, TimeoutAction,
};
use thoughtgate_core::config::validate::{validate, Version};
use thoughtgate_core::text::blank;
use thoughtgate_core::text_map::TextMap;
use thoughtgate_core::time::Duration;

/// The text at a key.
fn text(v: &Value, key: &str) -> Option<String> {
    v.get(key).and_then(|x| x.as_str()).map(String::from)
}

/// A length of time such as `10m`.
fn length(text: &str) -> Duration {
    let (number, unit) = text.split_at(text.len() - 1);
    let n: u64 = number.parse().unwrap();
    match unit {
        "s" => Duration::from_secs(n),
        "m" => Duration::from_secs(n * 60),
        "h" => Duration::from_secs(n * 3600),
        _ => panic!("unknown unit in {text}"),
    }
}

fn texts(v: &Value) -> Vec<String> {
    v.as_array()
        .unwrap()
        .iter()
        .map(|x| x.as_str().unwrap().to_string())
        .collect()
}

fn action(v: &Value) -> Action {
    match text(v, "action").unwrap().as_str() {
        "forward" => Action::Forward,
        "approve" => Action::Approve,
        "deny" => Action::Deny,
        "policy" => Action::Policy,
        other => panic!("unknown action {other}"),
    }
}

fn expose(v: &Value) -> ExposeConfig {
    let tools = v.get("tools").map(texts).unwrap_or_default();
    match text(v, "mode").unwrap().as_str() {
        "all" => ExposeConfig::All,
        "allowlist" => ExposeConfig::Allowlist { tools, compiled_tools: vec![] },
        "blocklist" => ExposeConfig::Blocklist { tools, compiled_tools: vec![] },
        other => panic!("unknown mode {other}"),
    }
}

fn source(v: &Value) -> Source {
    Source::Mcp {
        id: text(v, "id").unwrap(),
        url: text(v, "url").unwrap(),
        prefix: text(v, "prefix"),
        expose: v.get("expose").map(expose),
        enabled: v.get("enabled").and_then(|x| x.as_bool()).unwrap_or(true),
    }
}

fn rule(v: &Value) -> Rule {
    Rule {
        pattern: text(v, "match").unwrap(),
        action: action(v),
        source: v.get("source").map(|s| match s.as_str() {
            Some(one) => SourceFilter::Single(one.to_string()),
            None => SourceFilter::Multiple(texts(s)),
        }),
        policy_id: text(v, "policy_id"),
        approval: text(v, "approval"),
        description: text(v, "description"),
        compiled_pattern: None,
    }
}

fn workflow(v: &Value) -> HumanWorkflow {
    let d = v.get("destination").unwrap();
    HumanWorkflow {
        destination: ApprovalDestination::Slack {
            channel: text(d, "channel").unwrap(),
            token_env: text(d, "token_env"),
            mention: d.get("mention").map(texts),
        },
        timeout: text(v, "timeout").map(|t| length(&t)),
        blocking_timeout: text(v, "blocking_timeout").map(|t| length(&t)),
        on_timeout: text(v, "on_timeout").map(|t| match t.as_str() {
            "approve" => TimeoutAction::Approve,
            _ => TimeoutAction::Deny,
        }),
    }
}

fn map_of(v: &Value) -> TextMap<String> {
    let mut map = TextMap::new();
    for (key, value) in v.as_object().unwrap() {
        map.insert(key.clone(), value.as_str().unwrap().to_string());
    }
    map
}

fn telemetry(v: &Value) -> TelemetryYamlConfig {
    TelemetryYamlConfig {
        enabled: v.get("enabled").and_then(|x| x.as_bool()).unwrap_or(false),
        otlp: v.get("otlp").map(|o| OtlpConfig {
            endpoint: text(o, "endpoint").unwrap(),
            protocol: text(o, "protocol")
                .unwrap_or_else(thoughtgate_core::config::defaults::default_otlp_protocol),
            headers: o.get("headers").map(map_of).unwrap_or_else(TextMap::new),
        }),
        sampling: v.get("sampling").map(|s| {
            let default = SamplingConfig::default();
            SamplingConfig {
                strategy: text(s, "strategy").unwrap_or(default.strategy),
                success_sample_rate: match s.get("success_sample_rate") {
                    Some(r) => SampleRate { bits: r.as_f64().unwrap().to_bits() },
                    None => default.success_sample_rate,
                },
            }
        }),
        batch: v.get("batch").map(|b| {
            let default = BatchConfig::default();
            let size = |key: &str, or: usize| match b.get(key) {
                Some(n) => n.as_u64().unwrap() as usize,
                None => or,
            };
            let millis = |key: &str, or: u64| match b.get(key) {
                Some(n) => n.as_u64().unwrap(),
                None => or,
            };
            BatchConfig {
                max_queue_size: size("max_queue_size", default.max_queue_size),
                max_export_batch_size: size("max_export_batch_size", default.max_export_batch_size),
                scheduled_delay_ms: millis("scheduled_delay_ms", default.scheduled_delay_ms),
                export_timeout_ms: millis("export_timeout_ms", default.export_timeout_ms),
            }
        }),
        resource: v.get("resource").map(map_of),
        stdio: None,
    }
}

/// The configuration that a YAML text stands for.
fn config_from(yaml: &str) -> Config {
    let v: Value = serde_saphyr::from_str(yaml).unwrap();
    let g = v.get("governance").unwrap();
    Config {
        schema: v.get("schema").unwrap().as_u64().unwrap() as u32,
        sources: v.get("sources").unwrap().as_array().unwrap().iter().map(source).collect(),
        governance: Governance {
            defaults: GovernanceDefaults { action: action(g.get("defaults").unwrap()) },
            rules: match g.get("rules") {
                Some(r) => r.as_array().unwrap().iter().map(rule).collect(),
                None => vec![],
            },
        },
        approval: v.get("approval").map(|a| {
            let mut map = TextMap::new();
            for (name, w) in a.as_object().unwrap() {
                map.insert(name.clone(), workflow(w));
            }
            map
        }),
        cedar: v.get("cedar").map(|c| CedarConfig {
            policies: texts(c.get("policies").unwrap()),
            schema: text(c, "schema"),
        }),
        telemetry: v.get("telemetry").map(telemetry),
    }
}

const MINIMAL_CONFIG: &str = r#"
schema: 1

sources:
  - id: upstream
    kind: mcp
    url: http://mcp-server:8080

governance:
  defaults:
    action: forward
"#;

#[test]
fn test_validate_minimal_config() {
    let config = config_from(MINIMAL_CONFIG);
    let result = validate(&config, Version::v0_2(), &vec![]);
    assert!(result.is_ok());
}

#[test]
fn test_validate_no_sources() {
    let yaml = r#"
schema: 1
sources: []
governance:
  defaults:
    action: forward
"#;
    let config = config_from(yaml);
    let result = validate(&config, Version::v0_2(), &vec![]);
    assert!(matches!(result, Err(ConfigError::NoSourcesDefined)));
}

#[test]
fn test_validate_reserved_prefix() {
    let yaml = r#"
schema: 1
sources:
  - id: _internal
    kind: mcp
    url: http://localhost:8080
governance:
  defaults:
    action: forward
"#;
    let config = config_from(yaml);
    let result = validate(&config, Version::v0_2(), &vec![]);
    assert!(matches!(result, Err(ConfigError::ReservedPrefix { .. })));
}

#[test]
fn test_validate_missing_policy_id() {
    let yaml = r#"
schema: 1
sources:
  - id: upstream
    kind: mcp
    url: http://localhost:8080
governance:
  defaults:
    action: forward
  rules:
    - match: "test_*"
      action: policy
"#;
    let config = config_from(yaml);
    let result = validate(&config, Version::v0_2(), &vec![]);
    assert!(matches!(result, Err(ConfigError::MissingPolicyId { .. })));
}

#[test]
fn test_validate_undefined_workflow() {
    let yaml = r#"
schema: 1
sources:
  - id: upstream
    kind: mcp
    url: http://localhost:8080
governance:
  defaults:
    action: forward
  rules:
    - match: "test_*"
      action: approve
      approval: nonexistent
"#;
    let config = config_from(yaml);
    let result = validate(&config, Version::v0_2(), &vec![]);
    assert!(matches!(result, Err(ConfigError::UndefinedWorkflow { .. })));
}

/// Regression test: "default" workflow name is NOT special-cased.
/// If a rule references `approval: default`, a workflow named "default" must be
/// explicitly defined in the approval section.
#[test]
fn test_validate_default_workflow_must_be_defined() {
    let yaml = r#"
schema: 1
sources:
  - id: upstream
    kind: mcp
    url: http://localhost:8080
governance:
  defaults:
    action: forward
  rules:
    - match: "test_*"
      action: approve
      approval: default
"#;
    let config = config_from(yaml);
    let result = validate(&config, Version::v0_2(), &vec![]);
    // Should fail because "default" workflow is not defined in approval section
    assert!(
        matches!(result, Err(ConfigError::UndefinedWorkflow { ref workflow, .. }) if workflow == "default"),
        "Expected UndefinedWorkflow error for 'default', got: {:?}",
        result
    );
}

#[test]
fn test_validate_invalid_glob_pattern() {
    let yaml = r#"
schema: 1
sources:
  - id: upstream
    kind: mcp
    url: http://localhost:8080
governance:
  defaults:
    action: forward
  rules:
    - match: "[invalid"
      action: deny
"#;
    let config = config_from(yaml);
    let result = validate(&config, Version::v0_2(), &vec![]);
    assert!(matches!(
        result,
        Err(ConfigError::InvalidGlobPattern { .. })
    ));
}

#[test]
fn test_validate_invalid_expose_pattern() {
    let yaml = r#"
schema: 1
sources:
  - id: upstream
    kind: mcp
    url: http://localhost:8080
    expose:
      mode: allowlist
      tools:
        - "[invalid"
governance:
  defaults:
    action: forward
"#;
    let config = config_from(yaml);
    let result = validate(&config, Version::v0_2(), &vec![]);
    assert!(matches!(
        result,
        Err(ConfigError::InvalidGlobPattern { .. })
    ));
}

#[test]
fn test_validate_invalid_url() {
    let yaml = r#"
schema: 1
sources:
  - id: upstream
    kind: mcp
    url: not-a-valid-url
governance:
  defaults:
    action: forward
"#;
    let config = config_from(yaml);
    let result = validate(&config, Version::v0_2(), &vec![]);
    assert!(matches!(result, Err(ConfigError::InvalidUrl { .. })));
}

#[test]
fn test_validate_policy_id_warning() {
    let yaml = r#"
schema: 1
sources:
  - id: upstream
    kind: mcp
    url: http://localhost:8080
governance:
  defaults:
    action: forward
  rules:
    - match: "test_*"
      action: forward
      policy_id: some_policy
"#;
    let config = config_from(yaml);
    let result = validate(&config, Version::v0_2(), &vec![]).unwrap();
    assert!(!result.is_clean());
    assert!(matches!(
        &result.warnings[0],
        ValidationWarning::PolicyIdWithoutPolicyAction { .. }
    ));
}

#[test]
fn test_unsupported_schema_version() {
    let yaml = r#"
schema: 2
sources:
  - id: upstream
    kind: mcp
    url: http://localhost:8080
governance:
  defaults:
    action: forward
"#;
    let config = config_from(yaml);
    let result = validate(&config, Version::v0_2(), &vec![]);
    assert!(matches!(
        result,
        Err(ConfigError::UnsupportedSchemaVersion { version: 2 })
    ));
}

fn config_with_telemetry(telemetry_yaml: &str) -> String {
    format!(
        r#"
schema: 1
sources:
  - id: upstream
    kind: mcp
    url: http://mcp-server:8080
governance:
  defaults:
    action: forward
telemetry:
{telemetry_yaml}
"#
    )
}

#[test]
fn test_telemetry_invalid_sample_rate_too_high() {
    let yaml = config_with_telemetry(
        r#"  sampling:
    success_sample_rate: 1.5"#,
    );
    let config = config_from(&yaml);
    let result = validate(&config, Version::v0_2(), &vec![]);
    assert!(matches!(result, Err(ConfigError::InvalidSampleRate { .. })));
}

#[test]
fn test_telemetry_invalid_sample_rate_negative() {
    let yaml = config_with_telemetry(
        r#"  sampling:
    success_sample_rate: -0.1"#,
    );
    let config = config_from(&yaml);
    let result = validate(&config, Version::v0_2(), &vec![]);
    assert!(matches!(result, Err(ConfigError::InvalidSampleRate { .. })));
}

#[test]
fn test_telemetry_valid_sample_rate_boundaries() {
    for rate in &["0.0", "0.5", "1.0"] {
        let yaml = config_with_telemetry(&format!(
            r#"  sampling:
    success_sample_rate: {rate}"#
        ));
        let config = config_from(&yaml);
        let result = validate(&config, Version::v0_2(), &vec![]);
        assert!(result.is_ok(), "rate {rate} should be valid");
    }
}

#[test]
fn test_telemetry_invalid_otlp_endpoint() {
    let yaml = config_with_telemetry(
        r#"  otlp:
    endpoint: "not a url""#,
    );
    let config = config_from(&yaml);
    let result = validate(&config, Version::v0_2(), &vec![]);
    assert!(matches!(
        result,
        Err(ConfigError::InvalidOtlpEndpoint { .. })
    ));
}

#[test]
fn test_telemetry_valid_otlp_endpoint() {
    let yaml = config_with_telemetry(
        r#"  otlp:
    endpoint: "http://otel-collector:4318""#,
    );
    let config = config_from(&yaml);
    let result = validate(&config, Version::v0_2(), &vec![]);
    assert!(result.is_ok());
}

#[test]
fn test_telemetry_unknown_protocol() {
    let yaml = config_with_telemetry(
        r#"  otlp:
    endpoint: "http://otel-collector:4318"
    protocol: "thrift""#,
    );
    let config = config_from(&yaml);
    let result = validate(&config, Version::v0_2(), &vec![]);
    assert!(matches!(
        result,
        Err(ConfigError::UnknownOtlpProtocol { .. })
    ));
}

#[test]
fn test_telemetry_valid_protocols() {
    for protocol in &["http/protobuf", "grpc"] {
        let yaml = config_with_telemetry(&format!(
            r#"  otlp:
    endpoint: "http://otel-collector:4318"
    protocol: "{protocol}""#
        ));
        let config = config_from(&yaml);
        let result = validate(&config, Version::v0_2(), &vec![]);
        assert!(result.is_ok(), "protocol {protocol} should be valid");
    }
}

#[test]
fn test_telemetry_unknown_sampling_strategy() {
    let yaml = config_with_telemetry(
        r#"  sampling:
    strategy: "random""#,
    );
    let config = config_from(&yaml);
    let result = validate(&config, Version::v0_2(), &vec![]);
    assert!(matches!(
        result,
        Err(ConfigError::UnknownSamplingStrategy { .. })
    ));
}

#[test]
fn test_telemetry_invalid_queue_size() {
    let yaml = config_with_telemetry(
        r#"  batch:
    max_queue_size: 0"#,
    );
    let config = config_from(&yaml);
    let result = validate(&config, Version::v0_2(), &vec![]);
    assert!(matches!(result, Err(ConfigError::InvalidQueueSize { .. })));
}

#[test]
fn test_telemetry_invalid_batch_delay() {
    let yaml = config_with_telemetry(
        r#"  batch:
    scheduled_delay_ms: 50"#,
    );
    let config = config_from(&yaml);
    let result = validate(&config, Version::v0_2(), &vec![]);
    assert!(matches!(result, Err(ConfigError::InvalidBatchDelay { .. })));
}

#[test]
fn test_telemetry_valid_batch_delay_boundary() {
    let yaml = config_with_telemetry(
        r#"  batch:
    scheduled_delay_ms: 100"#,
    );
    let config = config_from(&yaml);
    let result = validate(&config, Version::v0_2(), &vec![]);
    assert!(result.is_ok());
}

#[test]
fn test_per_workflow_slack_warning() {
    let yaml = r##"
schema: 1
sources:
  - id: upstream
    kind: mcp
    url: http://mcp-server:8080
governance:
  defaults:
    action: forward
  rules:
    - match: "delete_*"
      action: approve
      approval: custom
approval:
  custom:
    destination:
      type: slack
      channel: "#custom-channel"
      token_env: CUSTOM_TOKEN
      mention:
        - "@oncall"
    timeout: 5m
"##;
    let config = config_from(yaml);
    let result = validate(&config, Version::v0_2(), &vec![]).unwrap();
    assert!(!result.is_clean());
    assert!(result.warnings.iter().any(|w| matches!(
        w,
        ValidationWarning::PerWorkflowSlackNotSupported { workflow } if workflow == "custom"
    )));
}

#[test]
fn test_per_workflow_slack_no_warning_default() {
    let yaml = r##"
schema: 1
sources:
  - id: upstream
    kind: mcp
    url: http://mcp-server:8080
governance:
  defaults:
    action: forward
  rules:
    - match: "delete_*"
      action: approve
      approval: default
approval:
  default:
    destination:
      type: slack
      channel: "#approvals"
    timeout: 5m
"##;
    let config = config_from(yaml);
    let result = validate(&config, Version::v0_2(), &vec![]).unwrap();
    assert!(
        !result
            .warnings
            .iter()
            .any(|w| matches!(w, ValidationWarning::PerWorkflowSlackNotSupported { .. })),
        "No per-workflow Slack warning expected for default channel"
    );
}

#[test]
fn test_approve_no_workflow_zero_defined() {
    let yaml = r#"
schema: 1
sources:
  - id: upstream
    kind: mcp
    url: http://mcp-server:8080
governance:
  defaults:
    action: forward
  rules:
    - match: "delete_*"
      action: approve
"#;
    let config = config_from(yaml);
    let result = validate(&config, Version::v0_2(), &vec![]);
    assert!(result.is_err());
    let err = result.unwrap_err().message();
    assert!(
        err.contains("0 workflows"),
        "Should mention 0 workflows, got: {err}"
    );
}

#[test]
fn test_approve_no_workflow_multi_defined() {
    let yaml = r##"
schema: 1
sources:
  - id: upstream
    kind: mcp
    url: http://mcp-server:8080
governance:
  defaults:
    action: forward
  rules:
    - match: "delete_*"
      action: approve
approval:
  fast:
    destination:
      type: slack
      channel: "#approvals"
    timeout: 1m
  slow:
    destination:
      type: slack
      channel: "#approvals"
    timeout: 30m
"##;
    let config = config_from(yaml);
    let result = validate(&config, Version::v0_2(), &vec![]);
    assert!(result.is_err());
    let err = result.unwrap_err().message();
    assert!(
        err.contains("2 workflows"),
        "Should mention 2 workflows, got: {err}"
    );
}

#[test]
fn test_approve_no_workflow_single_defined() {
    let yaml = r##"
schema: 1
sources:
  - id: upstream
    kind: mcp
    url: http://mcp-server:8080
governance:
  defaults:
    action: forward
  rules:
    - match: "delete_*"
      action: approve
approval:
  default:
    destination:
      type: slack
      channel: "#approvals"
    timeout: 5m
"##;
    let config = config_from(yaml);
    let result = validate(&config, Version::v0_2(), &vec![]);
    assert!(
        result.is_ok(),
        "Single workflow should allow implicit selection, got: {:?}",
        result.unwrap_err()
    );
}

#[test]
fn test_zero_timeout_rejected() {
    let yaml = r##"
schema: 1
sources:
  - id: upstream
    kind: mcp
    url: http://mcp-server:8080
governance:
  defaults:
    action: forward
approval:
  default:
    destination:
      type: slack
      channel: "#approvals"
    timeout: 0s
"##;
    let config = config_from(yaml);
    let result = validate(&config, Version::v0_2(), &vec![]);
    assert!(result.is_err());
    let err = result.unwrap_err().message();
    assert!(err.contains("0s"), "Should mention 0s timeout, got: {err}");
}

#[test]
fn test_small_timeout_rejected() {
    let yaml = r##"
schema: 1
sources:
  - id: upstream
    kind: mcp
    url: http://mcp-server:8080
governance:
  defaults:
    action: forward
approval:
  default:
    destination:
      type: slack
      channel: "#approvals"
    timeout: 3s
"##;
    let config = config_from(yaml);
    let result = validate(&config, Version::v0_2(), &vec![]);
    assert!(result.is_err());
    let err = result.unwrap_err().message();
    assert!(err.contains("3s"), "Should mention 3s timeout, got: {err}");
}

#[test]
fn test_minimum_timeout_accepted() {
    let yaml = r##"
schema: 1
sources:
  - id: upstream
    kind: mcp
    url: http://mcp-server:8080
governance:
  defaults:
    action: forward
approval:
  default:
    destination:
      type: slack
      channel: "#approvals"
    timeout: 5s
"##;
    let config = config_from(yaml);
    let result = validate(&config, Version::v0_2(), &vec![]);
    assert!(
        result.is_ok(),
        "5s timeout should be accepted, got: {:?}",
        result.unwrap_err()
    );
}

#[test]
fn test_undefined_source_in_rule_rejected() {
    let yaml = r#"
schema: 1
sources:
  - id: upstream
    kind: mcp
    url: http://mcp-server:8080
governance:
  defaults:
    action: forward
  rules:
    - match: "delete_*"
      action: deny
      source: nonexistent-server
"#;
    let config = config_from(yaml);
    let result = validate(&config, Version::v0_2(), &vec![]);
    assert!(result.is_err());
    let err = result.unwrap_err().message();
    assert!(
        err.contains("nonexistent-server"),
        "Should mention undefined source, got: {err}"
    );
}

#[test]
fn test_valid_source_in_rule_accepted() {
    let yaml = r#"
schema: 1
sources:
  - id: upstream
    kind: mcp
    url: http://mcp-server:8080
governance:
  defaults:
    action: forward
  rules:
    - match: "delete_*"
      action: deny
      source: upstream
"#;
    let config = config_from(yaml);
    let result = validate(&config, Version::v0_2(), &vec![]);
    assert!(
        result.is_ok(),
        "Valid source reference should be accepted, got: {:?}",
        result.unwrap_err()
    );
}

#[test]
fn test_cedar_schema_path_validated() {
    let yaml = r#"
schema: 1
sources:
  - id: upstream
    kind: mcp
    url: http://mcp-server:8080
governance:
  defaults:
    action: forward
cedar:
  policies: []
  schema: /nonexistent/path/to/schema.cedarschema
"#;
    let config = config_from(yaml);
    let result = validate(&config, Version::v0_2(), &vec![]);
    assert!(result.is_err());
    let err = result.unwrap_err().message();
    assert!(
        err.contains("not found"),
        "Should mention file not found, got: {err}"
    );
}

#[test]
fn test_empty_source_id() {
    let yaml = r#"
schema: 1
sources:
  - id: ""
    kind: mcp
    url: http://mcp-server:8080
governance:
  defaults:
    action: forward
"#;
    let config = config_from(yaml);
    let result = validate(&config, Version::v0_2(), &vec![]);
    assert!(result.is_err());
    let err = result.unwrap_err().message();
    assert!(
        err.contains("empty"),
        "Should mention empty source ID, got: {err}"
    );
}

#[test]
fn test_special_char_source_id() {
    let yaml = r#"
schema: 1
sources:
  - id: "up stream!"
    kind: mcp
    url: http://mcp-server:8080
governance:
  defaults:
    action: forward
"#;
    let config = config_from(yaml);
    let result = validate(&config, Version::v0_2(), &vec![]);
    assert!(result.is_err());
    let err = result.unwrap_err().message();
    assert!(
        err.contains("[a-zA-Z0-9._-]"),
        "Should mention valid characters, got: {err}"
    );
}

#[test]
fn test_valid_source_id_with_dots() {
    let yaml = r#"
schema: 1
sources:
  - id: my.mcp-server_01
    kind: mcp
    url: http://mcp-server:8080
governance:
  defaults:
    action: forward
"#;
    let config = config_from(yaml);
    let result = validate(&config, Version::v0_2(), &vec![]);
    assert!(
        result.is_ok(),
        "Dotted source ID should be valid, got: {:?}",
        result.unwrap_err()
    );
}

#[test]
fn test_batch_export_size_zero() {
    let yaml = r#"
schema: 1
sources:
  - id: upstream
    kind: mcp
    url: http://mcp-server:8080
governance:
  defaults:
    action: forward
telemetry:
  enabled: true
  batch:
    max_queue_size: 2048
    max_export_batch_size: 0
"#;
    let config = config_from(yaml);
    let result = validate(&config, Version::v0_2(), &vec![]);
    assert!(result.is_err());
    let err = result.unwrap_err().message();
    assert!(
        err.contains("max_export_batch_size"),
        "Should mention batch size, got: {err}"
    );
}

#[test]
fn test_batch_export_size_exceeds_queue() {
    let yaml = r#"
schema: 1
sources:
  - id: upstream
    kind: mcp
    url: http://mcp-server:8080
governance:
  defaults:
    action: forward
telemetry:
  enabled: true
  batch:
    max_queue_size: 100
    max_export_batch_size: 200
"#;
    let config = config_from(yaml);
    let result = validate(&config, Version::v0_2(), &vec![]);
    assert!(result.is_err());
    let err = result.unwrap_err().message();
    assert!(
        err.contains("max_export_batch_size"),
        "Should mention batch exceeds queue, got: {err}"
    );
}

#[test]
fn test_batch_export_timeout_small() {
    let yaml = r#"
schema: 1
sources:
  - id: upstream
    kind: mcp
    url: http://mcp-server:8080
governance:
  defaults:
    action: forward
telemetry:
  enabled: true
  batch:
    export_timeout_ms: 50
"#;
    let config = config_from(yaml);
    let result = validate(&config, Version::v0_2(), &vec![]);
    assert!(result.is_err());
    let err = result.unwrap_err().message();
    assert!(
        err.contains("export_timeout_ms"),
        "Should mention timeout, got: {err}"
    );
}

/// Two sources with the same ID are refused where more than one source is
/// allowed; version 0.2 allows one only.
#[test]
fn test_validate_duplicate_source_id() {
    let yaml = r#"
schema: 1
sources:
  - id: upstream
    kind: mcp
    url: http://localhost:8080
  - id: upstream
    kind: mcp
    url: http://localhost:8081
governance:
  defaults:
    action: forward
"#;
    let config = config_from(yaml);
    let later = Version { major: 0, minor: 3, patch: 0 };
    assert!(matches!(
        validate(&config, Version::v0_2(), &vec![]),
        Err(ConfigError::V02SingleSourceOnly { .. })
    ));
    assert!(matches!(
        validate(&config, later, &vec![]),
        Err(ConfigError::DuplicateSourceId { ref id }) if id == "upstream"
    ));
}

#[test]
fn test_config_error_display() {
    let err: ConfigError = ConfigError::DuplicateSourceId { id: "upstream".to_string() };
    assert_eq!(err.message(), "duplicate source ID: 'upstream'");
}

#[test]
fn test_validation_warning_display() {
    let warn: ValidationWarning =
        ValidationWarning::PolicyIdWithoutPolicyAction { pattern: "test_*".to_string() };
    assert_eq!(warn.message(), "rule 'test_*' has policy_id but action is not 'policy'");
}

#[test]
fn test_validation_result() {
    let result = ValidationResult::ok();
    assert!(result.is_clean());

    let result_with_warnings =
        ValidationResult::with_warnings(vec![ValidationWarning::PatternMatchesNothing {
            pattern: "foo_*".to_string(),
        }]);
    assert!(!result_with_warnings.is_clean());
}

#[test]
fn white_space_is_what_unicode_says() {
    let ranges = [
        ('\t', '\r'),
        (' ', ' '),
        ('\u{85}', '\u{85}'),
        ('\u{a0}', '\u{a0}'),
        ('\u{1680}', '\u{1680}'),
        ('\u{2000}', '\u{200a}'),
        ('\u{2028}', '\u{2029}'),
        ('\u{202f}', '\u{202f}'),
        ('\u{205f}', '\u{205f}'),
        ('\u{3000}', '\u{3000}'),
    ];
    for c in '\0'..=char::MAX {
        let listed = ranges.iter().any(|(from, to)| *from <= c && c <= *to);
        assert_eq!(blank(&c.to_string()), listed, "{:x}", c as u32);
    }
    assert!(blank(""));
    assert!(!blank(" x "));
}
