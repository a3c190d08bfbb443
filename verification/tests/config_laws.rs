//! What holds of every configuration, on examples.

use thoughtgate_core::config::error::{ConfigError, ValidationWarning};
use thoughtgate_core::config::loader::load_and_validate;
use thoughtgate_core::config::schema::{
    Action, ApprovalDestination, BatchConfig, CedarConfig, Config, ExposeConfig, Governance,
    GovernanceDefaults, HumanWorkflow, Rule, Source, SourceFilter, TelemetryYamlConfig,
};
use thoughtgate_core::config::validate::{validate, Version};
use thoughtgate_core::text_map::TextMap;
use thoughtgate_core::time::Duration;

fn strings(texts: &[&str]) -> Vec<String> {
    texts.iter().map(|t| t.to_string()).collect()
}

fn source(id: &str, prefix: Option<&str>, expose: Option<ExposeConfig>) -> Source {
    Source::Mcp {
        id: id.to_string(),
        url: "http://localhost:8080".to_string(),
        prefix: prefix.map(String::from),
        expose,
        enabled: true,
    }
}

fn rule(pattern: &str, action: Action) -> Rule {
    Rule {
        pattern: pattern.to_string(),
        action,
        source: None,
        policy_id: None,
        approval: None,
        description: None,
        compiled_pattern: None,
    }
}

fn config(sources: Vec<Source>, rules: Vec<Rule>) -> Config {
    Config {
        schema: 1,
        sources,
        governance: Governance {
            defaults: GovernanceDefaults { action: Action::Forward },
            rules,
        },
        approval: None,
        cedar: None,
        telemetry: None,
    }
}

fn workflow(timeout: Option<u64>, blocking_timeout: Option<u64>) -> HumanWorkflow {
    HumanWorkflow {
        destination: ApprovalDestination::Slack {
            channel: "#approvals".to_string(),
            token_env: None,
            mention: None,
        },
        timeout: timeout.map(Duration::from_secs),
        blocking_timeout: blocking_timeout.map(Duration::from_secs),
        on_timeout: None,
    }
}

fn workflows(entries: Vec<(&str, HumanWorkflow)>) -> Option<TextMap<HumanWorkflow>> {
    let mut map = TextMap::new();
    for (name, workflow) in entries {
        map.insert(name.to_string(), workflow);
    }
    Some(map)
}

fn later() -> Version {
    Version { major: 0, minor: 3, patch: 0 }
}

fn error(config: &Config, version: Version) -> ConfigError {
    validate(config, version, &vec![]).unwrap_err()
}

fn valid() -> Config {
    let exposed = ExposeConfig::Allowlist {
        tools: strings(&["read_*", "delete_user"]),
        compiled_tools: vec![],
    };
    config(
        vec![source("upstream", None, Some(exposed))],
        vec![rule("delete_*", Action::Deny), rule("*", Action::Forward)],
    )
}

#[test]
fn source_errors_are_told() {
    let err = error(&config(vec![source("", None, None)], vec![]), Version::v0_2());
    assert!(matches!(&err, ConfigError::InvalidSourceId { id, .. } if id.is_empty()));
    assert_eq!(err.message(), "invalid source ID '': source ID must not be empty");
    let err = error(&config(vec![source(" a", None, None)], vec![]), Version::v0_2());
    assert!(matches!(&err, ConfigError::InvalidSourceId { id, .. } if id == " a"));
    let err = error(&config(vec![source("a b", None, None)], vec![]), Version::v0_2());
    assert!(
        matches!(&err, ConfigError::InvalidSourceId { reason, .. } if reason.contains("only"))
    );
    let two = vec![source("a", Some("p_"), None), source("b", Some("p_"), None)];
    let err = error(&config(two, vec![]), later());
    assert!(matches!(&err, ConfigError::DuplicatePrefix { prefix } if prefix == "p_"));
}

#[test]
fn rule_errors_are_told() {
    let mut c = valid();
    c.governance.rules = vec![rule("*", Action::Approve)];
    let err = error(&c, Version::v0_2());
    assert!(
        matches!(&err, ConfigError::MissingApprovalWorkflow { workflow_count, .. }
            if *workflow_count == 0)
    );
    c.approval = workflows(vec![("a", workflow(None, None)), ("b", workflow(None, None))]);
    let err = error(&c, Version::v0_2());
    assert!(
        matches!(&err, ConfigError::MissingApprovalWorkflow { workflow_count, .. }
            if *workflow_count == 2)
    );
    c.approval = workflows(vec![("a", workflow(None, None))]);
    assert!(validate(&c, Version::v0_2(), &vec![]).is_ok());
    let mut filtered = rule("*", Action::Forward);
    filtered.source = Some(SourceFilter::Multiple(strings(&["upstream", "nowhere"])));
    c.governance.rules = vec![filtered];
    let err = error(&c, Version::v0_2());
    assert!(
        matches!(&err, ConfigError::UndefinedSourceInRule { source_id, pattern }
            if source_id == "nowhere" && pattern == "*")
    );
}

#[test]
fn settings_errors_are_told() {
    let mut c = valid();
    c.approval = workflows(vec![("w", workflow(Some(4), None))]);
    assert!(matches!(
        error(&c, Version::v0_2()),
        ConfigError::InvalidWorkflowTimeout { field, duration_secs: 4, .. } if field == "timeout"
    ));
    c.approval = workflows(vec![("w", workflow(Some(5), Some(0)))]);
    assert!(matches!(
        error(&c, Version::v0_2()),
        ConfigError::InvalidWorkflowTimeout { field, duration_secs: 0, .. }
            if field == "blocking_timeout"
    ));
    c.approval = None;
    c.cedar = Some(CedarConfig {
        policies: strings(&["/a.cedar"]),
        schema: Some("/a.cedarschema".to_string()),
    });
    assert!(matches!(
        error(&c, Version::v0_2()),
        ConfigError::PolicyFileNotFound { path } if path == "/a.cedar"
    ));
    assert!(matches!(
        validate(&c, Version::v0_2(), &strings(&["/a.cedar"])).unwrap_err(),
        ConfigError::PolicyFileNotFound { path } if path == "/a.cedarschema"
    ));
    let both = strings(&["/a.cedar", "/a.cedarschema"]);
    assert!(validate(&c, Version::v0_2(), &both).is_ok());
    c.cedar = None;
    let batch = |max_export_batch_size: usize, export_timeout_ms: u64| TelemetryYamlConfig {
        enabled: true,
        otlp: None,
        sampling: None,
        batch: Some(BatchConfig {
            max_queue_size: 10,
            max_export_batch_size,
            scheduled_delay_ms: 100,
            export_timeout_ms,
        }),
        resource: None,
        stdio: None,
    };
    c.telemetry = Some(batch(11, 100));
    assert!(matches!(
        error(&c, Version::v0_2()),
        ConfigError::InvalidExportBatchSize { batch_size: 11, queue_size: 10 }
    ));
    c.telemetry = Some(batch(10, 99));
    assert!(matches!(
        error(&c, Version::v0_2()),
        ConfigError::InvalidExportTimeout { timeout_ms: 99 }
    ));
    c.telemetry = Some(batch(10, 100));
    assert!(validate(&c, Version::v0_2(), &vec![]).is_ok());
}

#[test]
fn errors_of_reading_are_told() {
    let err: ConfigError = ConfigError::V02McpOnly { kind: "grpc".to_string() };
    assert_eq!(err.message(), "v0.2 supports only kind: mcp, found 'grpc'");
    let err: ConfigError = ConfigError::MissingSchemaVersion;
    assert_eq!(err.message(), "missing required field 'schema'");
    let err: ConfigError = ConfigError::ParseError("line 3".to_string());
    assert_eq!(err.message(), "YAML parse error: line 3");
    let err: ConfigError = ConfigError::IoError("denied".to_string());
    assert_eq!(err.message(), "I/O error: denied");
    let warning: ValidationWarning = ValidationWarning::UnsupportedFeature {
        feature: "x".to_string(),
        min_version: "0.3".to_string(),
    };
    assert!(warning.message().contains("0.3"));
    let warning: ValidationWarning = ValidationWarning::MissingEnvVar {
        var: "TOKEN".to_string(),
        field: "token_env".to_string(),
    };
    assert!(warning.message().contains("TOKEN"));
}

#[test]
fn compiling_changes_no_decision() {
    let plain = valid();
    let (compiled, result) = load_and_validate(valid(), Version::v0_2(), &vec![]).unwrap();
    assert!(result.is_clean());
    assert!(compiled.governance.rules.iter().all(|r| r.compiled_pattern.is_some()));
    for tool in ["delete_user", "read_file", "write_file"] {
        let before = plain.governance.evaluate(tool, "upstream");
        let after = compiled.governance.evaluate(tool, "upstream");
        assert_eq!(before.action, after.action);
        assert_eq!(before.matched_rule, after.matched_rule);
        let shown = |c: &Config| c.get_source("upstream").unwrap().expose().is_visible(tool);
        assert_eq!(shown(&plain), shown(&compiled));
    }
}

#[test]
fn refused_configurations_are_not_compiled() {
    let mut c = valid();
    c.governance.rules.push(rule("[", Action::Deny));
    let err = load_and_validate(c, Version::v0_2(), &vec![]).unwrap_err();
    assert!(matches!(err, ConfigError::InvalidGlobPattern { pattern, .. } if pattern == "["));
}

#[test]
fn lists_show_opposite_tools() {
    let tools = || strings(&["read_*", "write_file"]);
    let allow = ExposeConfig::Allowlist { tools: tools(), compiled_tools: vec![] };
    let block = ExposeConfig::Blocklist { tools: tools(), compiled_tools: vec![] };
    for tool in ["read_file", "write_file", "write_files", ""] {
        assert_ne!(allow.is_visible(tool), block.is_visible(tool));
    }
    assert_eq!(allow.patterns().unwrap().len(), 2);
}

#[test]
fn sources_and_workflows_are_found() {
    let mut c = config(vec![source("a", None, None), source("b", None, None)], vec![]);
    assert_eq!(c.primary_source().unwrap().id(), "a");
    assert_eq!(c.get_source("b").unwrap().id(), "b");
    assert!(c.get_source("c").is_none());
    assert!(c.get_workflow("w").is_none());
    c.approval = workflows(vec![("w", workflow(Some(7), None))]);
    assert_eq!(c.get_workflow("w").unwrap().timeout, Some(Duration::from_secs(7)));
    assert!(c.get_workflow("v").is_none());
    c.sources.clear();
    assert!(c.primary_source().is_none());
}

#[test]
fn approvals_need_an_engine() {
    let mut c = valid();
    assert!(!c.requires_approval_engine());
    c.governance.rules.push(rule("x", Action::Policy));
    assert!(c.requires_approval_engine());
    c.governance.rules.pop();
    c.governance.defaults.action = Action::Approve;
    assert!(c.requires_approval_engine());
}
