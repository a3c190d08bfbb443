//! Sources, exposure, governance rules and the text of a configuration.

use regex::Regex;
use thoughtgate_core::config::duration_format::parse_duration;
use thoughtgate_core::config::error::ConfigError;
use thoughtgate_core::config::loader::{
    default_config_paths, env_references, find_config_file, prepare_contents, substitute_env_vars,
};
use thoughtgate_core::config::schema::{
    Action, ApprovalDestination, ExposeConfig, Governance, GovernanceDefaults, HumanWorkflow, Rule,
    Source, SourceFilter, TimeoutAction,
};
use thoughtgate_core::text_map::TextMap;
use thoughtgate_core::time::Duration;

fn rule(pattern: &str, action: Action) -> Rule {
    Rule {
        pattern: pattern.to_string(),
        action,
        source: None,
        policy_id: None,
        approval: None,
        description: None,
        compiled_pattern: None,
    }
}

#[test]
fn test_source_accessors() {
    let source = Source::Mcp {
        id: "test".to_string(),
        url: "http://localhost:8080".to_string(),
        prefix: Some("test_".to_string()),
        expose: None,
        enabled: true,
    };

    assert_eq!(source.id(), "test");
    assert_eq!(source.url(), "http://localhost:8080");
    assert_eq!(source.prefix(), Some("test_"));
    assert!(source.is_enabled());
    assert_eq!(source.kind(), "mcp");
}

#[test]
fn test_expose_config_all() {
    let expose: ExposeConfig = ExposeConfig::All;
    assert!(expose.is_visible("any_tool"));
    assert!(expose.is_visible("delete_user"));
}

#[test]
fn test_expose_config_allowlist() {
    let expose = ExposeConfig::Allowlist {
        tools: vec!["read_*".to_string(), "list_*".to_string()],
        compiled_tools: vec![],
    };
    assert!(expose.is_visible("read_file"));
    assert!(expose.is_visible("list_users"));
    assert!(!expose.is_visible("delete_user"));
}

#[test]
fn test_expose_config_blocklist() {
    let expose = ExposeConfig::Blocklist {
        tools: vec!["delete_*".to_string(), "*_unsafe".to_string()],
        compiled_tools: vec![],
    };
    assert!(expose.is_visible("read_file"));
    assert!(!expose.is_visible("delete_user"));
    assert!(!expose.is_visible("operation_unsafe"));
}

#[test]
fn test_source_filter_single() {
    let filter = SourceFilter::Single("upstream".to_string());
    assert!(filter.matches("upstream"));
    assert!(!filter.matches("other"));
}

#[test]
fn test_source_filter_multiple() {
    let filter = SourceFilter::Multiple(vec!["source1".to_string(), "source2".to_string()]);
    assert!(filter.matches("source1"));
    assert!(filter.matches("source2"));
    assert!(!filter.matches("source3"));
}

#[test]
fn test_governance_evaluate_first_match() {
    let governance = Governance {
        defaults: GovernanceDefaults { action: Action::Forward },
        rules: vec![
            Rule { approval: Some("default".to_string()), ..rule("delete_*", Action::Approve) },
            rule("*", Action::Deny),
        ],
    };

    let result = governance.evaluate("delete_user", "upstream");
    assert_eq!(result.action, Action::Approve);
    assert_eq!(result.matched_rule, Some("delete_*".to_string()));
}

#[test]
fn test_governance_evaluate_default() {
    let governance = Governance {
        defaults: GovernanceDefaults { action: Action::Forward },
        rules: vec![rule("admin_*", Action::Deny)],
    };

    let result = governance.evaluate("read_file", "upstream");
    assert_eq!(result.action, Action::Forward);
    assert_eq!(result.matched_rule, None);
}

#[test]
fn test_governance_evaluate_source_filter() {
    let governance = Governance {
        defaults: GovernanceDefaults { action: Action::Forward },
        rules: vec![Rule {
            source: Some(SourceFilter::Single("restricted".to_string())),
            ..rule("*", Action::Approve)
        }],
    };

    // The rule matches for the source "restricted".
    let result = governance.evaluate("any_tool", "restricted");
    assert_eq!(result.action, Action::Approve);

    // It does not match for another source.
    let result = governance.evaluate("any_tool", "other");
    assert_eq!(result.action, Action::Forward);
}

#[test]
fn test_action_display() {
    assert_eq!(Action::Forward.to_text(), "forward");
    assert_eq!(Action::Approve.to_text(), "approve");
    assert_eq!(Action::Deny.to_text(), "deny");
    assert_eq!(Action::Policy.to_text(), "policy");
}

#[test]
fn broken_patterns_match_nothing() {
    let allow = ExposeConfig::Allowlist { tools: vec!["[".to_string()], compiled_tools: vec![] };
    assert!(!allow.is_visible("["));
    let block = ExposeConfig::Blocklist { tools: vec!["[".to_string()], compiled_tools: vec![] };
    assert!(block.is_visible("["));
}

#[test]
fn workflow_defaults() {
    let workflow = HumanWorkflow {
        destination: ApprovalDestination::Slack {
            channel: "#approvals".to_string(),
            token_env: None,
            mention: None,
        },
        timeout: None,
        blocking_timeout: None,
        on_timeout: None,
    };
    assert_eq!(workflow.timeout_or_default(), Duration::from_secs(600));
    assert_eq!(workflow.on_timeout_or_default(), TimeoutAction::Deny);
    let given = HumanWorkflow {
        timeout: Some(Duration::from_secs(7)),
        on_timeout: Some(TimeoutAction::Approve),
        ..workflow
    };
    assert_eq!(given.timeout_or_default(), Duration::from_secs(7));
    assert_eq!(given.on_timeout_or_default(), TimeoutAction::Approve);
}

#[test]
fn test_env_var_pattern_compiles() {
    let found = env_references("${A} and ${B:-b}");
    assert_eq!(found.len(), 2);
}

#[test]
fn test_env_var_substitution_required() {
    let mut env = TextMap::new();
    env.insert("TEST_VAR".to_string(), "test_value".to_string());
    let result = substitute_env_vars("url: ${TEST_VAR}", &env).unwrap();
    assert_eq!(result, "url: test_value");
}

#[test]
fn test_env_var_substitution_with_default() {
    let env = TextMap::new();
    let result = substitute_env_vars("url: ${MISSING_VAR:-default_value}", &env).unwrap();
    assert_eq!(result, "url: default_value");
}

#[test]
fn test_env_var_substitution_missing_required() {
    let env = TextMap::new();
    let result = substitute_env_vars("url: ${REQUIRED_VAR}", &env);
    assert!(matches!(result, Err(ConfigError::MissingEnvVar { .. })));
}

/// References are found where the regular expression that describes them matches.
#[test]
fn references_follow_their_expression() {
    let pattern = Regex::new(r"\$\{([A-Za-z_][A-Za-z0-9_]*)(?::-([^}]*))?\}").unwrap();
    let inputs = [
        "",
        "$",
        "${",
        "${}",
        "${A}",
        "${_a9}",
        "${9a}",
        "${A:-}",
        "${A:-x}",
        "${A:-x}}",
        "${A:x}",
        "${A:}",
        "${A-:x}",
        "$${A}",
        "${${A}}",
        "${A${B}",
        "${A:-${B}}",
        "${A:-${B:-c}}",
        "a ${A} b ${B:-2} c ${A}",
        "${A}${B}",
        "${Ä}",
        "${A:-ä\nß}",
        "${A ",
        "${A:- }",
    ];
    for input in inputs {
        let expected: Vec<(String, String, Option<String>)> = pattern
            .captures_iter(input)
            .map(|c| {
                (
                    c.get(0).unwrap().as_str().to_string(),
                    c.get(1).unwrap().as_str().to_string(),
                    c.get(2).map(|m| m.as_str().to_string()),
                )
            })
            .collect();
        let found: Vec<(String, String, Option<String>)> = env_references(input)
            .into_iter()
            .map(|r| (r.full, r.name, r.default))
            .collect();
        assert_eq!(found, expected, "in {input:?}");
    }
}

#[test]
fn search_paths_in_order() {
    assert_eq!(
        default_config_paths(Some("/x.yaml")),
        vec!["/x.yaml", "/etc/thoughtgate/config.yaml", "./config.yaml"]
    );
    assert_eq!(
        default_config_paths(None),
        vec!["/etc/thoughtgate/config.yaml", "./config.yaml"]
    );
    let existing = vec!["./config.yaml".to_string(), "/x.yaml".to_string()];
    assert_eq!(find_config_file(None, Some("/x.yaml"), &existing).unwrap(), "/x.yaml");
    assert_eq!(find_config_file(None, None, &existing).unwrap(), "./config.yaml");
    assert_eq!(find_config_file(Some("/x.yaml"), None, &existing).unwrap(), "/x.yaml");
    match find_config_file(Some("/y.yaml"), None, &existing) {
        Err(ConfigError::ConfigFileNotFound { searched }) => assert_eq!(searched, vec!["/y.yaml"]),
        _ => panic!("expected ConfigFileNotFound"),
    }
    match find_config_file(None, None, &vec![]) {
        Err(ConfigError::ConfigFileNotFound { searched }) => {
            assert_eq!(searched, vec!["/etc/thoughtgate/config.yaml", "./config.yaml"])
        }
        _ => panic!("expected ConfigFileNotFound"),
    }
}

#[test]
fn blank_contents_are_refused() {
    let env = TextMap::new();
    assert!(matches!(prepare_contents(" \n\t\u{a0}", &env), Err(ConfigError::EmptyConfigFile)));
    assert_eq!(prepare_contents("a: ${X:-1}", &env).unwrap(), "a: 1");
}

#[test]
fn durations_are_read_with_their_units() {
    assert_eq!(parse_duration("30s").unwrap(), Duration::from_secs(30));
    assert_eq!(parse_duration("10m").unwrap(), Duration::from_secs(600));
    assert_eq!(parse_duration("2h").unwrap(), Duration::from_secs(7200));
    assert_eq!(parse_duration("0s").unwrap(), Duration::from_secs(0));
    for text in ["", "s", "10", "10d", "-1s", "1.5h", "10 m"] {
        match parse_duration(text) {
            Err(ConfigError::InvalidDuration { value, .. }) => assert_eq!(value, text),
            other => panic!("expected a refusal of {text:?}, got {other:?}"),
        }
    }
}
