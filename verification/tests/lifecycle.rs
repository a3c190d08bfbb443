//! Life cycle, health and readiness.

use thoughtgate_core::lifecycle::health::{health, readiness, ReadinessChecks};
use thoughtgate_core::lifecycle::{
    adjust_drain, validate_environment, DrainResult, LifecycleConfig, LifecycleManager,
    LifecycleState, UpstreamCheck,
};
use thoughtgate_core::time::{Duration, Timestamp};

fn start() -> Timestamp {
    Timestamp { nanos: 1_700_000_000_000_000_000 }
}

fn manager(config: LifecycleConfig) -> LifecycleManager {
    LifecycleManager::new(config, "0.3.0".to_string(), start())
}

#[test]
fn test_lifecycle_state_transitions() {
    let mut lifecycle = manager(LifecycleConfig::default());
    assert_eq!(lifecycle.state(), LifecycleState::Starting);
    assert!(!lifecycle.is_ready());
    assert!(!lifecycle.is_shutting_down());

    lifecycle.mark_ready();
    assert_eq!(lifecycle.state(), LifecycleState::Ready);
    assert!(lifecycle.is_ready());
    assert!(!lifecycle.is_shutting_down());

    lifecycle.begin_shutdown();
    assert_eq!(lifecycle.state(), LifecycleState::ShuttingDown);
    assert!(!lifecycle.is_ready());
    assert!(lifecycle.is_shutting_down());

    lifecycle.mark_stopped();
    assert_eq!(lifecycle.state(), LifecycleState::Stopped);
    assert!(!lifecycle.is_ready());
    assert!(lifecycle.is_shutting_down());
}

#[test]
fn test_request_tracking() {
    let mut lifecycle = manager(LifecycleConfig::default());
    lifecycle.mark_ready();

    assert_eq!(lifecycle.active_request_count(), 0);

    assert!(lifecycle.track_request());
    assert_eq!(lifecycle.active_request_count(), 1);
    lifecycle.end_request();

    assert_eq!(lifecycle.active_request_count(), 0);
}

#[test]
fn test_request_tracking_rejects_during_shutdown() {
    let mut lifecycle = manager(LifecycleConfig::default());
    lifecycle.mark_ready();

    assert!(lifecycle.track_request());
    assert_eq!(lifecycle.active_request_count(), 1);
    lifecycle.end_request();
    assert_eq!(lifecycle.active_request_count(), 0);

    lifecycle.begin_shutdown();
    assert!(!lifecycle.track_request());
    assert_eq!(lifecycle.active_request_count(), 0);
}

#[test]
fn test_multiple_requests() {
    let mut lifecycle = manager(LifecycleConfig::default());
    lifecycle.mark_ready();

    for n in 1..=3 {
        assert!(lifecycle.track_request());
        assert_eq!(lifecycle.active_request_count(), n);
    }
    for n in (0..3).rev() {
        lifecycle.end_request();
        assert_eq!(lifecycle.active_request_count(), n);
    }
}

#[test]
fn test_readiness_checks() {
    let mut lifecycle = manager(LifecycleConfig::default());

    let checks = lifecycle.readiness_checks();
    assert!(!checks.all_pass());
    assert!(!checks.config_loaded);
    assert!(!checks.upstream_reachable);
    assert!(!checks.approval_store_initialized);

    lifecycle.mark_config_loaded();
    let checks = lifecycle.readiness_checks();
    assert!(checks.config_loaded);
    assert!(!checks.all_pass());

    lifecycle.mark_approval_store_initialized();
    let checks = lifecycle.readiness_checks();
    assert!(checks.approval_store_initialized);
    assert!(!checks.all_pass());

    lifecycle.update_upstream_health(true, None, start());
    let checks = lifecycle.readiness_checks();
    assert!(checks.upstream_reachable);
    assert!(checks.all_pass());
}

#[test]
fn mod_test_config_defaults() {
    let config = LifecycleConfig::default();
    assert_eq!(config.shutdown_timeout, Duration::from_secs(30));
    assert_eq!(config.drain_timeout, Duration::from_secs(25));
    assert_eq!(config.startup_timeout, Duration::from_secs(15));
    assert!(!config.require_upstream_at_startup);
    assert_eq!(config.upstream_health_interval, Duration::from_secs(30));
}

#[test]
fn test_uptime() {
    let lifecycle = manager(LifecycleConfig::default());
    assert!(lifecycle.uptime_seconds(start()) < 2);
    assert_eq!(lifecycle.uptime_seconds(start().plus(Duration::from_millis(61_500))), 61);
}

#[test]
fn test_version() {
    let lifecycle = manager(LifecycleConfig::default());
    assert!(!lifecycle.version().is_empty());
}

#[test]
fn test_drain_completes_no_requests() {
    let mut lifecycle = manager(LifecycleConfig::default());
    lifecycle.mark_ready();
    lifecycle.begin_shutdown();

    let deadline = lifecycle.drain_deadline(start());
    assert_eq!(lifecycle.drain_step(deadline, start()), Some(DrainResult::Complete));
}

#[test]
fn test_drain_completes_with_requests() {
    let mut lifecycle = manager(LifecycleConfig {
        drain_timeout: Duration::from_millis(500),
        ..LifecycleConfig::default()
    });
    lifecycle.mark_ready();
    assert!(lifecycle.track_request());
    lifecycle.begin_shutdown();

    let deadline = lifecycle.drain_deadline(start());
    assert_eq!(lifecycle.drain_step(deadline, start()), None);

    lifecycle.end_request();
    let later = start().plus(Duration::from_millis(50));
    assert_eq!(lifecycle.drain_step(deadline, later), Some(DrainResult::Complete));
}

#[test]
fn test_drain_timeout() {
    let mut lifecycle = manager(LifecycleConfig {
        drain_timeout: Duration::from_millis(100),
        ..LifecycleConfig::default()
    });
    lifecycle.mark_ready();
    assert!(lifecycle.track_request());
    lifecycle.begin_shutdown();

    let deadline = lifecycle.drain_deadline(start());
    assert_eq!(lifecycle.drain_step(deadline, deadline), None);
    let after = deadline.plus(Duration::from_millis(1));
    assert!(matches!(
        lifecycle.drain_step(deadline, after),
        Some(DrainResult::Timeout { remaining: 1 })
    ));
}

#[test]
fn test_state_display() {
    assert_eq!(LifecycleState::Starting.to_text(), "starting");
    assert_eq!(LifecycleState::Ready.to_text(), "ready");
    assert_eq!(LifecycleState::ShuttingDown.to_text(), "shutting_down");
    assert_eq!(LifecycleState::Stopped.to_text(), "stopped");
}

#[test]
fn test_validate_env_production_rejects_dev_mode() {
    let result = validate_environment(None, Some("true"), None);
    assert!(result.is_err());
    assert!(result.unwrap_err().contains("DEV_MODE"));
}

#[test]
fn test_validate_env_production_rejects_mock_adapter() {
    let result = validate_environment(None, None, Some("mock"));
    assert!(result.is_err());
    assert!(result.unwrap_err().contains("mock"));
}

#[test]
fn test_validate_env_explicit_production_rejects_dev_mode() {
    assert!(validate_environment(Some("production"), Some("true"), None).is_err());
    assert!(validate_environment(Some("prod"), Some("true"), None).is_err());
    assert!(validate_environment(Some(""), Some("true"), None).is_err());
}

#[test]
fn test_validate_env_development_allows_dev_mode() {
    assert!(validate_environment(Some("development"), Some("true"), None).is_ok());
}

#[test]
fn test_validate_env_development_allows_mock_adapter() {
    assert!(validate_environment(Some("development"), None, Some("mock")).is_ok());
}

#[test]
fn development_features_need_a_name() {
    for name in ["staging", "dev", "Test", "production", " development"] {
        assert!(validate_environment(Some(name), Some("true"), None).is_err());
        assert!(validate_environment(Some(name), None, Some("mock")).is_err());
        assert!(validate_environment(Some(name), Some("false"), Some("slack")).is_ok());
    }
    assert!(validate_environment(Some("test"), Some("true"), Some("mock")).is_ok());
}

#[test]
fn test_validate_env_clean_production_passes() {
    assert!(validate_environment(None, None, None).is_ok());
}

#[test]
fn test_health_during_startup() {
    let lifecycle = manager(LifecycleConfig::default());
    let answer = health(&lifecycle, start()).unwrap();
    assert_eq!(answer.status, "healthy");
    assert_eq!(answer.version, "0.3.0");
    assert_eq!(answer.uptime_seconds, 0);
}

#[test]
fn test_health_when_ready() {
    let mut lifecycle = manager(LifecycleConfig::default());
    lifecycle.mark_ready();
    assert!(health(&lifecycle, start()).is_ok());
}

#[test]
fn test_health_during_shutdown() {
    let mut lifecycle = manager(LifecycleConfig::default());
    lifecycle.mark_ready();
    lifecycle.begin_shutdown();
    assert!(health(&lifecycle, start()).is_ok());
}

#[test]
fn test_health_when_stopped() {
    let mut lifecycle = manager(LifecycleConfig::default());
    lifecycle.mark_stopped();
    let answer = health(&lifecycle, start()).unwrap_err();
    assert_eq!(answer.status, "unhealthy");
    assert_eq!(answer.reason, "service_stopped");
}

#[test]
fn test_ready_during_startup() {
    let lifecycle = manager(LifecycleConfig::default());
    let (ready, answer) = readiness(&lifecycle);
    assert!(!ready);
    assert_eq!(answer.status, "not_ready");
}

#[test]
fn test_ready_all_checks_pass() {
    let mut lifecycle = manager(LifecycleConfig::default());
    lifecycle.mark_config_loaded();
    lifecycle.mark_approval_store_initialized();
    lifecycle.update_upstream_health(true, None, start());
    let (ready, answer) = readiness(&lifecycle);
    assert!(!ready);
    assert_eq!(answer.reason, Some("lifecycle_state: starting".to_string()));

    lifecycle.mark_ready();
    let (ready, answer) = readiness(&lifecycle);
    assert!(ready);
    assert_eq!(answer.status, "ready");
    assert!(answer.checks.all_pass());
}

#[test]
fn test_ready_upstream_unhealthy() {
    let mut lifecycle = manager(LifecycleConfig::default());
    lifecycle.mark_config_loaded();
    lifecycle.mark_approval_store_initialized();
    lifecycle.mark_ready();

    let (ready, answer) = readiness(&lifecycle);
    assert!(!ready);
    assert_eq!(answer.reason, Some("upstream_reachable".to_string()));
}

#[test]
fn test_ready_during_shutdown() {
    let mut lifecycle = manager(LifecycleConfig::default());
    lifecycle.mark_config_loaded();
    lifecycle.mark_approval_store_initialized();
    lifecycle.update_upstream_health(true, None, start());
    lifecycle.mark_ready();
    lifecycle.begin_shutdown();

    let (ready, answer) = readiness(&lifecycle);
    assert!(!ready);
    assert_eq!(answer.reason, Some("shutting_down".to_string()));
}

#[test]
fn test_readiness_checks_helpers() {
    let checks = ReadinessChecks {
        config_loaded: false,
        upstream_reachable: true,
        approval_store_initialized: true,
    };
    assert!(!checks.all_pass());
    assert_eq!(checks.first_failure(), Some("config_loaded"));

    let checks = ReadinessChecks {
        config_loaded: true,
        upstream_reachable: false,
        approval_store_initialized: true,
    };
    assert!(!checks.all_pass());
    assert_eq!(checks.first_failure(), Some("upstream_reachable"));

    let checks = ReadinessChecks {
        config_loaded: true,
        upstream_reachable: true,
        approval_store_initialized: false,
    };
    assert!(!checks.all_pass());
    assert_eq!(checks.first_failure(), Some("approval_store_initialized"));

    let checks = ReadinessChecks {
        config_loaded: true,
        upstream_reachable: true,
        approval_store_initialized: true,
    };
    assert!(checks.all_pass());
    assert_eq!(checks.first_failure(), None);
}

#[test]
fn draining_leaves_time_for_the_shutdown() {
    let secs = Duration::from_secs;
    assert_eq!(adjust_drain(secs(25), secs(30)), secs(25));
    assert_eq!(adjust_drain(secs(30), secs(30)), secs(24));
    assert_eq!(adjust_drain(secs(29), secs(30)), secs(29));
    assert_eq!(adjust_drain(Duration::from_millis(29_500), secs(30)), secs(29));
    assert_eq!(adjust_drain(secs(0), secs(30)), secs(1));
    assert_eq!(adjust_drain(secs(5), secs(2)), secs(1));
    assert_eq!(adjust_drain(secs(5), secs(1)), secs(0));
    assert_eq!(adjust_drain(secs(1), secs(1)), secs(0));
    assert_eq!(adjust_drain(secs(0), secs(1)), secs(0));
    assert_eq!(adjust_drain(secs(1), Duration::from_millis(1_500)), secs(1));
    assert_eq!(adjust_drain(secs(5), secs(0)), secs(1));
}

#[test]
fn configuration_from_texts() {
    let config =
        LifecycleConfig::from_env(Some("10"), Some("x"), Some("3"), Some("TRUE"), Some("7"));
    assert_eq!(config.shutdown_timeout, Duration::from_secs(10));
    assert_eq!(config.drain_timeout, Duration::from_secs(8));
    assert_eq!(config.startup_timeout, Duration::from_secs(3));
    assert!(config.require_upstream_at_startup);
    assert_eq!(config.upstream_health_interval, Duration::from_secs(7));
    assert!(LifecycleConfig::from_env(None, None, None, Some("1"), None).require_upstream_at_startup);
    assert!(!LifecycleConfig::from_env(None, None, None, Some("yes"), None).require_upstream_at_startup);
    assert_eq!(
        LifecycleConfig::from_env(None, None, None, None, None),
        LifecycleConfig::default()
    );
}

#[test]
fn upstream_is_healthy_unless_it_fails() {
    let mut lifecycle = manager(LifecycleConfig::default());
    let answered = |code: u16, text: &str| UpstreamCheck::Answered { code, text: text.to_string() };
    lifecycle.record_upstream_check(answered(404, "404 Not Found"), start());
    assert!(lifecycle.readiness_checks().upstream_reachable);
    lifecycle.record_upstream_check(answered(503, "503 Service Unavailable"), start());
    assert!(!lifecycle.readiness_checks().upstream_reachable);
    lifecycle.record_upstream_check(answered(200, "200 OK"), start());
    assert!(lifecycle.readiness_checks().upstream_reachable);
    lifecycle.record_upstream_check(UpstreamCheck::Failed { error: "refused".to_string() }, start());
    assert!(!lifecycle.readiness_checks().upstream_reachable);
}
