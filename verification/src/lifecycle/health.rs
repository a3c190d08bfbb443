//! What the probes for health and readiness answer.

use vstd::prelude::*;
use vstd::string::*;

use crate::lifecycle::{LifecycleManager, LifecycleState};
use crate::text::opt_text;
use crate::time::Timestamp;

verus! {

/// Answer of the health probe.
#[derive(Debug, Clone, PartialEq, Eq)]
pub struct HealthResponse<T = String> {
    /// Always `healthy`.
    pub status: T,
    /// Version of the service.
    pub version: T,
    /// Seconds since the service started.
    pub uptime_seconds: u64,
}

/// Answer of the health probe when the service has stopped.
#[derive(Debug, Clone, PartialEq, Eq)]
pub struct UnhealthyResponse<T = String> {
    /// Always `unhealthy`.
    pub status: T,
    /// Reason.
    pub reason: T,
    /// Additional details.
    pub details: Option<T>,
}

/// What readiness depends on.
#[derive(Debug, Clone, Copy, PartialEq, Eq, Structural)]
pub struct ReadinessChecks {
    /// Whether the configuration is loaded and validated.
    pub config_loaded: bool,
    /// Whether upstream was reachable when it was last checked.
    pub upstream_reachable: bool,
    /// Whether the approval store is initialized.
    pub approval_store_initialized: bool,
}

/// Answer of the readiness probe.
#[derive(Debug, Clone, PartialEq, Eq)]
pub struct ReadinessResponse<T = String> {
    /// `ready` or `not_ready`.
    pub status: T,
    /// The checks.
    pub checks: ReadinessChecks,
    /// Why the service is not ready.
    pub reason: Option<T>,
}

impl HealthResponse {
    /// The answer with its strings taken as character sequences.
    pub open spec fn view(self) -> HealthResponse<Seq<char>> {
        HealthResponse {
            status: self.status@,
            version: self.version@,
            uptime_seconds: self.uptime_seconds,
        }
    }
}

impl UnhealthyResponse {
    /// The answer with its strings taken as character sequences.
    pub open spec fn view(self) -> UnhealthyResponse<Seq<char>> {
        UnhealthyResponse {
            status: self.status@,
            reason: self.reason@,
            details: opt_text(self.details),
        }
    }
}

impl ReadinessResponse {
    /// The answer with its strings taken as character sequences.
    pub open spec fn view(self) -> ReadinessResponse<Seq<char>> {
        ReadinessResponse {
            status: self.status@,
            checks: self.checks,
            reason: opt_text(self.reason),
        }
    }
}

impl ReadinessChecks {
    /// Whether every check passes.
    pub open spec fn passes(self) -> bool {
        self.config_loaded && self.upstream_reachable && self.approval_store_initialized
    }

    /// The name of the first check that fails.
    pub open spec fn failure(self) -> Option<Seq<char>> {
        if !self.config_loaded {
            Some("config_loaded"@)
        } else if !self.upstream_reachable {
            Some("upstream_reachable"@)
        } else if !self.approval_store_initialized {
            Some("approval_store_initialized"@)
        } else {
            None
        }
    }

    /// Returns whether every check passes.
    pub fn all_pass(&self) -> (r: bool)
        ensures
            r == self.passes(),
            r == (self.failure() is None),
    {
        self.config_loaded && self.upstream_reachable && self.approval_store_initialized
    }

    /// Returns the name of the first check that fails.
    pub fn first_failure(&self) -> (r: Option<&'static str>)
        ensures
            match r {
                Some(name) => self.failure() == Some(name@),
                None => self.failure() is None,
            },
    {
        if !self.config_loaded {
            Some("config_loaded")
        } else if !self.upstream_reachable {
            Some("upstream_reachable")
        } else if !self.approval_store_initialized {
            Some("approval_store_initialized")
        } else {
            None
        }
    }
}

/// What the health probe answers: that the service is healthy (status 200), or
/// that it has stopped (status 503).
pub open spec fn health_answer(
    state: LifecycleState,
    version: Seq<char>,
    uptime_seconds: u64,
) -> Result<HealthResponse<Seq<char>>, UnhealthyResponse<Seq<char>>> {
    if state == LifecycleState::Stopped {
        Err(
            UnhealthyResponse {
                status: "unhealthy"@,
                reason: "service_stopped"@,
                details: None,
            },
        )
    } else {
        Ok(HealthResponse { status: "healthy"@, version, uptime_seconds })
    }
}

/// The view of what the health probe answers.
pub open spec fn health_view(r: Result<HealthResponse, UnhealthyResponse>) -> Result<
    HealthResponse<Seq<char>>,
    UnhealthyResponse<Seq<char>>,
> {
    match r {
        Ok(h) => Ok(h@),
        Err(u) => Err(u@),
    }
}

/// What the readiness probe answers: whether the service is ready (status 200,
/// else 503), and the answer.
pub open spec fn readiness_answer(state: LifecycleState, checks: ReadinessChecks) -> (
    bool,
    ReadinessResponse<Seq<char>>,
) {
    if state == LifecycleState::ShuttingDown || state == LifecycleState::Stopped {
        (
            false,
            ReadinessResponse { status: "not_ready"@, checks, reason: Some("shutting_down"@) },
        )
    } else if checks.passes() && state == LifecycleState::Ready {
        (true, ReadinessResponse { status: "ready"@, checks, reason: None })
    } else {
        (
            false,
            ReadinessResponse {
                status: "not_ready"@,
                checks,
                reason: match checks.failure() {
                    Some(name) => Some(name),
                    None => Some("lifecycle_state: "@ + state.name()),
                },
            },
        )
    }
}

/// Answers the health probe: `Ok` with status 200, `Err` with status 503.
pub fn health(manager: &LifecycleManager, now: Timestamp) -> (r: Result<
    HealthResponse,
    UnhealthyResponse,
>)
    ensures
        health_view(r) == health_answer(
            manager.current(),
            manager.version_text(),
            now.since(manager.start()).secs(),
        ),
{
    if manager.state() == LifecycleState::Stopped {
        Err(
            UnhealthyResponse {
                status: "unhealthy".to_owned(),
                reason: "service_stopped".to_owned(),
                details: None,
            },
        )
    } else {
        Ok(
            HealthResponse {
                status: "healthy".to_owned(),
                version: manager.version().to_owned(),
                uptime_seconds: manager.uptime_seconds(now),
            },
        )
    }
}

/// Answers the readiness probe; status 200 if ready, else 503.
pub fn readiness(manager: &LifecycleManager) -> (r: (bool, ReadinessResponse))
    ensures
        (r.0, r.1@) == readiness_answer(manager.current(), manager.checks()),
{
    let checks = manager.readiness_checks();
    if manager.is_shutting_down() {
        return (
            false,
            ReadinessResponse {
                status: "not_ready".to_owned(),
                checks,
                reason: Some("shutting_down".to_owned()),
            },
        );
    }
    if checks.all_pass() && manager.is_ready() {
        (true, ReadinessResponse { status: "ready".to_owned(), checks, reason: None })
    } else {
        let reason = match checks.first_failure() {
            Some(name) => name.to_owned(),
            None => "lifecycle_state: ".to_owned().concat(manager.state().to_text().as_str()),
        };
        (
            false,
            ReadinessResponse { status: "not_ready".to_owned(), checks, reason: Some(reason) },
        )
    }
}

/// The service is reported as ready exactly if it is in the state for it and
/// every check passes; a reason is given exactly if it is not.
pub proof fn law_ready_exactly_if_all_is_well(state: LifecycleState, checks: ReadinessChecks)
    ensures
        readiness_answer(state, checks).0 <==> state == LifecycleState::Ready && checks.passes(),
        readiness_answer(state, checks).1.reason is None <==> readiness_answer(state, checks).0,
{
}

/// The service is healthy until it has stopped, and says so with its version and how
/// long it has been running.
pub proof fn law_healthy_until_stopped(
    state: LifecycleState,
    version: Seq<char>,
    uptime_seconds: u64,
)
    ensures
        ({
            let answer = health_answer(state, version, uptime_seconds);
            &&& answer is Ok <==> state != LifecycleState::Stopped
            &&& answer is Ok ==> answer->Ok_0.status == "healthy"@ && answer->Ok_0.version
                == version && answer->Ok_0.uptime_seconds == uptime_seconds
            &&& answer is Err ==> answer->Err_0.status == "unhealthy"@ && answer->Err_0.reason
                == "service_stopped"@
        }),
{
}

/// The readiness probe tells what is wrong: that the service is shutting down, else
/// the first check that fails, else the state. The checks are told as they are.
pub proof fn law_readiness_tells_what_is_wrong(state: LifecycleState, checks: ReadinessChecks)
    ensures
        ({
            let (ready, answer) = readiness_answer(state, checks);
            &&& answer.checks == checks
            &&& ready <==> state == LifecycleState::Ready && checks.config_loaded
                && checks.upstream_reachable && checks.approval_store_initialized
            &&& ready ==> answer.status == "ready"@
            &&& !ready ==> answer.status == "not_ready"@
            &&& state == LifecycleState::ShuttingDown || state == LifecycleState::Stopped
                ==> answer.reason == Some("shutting_down"@)
            &&& state == LifecycleState::Starting || state == LifecycleState::Ready ==> {
                &&& !checks.config_loaded ==> answer.reason == Some("config_loaded"@)
                &&& checks.config_loaded && !checks.upstream_reachable ==> answer.reason == Some(
                    "upstream_reachable"@,
                )
                &&& checks.config_loaded && checks.upstream_reachable
                    && !checks.approval_store_initialized ==> answer.reason == Some(
                    "approval_store_initialized"@,
                )
                &&& !ready && checks.config_loaded && checks.upstream_reachable
                    && checks.approval_store_initialized ==> answer.reason == Some(
                    "lifecycle_state: "@ + "starting"@,
                )
            }
        }),
{
}

} // verus!
