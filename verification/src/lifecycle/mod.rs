//! Life cycle of the service: startup, traffic, draining and shutdown.

use vstd::prelude::*;
use vstd::string::*;

use crate::governance::approval::types::{read_secs_or, secs_or};
use crate::governance::engine::opt_slice;
use crate::lifecycle::health::ReadinessChecks;
use crate::text::{chars_of, opt_text, same_text};
use crate::time::{Duration, Timestamp, NANOS_PER_SEC};

pub mod health;

verus! {

/// State of the service.
#[derive(Debug, Clone, Copy, PartialEq, Eq, Structural)]
pub enum LifecycleState {
    /// Initialization in progress.
    Starting,
    /// Accepting traffic.
    Ready,
    /// Draining; new requests are rejected.
    ShuttingDown,
    /// Shutdown complete.
    Stopped,
}

impl LifecycleState {
    /// The name of the state.
    pub open spec fn name(self) -> Seq<char> {
        match self {
            LifecycleState::Starting => "starting"@,
            LifecycleState::Ready => "ready"@,
            LifecycleState::ShuttingDown => "shutting_down"@,
            LifecycleState::Stopped => "stopped"@,
        }
    }

    /// The name of the state.
    pub fn to_text(&self) -> (r: String)
        ensures
            r@ == self.name(),
    {
        match self {
            LifecycleState::Starting => "starting".to_owned(),
            LifecycleState::Ready => "ready".to_owned(),
            LifecycleState::ShuttingDown => "shutting_down".to_owned(),
            LifecycleState::Stopped => "stopped".to_owned(),
        }
    }
}

/// Configuration of the life cycle.
#[derive(Debug, Clone, Copy, PartialEq, Eq, Structural)]
pub struct LifecycleConfig {
    /// Time limit of the shutdown as a whole.
    pub shutdown_timeout: Duration,
    /// Time limit of draining.
    pub drain_timeout: Duration,
    /// Time limit of the startup.
    pub startup_timeout: Duration,
    /// Whether upstream must be reachable at startup.
    pub require_upstream_at_startup: bool,
    /// How often upstream is checked.
    pub upstream_health_interval: Duration,
}

/// The default configuration.
pub open spec fn default_lifecycle() -> LifecycleConfig {
    LifecycleConfig {
        shutdown_timeout: Duration::of_secs(30),
        drain_timeout: Duration::of_secs(25),
        startup_timeout: Duration::of_secs(15),
        require_upstream_at_startup: false,
        upstream_health_interval: Duration::of_secs(30),
    }
}

impl Default for LifecycleConfig {
    fn default() -> (r: Self)
        ensures
            r == default_lifecycle(),
            r.shutdown_timeout.nanos == 30_000_000_000,
            r.drain_timeout.nanos == 25_000_000_000,
            r.startup_timeout.nanos == 15_000_000_000,
            !r.require_upstream_at_startup,
            r.upstream_health_interval.nanos == 30_000_000_000,
    {
        LifecycleConfig {
            shutdown_timeout: Duration::from_secs(30),
            drain_timeout: Duration::from_secs(25),
            startup_timeout: Duration::from_secs(15),
            require_upstream_at_startup: false,
            upstream_health_interval: Duration::from_secs(30),
        }
    }
}

/// Whether two characters are the same but for the case of ASCII letters.
pub open spec fn same_letter(a: char, b: char) -> bool {
    a == b || ('A' <= a <= 'Z' && b as int == a as int + 32) || ('A' <= b <= 'Z' && a as int
        == b as int + 32)
}

/// Whether two texts are the same but for the case of ASCII letters.
pub open spec fn same_letters(a: Seq<char>, b: Seq<char>) -> bool {
    a.len() == b.len() && forall|i: int| 0 <= i < a.len() ==> #[trigger] same_letter(a[i], b[i])
}

/// Whether two texts are the same but for the case of ASCII letters.
fn same_ignoring_case(a: &str, b: &str) -> (r: bool)
    ensures
        r == same_letters(a@, b@),
{
    let left = chars_of(a);
    let right = chars_of(b);
    if left.len() != right.len() {
        return false;
    }
    let mut i: usize = 0;
    while i < left.len()
        invariant
            i <= left@.len(),
            left@ == a@,
            right@ == b@,
            left@.len() == right@.len(),
            forall|j: int| 0 <= j < i ==> #[trigger] same_letter(left@[j], right@[j]),
        decreases left@.len() - i,
    {
        let x: char = left[i];
        let y: char = right[i];
        let same = x == y || ('A' <= x && x <= 'Z' && 'a' <= y && y <= 'z' && y as u32 == x as u32
            + 32) || ('A' <= y && y <= 'Z' && 'a' <= x && x <= 'z' && x as u32 == y as u32 + 32);
        if !same {
            assert(!same_letter(left@[i as int], right@[i as int]));
            return false;
        }
        i = i + 1;
    }
    true
}

/// Whether a text switches something on: `true` in any case, or `1`.
pub open spec fn switches_on(text: Option<Seq<char>>) -> bool {
    match text {
        Some(t) => same_letters(t, "true"@) || t == "1"@,
        None => false,
    }
}

/// The shorter of two lengths of time.
pub open spec fn shorter(a: Duration, b: Duration) -> Duration {
    if a.nanos <= b.nanos {
        a
    } else {
        b
    }
}

/// The shortest time to drain: a second, or none at all where the shutdown takes
/// no longer than that.
pub open spec fn shortest_drain(shutdown: Duration) -> Duration {
    if 0 < shutdown.nanos <= NANOS_PER_SEC {
        Duration::of_secs(0)
    } else {
        Duration::of_secs(1)
    }
}

/// The longer of two lengths of time.
pub open spec fn longer(a: Duration, b: Duration) -> Duration {
    if a.nanos < b.nanos {
        b
    } else {
        a
    }
}

/// The longest time to drain: a second of the shutdown is kept for what follows.
pub open spec fn longest_drain(shutdown: Duration) -> Duration {
    Duration::of_secs(
        if shutdown.secs() == 0 {
            0
        } else {
            (shutdown.secs() - 1) as nat
        },
    )
}

/// The time to drain that is kept: the one that is asked for, if it is shorter
/// than the shutdown, leaves a second of it and is not too short; else the nearest
/// that is in order, or four fifths of the shutdown where draining was to take as
/// long as that.
pub open spec fn drain_in_limits(drain: Duration, shutdown: Duration) -> Duration {
    longer(
        if drain.nanos >= shutdown.nanos {
            shorter(
                Duration::of_secs((shutdown.secs() as nat * 4) / 5),
                longest_drain(shutdown),
            )
        } else if drain.nanos > longest_drain(shutdown).nanos {
            longest_drain(shutdown)
        } else {
            drain
        },
        shortest_drain(shutdown),
    )
}

/// The time to drain that is kept.
pub fn adjust_drain(drain: Duration, shutdown: Duration) -> (r: Duration)
    ensures
        r == drain_in_limits(drain, shutdown),
{
    let secs: u64 = shutdown.as_secs();
    let longest = if secs == 0 {
        Duration::from_secs(0)
    } else {
        Duration::from_secs(secs - 1)
    };
    let shortest = if 0 < shutdown.nanos && shutdown.nanos <= NANOS_PER_SEC {
        Duration::from_secs(0)
    } else {
        Duration::from_secs(1)
    };
    let kept = if drain.nanos >= shutdown.nanos {
        let part: u128 = (secs as u128 * 4) / 5;
        let most = Duration::from_secs(part as u64);
        if most.nanos <= longest.nanos {
            most
        } else {
            longest
        }
    } else if drain.nanos > longest.nanos {
        longest
    } else {
        drain
    };
    if kept.nanos < shortest.nanos {
        shortest
    } else {
        kept
    }
}

impl LifecycleConfig {
    /// The configuration for values given as texts, as environment variables
    /// give them: `THOUGHTGATE_SHUTDOWN_TIMEOUT_SECS`,
    /// `THOUGHTGATE_DRAIN_TIMEOUT_SECS`, `THOUGHTGATE_STARTUP_TIMEOUT_SECS`,
    /// `THOUGHTGATE_REQUIRE_UPSTREAM_AT_STARTUP` and
    /// `THOUGHTGATE_UPSTREAM_HEALTH_INTERVAL_SECS`.
    pub fn from_env(
        shutdown_timeout: Option<&str>,
        drain_timeout: Option<&str>,
        startup_timeout: Option<&str>,
        require_upstream: Option<&str>,
        health_interval: Option<&str>,
    ) -> (r: Self)
        ensures
            r == (LifecycleConfig {
                shutdown_timeout: secs_or(opt_slice(shutdown_timeout), 30),
                drain_timeout: drain_in_limits(
                    secs_or(opt_slice(drain_timeout), 25),
                    secs_or(opt_slice(shutdown_timeout), 30),
                ),
                startup_timeout: secs_or(opt_slice(startup_timeout), 15),
                require_upstream_at_startup: switches_on(opt_slice(require_upstream)),
                upstream_health_interval: secs_or(opt_slice(health_interval), 30),
            }),
            r.shutdown_timeout.nanos > 0 ==> r.drain_timeout.nanos < r.shutdown_timeout.nanos,
    {
        let shutdown = read_secs_or(shutdown_timeout, 30);
        let drain = read_secs_or(drain_timeout, 25);
        proof {
            if shutdown.nanos > 0 {
                law_drain_leaves_time(drain, shutdown);
            }
        }
        LifecycleConfig {
            shutdown_timeout: shutdown,
            drain_timeout: adjust_drain(drain, shutdown),
            startup_timeout: read_secs_or(startup_timeout, 15),
            require_upstream_at_startup: match require_upstream {
                Some(t) => same_ignoring_case(t, "true") || same_text(t, "1"),
                None => false,
            },
            upstream_health_interval: read_secs_or(health_interval, 30),
        }
    }
}

/// What is known of the upstream server. `T` holds a text.
#[derive(Debug, Clone, PartialEq, Eq)]
pub struct UpstreamHealthStatus<T = String> {
    /// Whether it was healthy when it was last checked.
    pub is_healthy: bool,
    /// When it was last checked.
    pub last_check: Timestamp,
    /// What was wrong.
    pub last_error: Option<T>,
}

impl UpstreamHealthStatus {
    /// The status with its string taken as a character sequence.
    pub open spec fn view(self) -> UpstreamHealthStatus<Seq<char>> {
        UpstreamHealthStatus {
            is_healthy: self.is_healthy,
            last_check: self.last_check,
            last_error: opt_text(self.last_error),
        }
    }

    /// The status before the first check.
    pub fn unchecked(now: Timestamp) -> (r: Self)
        ensures
            r@ == unchecked_status(now),
            !r.is_healthy,
            r.last_check == now,
            opt_text(r.last_error) == Some("Not checked yet"@),
    {
        UpstreamHealthStatus {
            is_healthy: false,
            last_check: now,
            last_error: Some("Not checked yet".to_owned()),
        }
    }
}

/// The status before the first check.
pub open spec fn unchecked_status(now: Timestamp) -> UpstreamHealthStatus<Seq<char>> {
    UpstreamHealthStatus {
        is_healthy: false,
        last_check: now,
        last_error: Some("Not checked yet"@),
    }
}

/// What a check of the upstream server found. `T` holds a text.
#[derive(Debug)]
pub enum UpstreamCheck<T = String> {
    /// It answered with an HTTP status.
    Answered {
        /// The code.
        code: u16,
        /// The code with its name, such as `503 Service Unavailable`.
        text: T,
    },
    /// It could not be reached.
    Failed { error: T },
}

impl UpstreamCheck {
    /// What was found, with its string taken as a character sequence.
    pub open spec fn view(self) -> UpstreamCheck<Seq<char>> {
        match self {
            UpstreamCheck::Answered { code, text } => UpstreamCheck::Answered {
                code,
                text: text@,
            },
            UpstreamCheck::Failed { error } => UpstreamCheck::Failed { error: error@ },
        }
    }
}

/// What a check says of the upstream server: any answer but a server error means
/// that it is healthy.
pub open spec fn checked_status(
    check: UpstreamCheck<Seq<char>>,
    now: Timestamp,
) -> UpstreamHealthStatus<Seq<char>> {
    match check {
        UpstreamCheck::Answered { code, text } => if 500 <= code < 600 {
            UpstreamHealthStatus {
                is_healthy: false,
                last_check: now,
                last_error: Some("HTTP "@ + text),
            }
        } else {
            UpstreamHealthStatus { is_healthy: true, last_check: now, last_error: None }
        },
        UpstreamCheck::Failed { error } => UpstreamHealthStatus {
            is_healthy: false,
            last_check: now,
            last_error: Some(error),
        },
    }
}

/// Outcome of draining.
#[derive(Debug, Clone, Copy, PartialEq, Eq, Structural)]
pub enum DrainResult {
    /// All requests completed.
    Complete,
    /// Time ran out with requests remaining.
    Timeout {
        /// Number of requests that were still active.
        remaining: usize,
    },
}

/// The state of the service, its active requests and what readiness depends on.
pub struct LifecycleManager {
    state: LifecycleState,
    started_at: Timestamp,
    active_requests: usize,
    upstream_health: UpstreamHealthStatus,
    config_loaded: bool,
    approval_store_initialized: bool,
    config: LifecycleConfig,
    version: String,
}

impl LifecycleManager {
    /// The state.
    pub closed spec fn current(self) -> LifecycleState {
        self.state
    }

    /// When the service started.
    pub closed spec fn start(self) -> Timestamp {
        self.started_at
    }

    /// The number of active requests.
    pub closed spec fn active(self) -> usize {
        self.active_requests
    }

    /// What is known of the upstream server.
    pub closed spec fn upstream(self) -> UpstreamHealthStatus<Seq<char>> {
        self.upstream_health@
    }

    /// What readiness depends on.
    pub closed spec fn checks(self) -> ReadinessChecks {
        ReadinessChecks {
            config_loaded: self.config_loaded,
            upstream_reachable: self.upstream_health.is_healthy,
            approval_store_initialized: self.approval_store_initialized,
        }
    }

    /// The configuration.
    pub closed spec fn settings(self) -> LifecycleConfig {
        self.config
    }

    /// The version.
    pub closed spec fn version_text(self) -> Seq<char> {
        self.version@
    }

    /// Whether everything but the state is as in another manager.
    pub open spec fn same_but_state(self, other: LifecycleManager) -> bool {
        &&& self.start() == other.start()
        &&& self.active() == other.active()
        &&& self.upstream() == other.upstream()
        &&& self.checks() == other.checks()
        &&& self.settings() == other.settings()
        &&& self.version_text() == other.version_text()
    }

    /// Creates a manager in the state `Starting`.
    pub fn new(config: LifecycleConfig, version: String, now: Timestamp) -> (r: Self)
        ensures
            r.current() == LifecycleState::Starting,
            r.start() == now,
            r.active() == 0,
            r.upstream() == unchecked_status(now),
            !r.upstream().is_healthy,
            r.upstream().last_check == now,
            r.upstream().last_error is Some,
            r.checks() == (ReadinessChecks {
                config_loaded: false,
                upstream_reachable: false,
                approval_store_initialized: false,
            }),
            r.settings() == config,
            r.version_text() == version@,
    {
        LifecycleManager {
            state: LifecycleState::Starting,
            started_at: now,
            active_requests: 0,
            upstream_health: UpstreamHealthStatus::unchecked(now),
            config_loaded: false,
            approval_store_initialized: false,
            config,
            version,
        }
    }

    /// Returns the state.
    pub fn state(&self) -> (r: LifecycleState)
        ensures
            r == self.current(),
    {
        self.state
    }

    /// Returns whether the service accepts traffic.
    pub fn is_ready(&self) -> (r: bool)
        ensures
            r == (self.current() == LifecycleState::Ready),
    {
        self.state == LifecycleState::Ready
    }

    /// Returns whether the service is shutting down or has stopped.
    pub fn is_shutting_down(&self) -> (r: bool)
        ensures
            r == (self.current() == LifecycleState::ShuttingDown || self.current()
                == LifecycleState::Stopped),
    {
        self.state == LifecycleState::ShuttingDown || self.state == LifecycleState::Stopped
    }

    /// Goes to the state `Ready`.
    pub fn mark_ready(&mut self)
        ensures
            final(self).current() == LifecycleState::Ready,
            final(self).same_but_state(*old(self)),
    {
        self.state = LifecycleState::Ready;
    }

    /// Goes to the state `ShuttingDown`.
    pub fn begin_shutdown(&mut self)
        ensures
            final(self).current() == LifecycleState::ShuttingDown,
            final(self).same_but_state(*old(self)),
    {
        self.state = LifecycleState::ShuttingDown;
    }

    /// Goes to the state `Stopped`.
    pub fn mark_stopped(&mut self)
        ensures
            final(self).current() == LifecycleState::Stopped,
            final(self).same_but_state(*old(self)),
    {
        self.state = LifecycleState::Stopped;
    }

    /// Notes that the configuration is loaded.
    pub fn mark_config_loaded(&mut self)
        ensures
            final(self).checks() == (ReadinessChecks { config_loaded: true, ..old(self).checks() }),
            final(self).current() == old(self).current(),
            final(self).start() == old(self).start(),
            final(self).active() == old(self).active(),
            final(self).upstream() == old(self).upstream(),
            final(self).settings() == old(self).settings(),
            final(self).version_text() == old(self).version_text(),
    {
        self.config_loaded = true;
    }

    /// Notes that the approval store is initialized.
    pub fn mark_approval_store_initialized(&mut self)
        ensures
            final(self).checks() == (ReadinessChecks {
                approval_store_initialized: true,
                ..old(self).checks()
            }),
            final(self).current() == old(self).current(),
            final(self).start() == old(self).start(),
            final(self).active() == old(self).active(),
            final(self).upstream() == old(self).upstream(),
            final(self).settings() == old(self).settings(),
            final(self).version_text() == old(self).version_text(),
    {
        self.approval_store_initialized = true;
    }

    /// Notes the health of the upstream server.
    pub fn update_upstream_health(&mut self, is_healthy: bool, error: Option<String>, now: Timestamp)
        ensures
            final(self).upstream() == (UpstreamHealthStatus::<Seq<char>> {
                is_healthy,
                last_check: now,
                last_error: opt_text(error),
            }),
            final(self).checks() == (ReadinessChecks {
                upstream_reachable: is_healthy,
                ..old(self).checks()
            }),
            final(self).current() == old(self).current(),
            final(self).start() == old(self).start(),
            final(self).active() == old(self).active(),
            final(self).settings() == old(self).settings(),
            final(self).version_text() == old(self).version_text(),
    {
        self.upstream_health =
        UpstreamHealthStatus { is_healthy, last_check: now, last_error: error };
    }

    /// Notes what a check of the upstream server found.
    pub fn record_upstream_check(&mut self, check: UpstreamCheck, now: Timestamp)
        ensures
            final(self).upstream() == checked_status(check@, now),
            final(self).checks() == (ReadinessChecks {
                upstream_reachable: checked_status(check@, now).is_healthy,
                ..old(self).checks()
            }),
            final(self).current() == old(self).current(),
            final(self).start() == old(self).start(),
            final(self).active() == old(self).active(),
            final(self).settings() == old(self).settings(),
            final(self).version_text() == old(self).version_text(),
    {
        match check {
            UpstreamCheck::Answered { code, text } => {
                if 500 <= code && code < 600 {
                    let error = "HTTP ".to_owned().concat(text.as_str());
                    self.update_upstream_health(false, Some(error), now);
                } else {
                    self.update_upstream_health(true, None, now);
                }
            },
            UpstreamCheck::Failed { error } => {
                self.update_upstream_health(false, Some(error), now);
            },
        }
    }

    /// Counts a request; returns whether it is accepted, which it is not during
    /// shutdown. Each request that is accepted is to be ended with
    /// [`LifecycleManager::end_request`].
    pub fn track_request(&mut self) -> (r: bool)
        requires
            old(self).active() < usize::MAX,
        ensures
            r == !(old(self).current() == LifecycleState::ShuttingDown || old(self).current()
                == LifecycleState::Stopped),
            final(self).active() == if r {
                old(self).active() + 1
            } else {
                old(self).active() as int
            },
            final(self).current() == old(self).current(),
            final(self).start() == old(self).start(),
            final(self).upstream() == old(self).upstream(),
            final(self).checks() == old(self).checks(),
            final(self).settings() == old(self).settings(),
            final(self).version_text() == old(self).version_text(),
    {
        if self.is_shutting_down() {
            return false;
        }
        self.active_requests = self.active_requests + 1;
        true
    }

    /// Ends a request that was accepted.
    pub fn end_request(&mut self)
        requires
            old(self).active() > 0,
        ensures
            final(self).active() == old(self).active() - 1,
            final(self).current() == old(self).current(),
            final(self).start() == old(self).start(),
            final(self).upstream() == old(self).upstream(),
            final(self).checks() == old(self).checks(),
            final(self).settings() == old(self).settings(),
            final(self).version_text() == old(self).version_text(),
    {
        self.active_requests = self.active_requests - 1;
    }

    /// Returns the number of active requests.
    pub fn active_request_count(&self) -> (r: usize)
        ensures
            r == self.active(),
    {
        self.active_requests
    }

    /// Returns the seconds since the service started.
    pub fn uptime_seconds(&self, now: Timestamp) -> (r: u64)
        ensures
            r == now.since(self.start()).secs(),
    {
        now.elapsed_since(self.started_at).as_secs()
    }

    /// Returns the version.
    pub fn version(&self) -> (r: &str)
        ensures
            r@ == self.version_text(),
    {
        self.version.as_str()
    }

    /// Returns the configuration.
    pub fn config(&self) -> (r: &LifecycleConfig)
        ensures
            *r == self.settings(),
    {
        &self.config
    }

    /// Returns what readiness depends on.
    pub fn readiness_checks(&self) -> (r: ReadinessChecks)
        ensures
            r == self.checks(),
    {
        ReadinessChecks {
            config_loaded: self.config_loaded,
            upstream_reachable: self.upstream_health.is_healthy,
            approval_store_initialized: self.approval_store_initialized,
        }
    }

    /// When draining that begins now must end.
    pub fn drain_deadline(&self, now: Timestamp) -> (r: Timestamp)
        ensures
            r == now.after(self.settings().drain_timeout),
    {
        now.plus(self.config.drain_timeout)
    }

    /// Looks whether draining is over; `None` if it goes on.
    pub fn drain_step(&self, deadline: Timestamp, now: Timestamp) -> (r: Option<DrainResult>)
        ensures
            r == if self.active() == 0 {
                Some(DrainResult::Complete)
            } else if now.nanos > deadline.nanos {
                Some(DrainResult::Timeout { remaining: self.active() })
            } else {
                None
            },
    {
        let active: usize = self.active_requests;
        if active == 0 {
            Some(DrainResult::Complete)
        } else if now.nanos > deadline.nanos {
            Some(DrainResult::Timeout { remaining: active })
        } else {
            None
        }
    }
}

/// Whether an environment is one in which what is for development only may be
/// active.
pub open spec fn allows_development(environment: Option<Seq<char>>) -> bool {
    environment == Some("development"@) || environment == Some("test"@)
}

/// Why an environment is refused: unless it is named for development or for tests,
/// neither the development mode nor the mock adapter may be active.
pub open spec fn environment_error(
    environment: Option<Seq<char>>,
    dev_mode: Option<Seq<char>>,
    adapter: Option<Seq<char>>,
) -> Option<Seq<char>> {
    if allows_development(environment) {
        None
    } else if dev_mode == Some("true"@) {
        Some(
            "THOUGHTGATE_DEV_MODE=true is not allowed in production. Set THOUGHTGATE_ENVIRONMENT=development to use dev mode."@,
        )
    } else if adapter == Some("mock"@) {
        Some(
            "THOUGHTGATE_APPROVAL_ADAPTER=mock is not allowed in production. Set THOUGHTGATE_ENVIRONMENT=development to use the mock adapter."@,
        )
    } else {
        None
    }
}

fn is_text(value: Option<&str>, text: &str) -> (r: bool)
    ensures
        r == (opt_slice(value) == Some(text@)),
{
    match value {
        Some(v) => same_text(v, text),
        None => false,
    }
}

/// Checks that nothing that is for development only is active elsewhere. The
/// values are those of `THOUGHTGATE_ENVIRONMENT`, `THOUGHTGATE_DEV_MODE` and
/// `THOUGHTGATE_APPROVAL_ADAPTER`.
pub fn validate_environment(
    environment: Option<&str>,
    dev_mode: Option<&str>,
    adapter: Option<&str>,
) -> (r: Result<(), String>)
    ensures
        match r {
            Ok(_) => environment_error(
                opt_slice(environment),
                opt_slice(dev_mode),
                opt_slice(adapter),
            ) is None,
            Err(e) => environment_error(
                opt_slice(environment),
                opt_slice(dev_mode),
                opt_slice(adapter),
            ) == Some(e@),
        },
{
    let strict = !is_text(environment, "development") && !is_text(environment, "test");
    if strict && is_text(dev_mode, "true") {
        return Err(
            "THOUGHTGATE_DEV_MODE=true is not allowed in production. Set THOUGHTGATE_ENVIRONMENT=development to use dev mode.".to_owned(),
        );
    }
    if strict && is_text(adapter, "mock") {
        return Err(
            "THOUGHTGATE_APPROVAL_ADAPTER=mock is not allowed in production. Set THOUGHTGATE_ENVIRONMENT=development to use the mock adapter.".to_owned(),
        );
    }
    Ok(())
}

/// Draining takes less time than the shutdown, whatever was asked for; if the
/// shutdown takes two seconds or more, draining takes at least a second and ends
/// at least a second before it.
pub proof fn law_drain_leaves_time(drain: Duration, shutdown: Duration)
    requires
        0 < shutdown.nanos <= u64::MAX * NANOS_PER_SEC,
    ensures
        drain_in_limits(drain, shutdown).nanos < shutdown.nanos,
        shutdown.nanos >= 2 * NANOS_PER_SEC ==> NANOS_PER_SEC <= drain_in_limits(
            drain,
            shutdown,
        ).nanos && drain_in_limits(drain, shutdown).nanos + NANOS_PER_SEC <= shutdown.nanos,
{
    let secs = shutdown.secs();
    assert(secs == shutdown.nanos / NANOS_PER_SEC);
    assert(secs * NANOS_PER_SEC <= shutdown.nanos);
    assert((secs as nat * 4) / 5 * NANOS_PER_SEC <= u128::MAX);
}

/// A time to drain that is in order is kept.
pub proof fn law_drain_in_order_is_kept(drain: Duration, shutdown: Duration)
    requires
        NANOS_PER_SEC <= drain.nanos,
        drain.nanos < shutdown.nanos,
        drain.nanos <= longest_drain(shutdown).nanos,
    ensures
        drain_in_limits(drain, shutdown) == drain,
{
}

/// What is for development only passes exactly in an environment that is named
/// `development` or `test`.
pub proof fn law_development_features_need_a_name(
    environment: Option<Seq<char>>,
    dev_mode: Option<Seq<char>>,
    adapter: Option<Seq<char>>,
)
    ensures
        environment_error(environment, dev_mode, adapter) is None <==> environment == Some(
            "development"@,
        ) || environment == Some("test"@) || (dev_mode != Some("true"@) && adapter != Some(
            "mock"@,
        )),
{
}

/// The upstream server counts as healthy exactly if it answered with anything but a
/// server error; what was wrong is told exactly if it does not.
pub proof fn law_server_errors_are_unhealthy(check: UpstreamCheck<Seq<char>>, now: Timestamp)
    ensures
        ({
            let status = checked_status(check, now);
            &&& status.last_check == now
            &&& match check {
                UpstreamCheck::Answered { code, text } => {
                    &&& status.is_healthy <==> code < 500 || code > 599
                    &&& !status.is_healthy ==> status.last_error == Some("HTTP "@ + text)
                },
                UpstreamCheck::Failed { error } => !status.is_healthy && status.last_error == Some(
                    error,
                ),
            }
            &&& status.is_healthy <==> status.last_error is None
        }),
{
}

/// A drain that was to take as long as the shutdown, or longer, takes four fifths of
/// it, where the shutdown takes five seconds or more.
pub proof fn law_long_drains_are_cut(drain: Duration, shutdown: Duration)
    requires
        5_000_000_000 <= shutdown.nanos <= u64::MAX * NANOS_PER_SEC,
        drain.nanos >= shutdown.nanos,
    ensures
        drain_in_limits(drain, shutdown).nanos == (shutdown.nanos / 1_000_000_000) * 4 / 5
            * 1_000_000_000,
{
    let secs = shutdown.secs() as nat;
    assert(secs == shutdown.nanos / NANOS_PER_SEC);
    assert(secs >= 5);
    assert(secs * 4 / 5 <= secs - 1);
    assert((secs * 4) / 5 * NANOS_PER_SEC <= u128::MAX);
}

/// A switch is on exactly for `1` and for `true` in whatever case.
pub proof fn law_switches_are_on_for_true(text: Seq<char>)
    ensures
        !switches_on(None),
        switches_on(Some("true"@)),
        switches_on(Some("1"@)),
        switches_on(Some(text)) ==> text == "1"@ || text.len() == 4 && (text[0] == 't' || text[0]
            == 'T') && (text[1] == 'r' || text[1] == 'R') && (text[2] == 'u' || text[2] == 'U')
            && (text[3] == 'e' || text[3] == 'E'),
{
    reveal_strlit("true");
    let t = "true"@;
    assert forall|i: int| 0 <= i < t.len() implies #[trigger] same_letter(t[i], t[i]) by {}
    if switches_on(Some(text)) && text != "1"@ {
        assert(same_letter(text[0], t[0]) && same_letter(text[1], t[1]));
        assert(same_letter(text[2], t[2]) && same_letter(text[3], t[3]));
    }
}

} // verus!
