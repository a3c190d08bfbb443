//! Values that settings take where the configuration gives none.

use vstd::prelude::*;
use vstd::string::*;

use crate::config::schema::{
    BatchConfig, HumanWorkflow, SampleRate, SamplingConfig, TelemetryYamlConfig, TimeoutAction,
    StdioTelemetryConfig,
};
use crate::time::Duration;

verus! {

/// Seconds after which an approval times out where its workflow names no limit.
pub const DEFAULT_APPROVAL_TIMEOUT_SECS: u64 = 600;

/// The bits of the double-precision number 1.0.
pub const ONE_BITS: u64 = 0x3FF0_0000_0000_0000;

/// The bits of the double-precision number -0.0.
pub const NEGATIVE_ZERO_BITS: u64 = 0x8000_0000_0000_0000;

impl HumanWorkflow {
    /// Get the timeout, using the default if none is given.
    pub fn timeout_or_default(&self) -> (r: Duration)
        ensures
            r == match self.timeout {
                Some(t) => t,
                None => Duration::of_secs(DEFAULT_APPROVAL_TIMEOUT_SECS as nat),
            },
    {
        match self.timeout {
            Some(t) => t,
            None => Duration::from_secs(DEFAULT_APPROVAL_TIMEOUT_SECS),
        }
    }

    /// Get the timeout action, using the default if none is given.
    pub fn on_timeout_or_default(&self) -> (r: TimeoutAction)
        ensures
            r == match self.on_timeout {
                Some(a) => a,
                None => TimeoutAction::Deny,
            },
    {
        match self.on_timeout {
            Some(a) => a,
            None => TimeoutAction::default(),
        }
    }
}

impl Default for TimeoutAction {
    fn default() -> (r: Self)
        ensures
            r == TimeoutAction::Deny,
    {
        TimeoutAction::Deny
    }
}

impl Default for StdioTelemetryConfig {
    fn default() -> (r: Self)
        ensures
            r == (StdioTelemetryConfig { propagate_upstream: false }),
    {
        StdioTelemetryConfig { propagate_upstream: false }
    }
}

impl Default for TelemetryYamlConfig {
    fn default() -> (r: Self)
        ensures
            !r.enabled,
            r.otlp is None,
            r.sampling is None,
            r.batch is None,
            r.resource is None,
            r.stdio is None,
    {
        TelemetryYamlConfig {
            enabled: false,
            otlp: None,
            sampling: None,
            batch: None,
            resource: None,
            stdio: None,
        }
    }
}

/// The default OTLP protocol.
pub fn default_otlp_protocol() -> (r: String)
    ensures
        r@ == "http/protobuf"@,
{
    "http/protobuf".to_owned()
}

/// The default sampling strategy.
pub fn default_sampling_strategy() -> (r: String)
    ensures
        r@ == "head"@,
{
    "head".to_owned()
}

/// The default sample rate: every request.
pub fn default_sample_rate() -> (r: SampleRate)
    ensures
        r.bits == ONE_BITS,
{
    SampleRate { bits: ONE_BITS }
}

impl SampleRate {
    /// Whether the number lies between 0.0 and 1.0. The bits of non-negative
    /// numbers grow with the number, those of infinity and of NaN come after
    /// them, and -0.0 equals 0.0.
    pub open spec fn in_unit_interval(self) -> bool {
        self.bits <= ONE_BITS || self.bits == NEGATIVE_ZERO_BITS
    }

    /// Whether the number lies between 0.0 and 1.0.
    pub fn is_valid(&self) -> (r: bool)
        ensures
            r == self.in_unit_interval(),
    {
        self.bits <= ONE_BITS || self.bits == NEGATIVE_ZERO_BITS
    }
}

impl Default for SamplingConfig {
    fn default() -> (r: Self)
        ensures
            r.strategy@ == "head"@,
            r.success_sample_rate.bits == ONE_BITS,
    {
        SamplingConfig {
            strategy: default_sampling_strategy(),
            success_sample_rate: default_sample_rate(),
        }
    }
}

/// The default size of the export queue.
pub fn default_max_queue_size() -> (r: usize)
    ensures
        r == 2048,
{
    2048
}

/// The default size of an export batch.
pub fn default_max_export_batch_size() -> (r: usize)
    ensures
        r == 512,
{
    512
}

/// The default delay between exports.
pub fn default_scheduled_delay_ms() -> (r: u64)
    ensures
        r == 5000,
{
    5000
}

/// The default export timeout.
pub fn default_export_timeout_ms() -> (r: u64)
    ensures
        r == 30000,
{
    30000
}

impl Default for BatchConfig {
    fn default() -> (r: Self)
        ensures
            r.max_queue_size == 2048,
            r.max_export_batch_size == 512,
            r.scheduled_delay_ms == 5000,
            r.export_timeout_ms == 30000,
    {
        BatchConfig {
            max_queue_size: default_max_queue_size(),
            max_export_batch_size: default_max_export_batch_size(),
            scheduled_delay_ms: default_scheduled_delay_ms(),
            export_timeout_ms: default_export_timeout_ms(),
        }
    }
}

} // verus!
