//! Errors and warnings of configuration loading and validation.

use vstd::prelude::*;
use vstd::string::*;

use crate::text::{decimal, numeral, texts};

verus! {

/// Configuration loading and validation errors.
///
/// `T` holds a text and `L` a list of texts: strings in a value that a function
/// returns, character sequences in its mathematical view.
#[derive(Debug, Clone)]
pub enum ConfigError<T = String, L = Vec<String>> {
    /// The configuration names no source.
    NoSourcesDefined,
    /// Version 0.2 takes a single source.
    V02SingleSourceOnly { count: usize },
    /// Version 0.2 takes sources of kind `mcp` only.
    V02McpOnly { kind: T },
    /// Two sources have the same ID.
    DuplicateSourceId { id: T },
    /// A source ID begins with the reserved prefix.
    ReservedPrefix { id: T },
    /// A source ID is not well formed.
    InvalidSourceId { id: T, reason: T },
    /// Two sources have the same prefix.
    DuplicatePrefix { prefix: T },
    /// A rule with `action: policy` has no policy ID.
    MissingPolicyId { pattern: T },
    /// A rule names an approval workflow that is not defined.
    UndefinedWorkflow { workflow: T, pattern: T },
    /// A rule names no workflow, and there is not exactly one to choose.
    MissingApprovalWorkflow { pattern: T, workflow_count: usize },
    /// A glob pattern does not compile.
    InvalidGlobPattern { pattern: T, message: T },
    /// A rule's source filter names a source that is not defined.
    UndefinedSourceInRule { source_id: T, pattern: T },
    /// A workflow's timeout is shorter than the minimum.
    InvalidWorkflowTimeout { workflow: T, field: T, duration_secs: u64 },
    /// A duration is not well formed.
    InvalidDuration { value: T, message: T },
    /// A URL is not well formed.
    InvalidUrl { url: T, message: T },
    /// A Cedar policy or schema file does not exist.
    PolicyFileNotFound { path: T },
    /// A required environment variable is not set.
    MissingEnvVar { var: T, field: T },
    /// The schema version is not supported.
    UnsupportedSchemaVersion { version: u32 },
    /// The schema version is missing.
    MissingSchemaVersion,
    /// The success sample rate lies outside the unit interval.
    InvalidSampleRate { rate_bits: u64 },
    /// The sampling strategy is not known.
    UnknownSamplingStrategy { strategy: T },
    /// The OTLP endpoint is not a URL.
    InvalidOtlpEndpoint { endpoint: T, message: T },
    /// The OTLP protocol is not known.
    UnknownOtlpProtocol { protocol: T },
    /// The export queue holds nothing.
    InvalidQueueSize { size: usize },
    /// The delay between exports is too short.
    InvalidBatchDelay { delay_ms: u64 },
    /// The export batch is empty or larger than the queue.
    InvalidExportBatchSize { batch_size: usize, queue_size: usize },
    /// The export timeout is too short.
    InvalidExportTimeout { timeout_ms: u64 },
    /// The file does not parse.
    ParseError(T),
    /// The file cannot be read.
    IoError(T),
    /// There is no configuration file at any search location.
    ConfigFileNotFound { searched: L },
    /// The configuration file is empty.
    EmptyConfigFile,
}

/// What Rust's `Debug` writes for a list of strings.
pub uninterp spec fn debug_list(items: Seq<Seq<char>>) -> Seq<char>;

/// `Debug` of `Vec<String>`, by `format!` with `{:?}`: the text depends on the
/// strings alone.
#[verifier::external_body]
fn debug_strings(items: &Vec<String>) -> (r: String)
    ensures
        r@ == debug_list(texts(items@)),
{
    format!("{:?}", items)
}

impl ConfigError {
    /// The error with its strings taken as character sequences.
    pub open spec fn view(self) -> ConfigError<Seq<char>, Seq<Seq<char>>> {
        match self {
            ConfigError::NoSourcesDefined => ConfigError::NoSourcesDefined,
            ConfigError::V02SingleSourceOnly { count } => ConfigError::V02SingleSourceOnly { count },
            ConfigError::V02McpOnly { kind } => ConfigError::V02McpOnly { kind: kind@ },
            ConfigError::DuplicateSourceId { id } => ConfigError::DuplicateSourceId { id: id@ },
            ConfigError::ReservedPrefix { id } => ConfigError::ReservedPrefix { id: id@ },
            ConfigError::InvalidSourceId { id, reason } => ConfigError::InvalidSourceId {
                id: id@,
                reason: reason@,
            },
            ConfigError::DuplicatePrefix { prefix } => ConfigError::DuplicatePrefix {
                prefix: prefix@,
            },
            ConfigError::MissingPolicyId { pattern } => ConfigError::MissingPolicyId {
                pattern: pattern@,
            },
            ConfigError::UndefinedWorkflow { workflow, pattern } => ConfigError::UndefinedWorkflow {
                workflow: workflow@,
                pattern: pattern@,
            },
            ConfigError::MissingApprovalWorkflow {
                pattern,
                workflow_count,
            } => ConfigError::MissingApprovalWorkflow { pattern: pattern@, workflow_count },
            ConfigError::InvalidGlobPattern {
                pattern,
                message,
            } => ConfigError::InvalidGlobPattern { pattern: pattern@, message: message@ },
            ConfigError::UndefinedSourceInRule {
                source_id,
                pattern,
            } => ConfigError::UndefinedSourceInRule { source_id: source_id@, pattern: pattern@ },
            ConfigError::InvalidWorkflowTimeout {
                workflow,
                field,
                duration_secs,
            } => ConfigError::InvalidWorkflowTimeout {
                workflow: workflow@,
                field: field@,
                duration_secs,
            },
            ConfigError::InvalidDuration { value, message } => ConfigError::InvalidDuration {
                value: value@,
                message: message@,
            },
            ConfigError::InvalidUrl { url, message } => ConfigError::InvalidUrl {
                url: url@,
                message: message@,
            },
            ConfigError::PolicyFileNotFound { path } => ConfigError::PolicyFileNotFound {
                path: path@,
            },
            ConfigError::MissingEnvVar { var, field } => ConfigError::MissingEnvVar {
                var: var@,
                field: field@,
            },
            ConfigError::UnsupportedSchemaVersion {
                version,
            } => ConfigError::UnsupportedSchemaVersion { version },
            ConfigError::MissingSchemaVersion => ConfigError::MissingSchemaVersion,
            ConfigError::InvalidSampleRate { rate_bits } => ConfigError::InvalidSampleRate {
                rate_bits,
            },
            ConfigError::UnknownSamplingStrategy {
                strategy,
            } => ConfigError::UnknownSamplingStrategy { strategy: strategy@ },
            ConfigError::InvalidOtlpEndpoint {
                endpoint,
                message,
            } => ConfigError::InvalidOtlpEndpoint { endpoint: endpoint@, message: message@ },
            ConfigError::UnknownOtlpProtocol { protocol } => ConfigError::UnknownOtlpProtocol {
                protocol: protocol@,
            },
            ConfigError::InvalidQueueSize { size } => ConfigError::InvalidQueueSize { size },
            ConfigError::InvalidBatchDelay { delay_ms } => ConfigError::InvalidBatchDelay {
                delay_ms,
            },
            ConfigError::InvalidExportBatchSize {
                batch_size,
                queue_size,
            } => ConfigError::InvalidExportBatchSize { batch_size, queue_size },
            ConfigError::InvalidExportTimeout { timeout_ms } => ConfigError::InvalidExportTimeout {
                timeout_ms,
            },
            ConfigError::ParseError(message) => ConfigError::ParseError(message@),
            ConfigError::IoError(message) => ConfigError::IoError(message@),
            ConfigError::ConfigFileNotFound { searched } => ConfigError::ConfigFileNotFound {
                searched: texts(searched@),
            },
            ConfigError::EmptyConfigFile => ConfigError::EmptyConfigFile,
        }
    }
}

impl ConfigError<Seq<char>, Seq<Seq<char>>> {
    /// The text that tells a person what is wrong.
    pub open spec fn text(self) -> Seq<char> {
        match self {
            ConfigError::NoSourcesDefined => "no sources defined in configuration"@,
            ConfigError::V02SingleSourceOnly { count } => {
                "v0.2 supports only a single source, found "@ + numeral(count as nat)
            },
            ConfigError::V02McpOnly { kind } => {
                "v0.2 supports only kind: mcp, found '"@ + kind + "'"@
            },
            ConfigError::DuplicateSourceId { id } => "duplicate source ID: '"@ + id + "'"@,
            ConfigError::ReservedPrefix { id } => {
                "source ID '"@ + id + "' uses reserved prefix '_'"@
            },
            ConfigError::InvalidSourceId { id, reason } => {
                "invalid source ID '"@ + id + "': "@ + reason
            },
            ConfigError::DuplicatePrefix { prefix } => "duplicate prefix: '"@ + prefix + "'"@,
            ConfigError::MissingPolicyId { pattern } => {
                "missing policy_id for action: policy in rule '"@ + pattern + "'"@
            },
            ConfigError::UndefinedWorkflow { workflow, pattern } => {
                "undefined workflow '"@ + workflow + "' in rule '"@ + pattern + "'"@
            },
            ConfigError::MissingApprovalWorkflow { pattern, workflow_count } => {
                "rule '"@ + pattern + "' names no approval workflow, but "@ + numeral(
                    workflow_count as nat,
                ) + " workflows are defined"@
            },
            ConfigError::InvalidGlobPattern { pattern, message } => {
                "invalid glob pattern '"@ + pattern + "': "@ + message
            },
            ConfigError::UndefinedSourceInRule { source_id, pattern } => {
                "undefined source '"@ + source_id + "' in rule '"@ + pattern + "'"@
            },
            ConfigError::InvalidWorkflowTimeout { workflow, field, duration_secs } => {
                "workflow '"@ + workflow + "': "@ + field + " of "@ + numeral(duration_secs as nat)
                    + "s is too short"@
            },
            ConfigError::InvalidDuration { value, message } => {
                "invalid duration '"@ + value + "': "@ + message
            },
            ConfigError::InvalidUrl { url, message } => "invalid URL '"@ + url + "': "@ + message,
            ConfigError::PolicyFileNotFound { path } => "policy file not found: "@ + path,
            ConfigError::MissingEnvVar { var, field } => {
                "environment variable '"@ + var + "' not set (required for field '"@ + field
                    + "')"@
            },
            ConfigError::UnsupportedSchemaVersion { version } => {
                "unsupported schema version "@ + numeral(version as nat) + ", expected 1"@
            },
            ConfigError::MissingSchemaVersion => "missing required field 'schema'"@,
            ConfigError::InvalidSampleRate { rate_bits } => {
                "success_sample_rate must be between 0.0 and 1.0"@
            },
            ConfigError::UnknownSamplingStrategy { strategy } => {
                "unknown sampling strategy '"@ + strategy + "'"@
            },
            ConfigError::InvalidOtlpEndpoint { endpoint, message } => {
                "invalid OTLP endpoint '"@ + endpoint + "': "@ + message
            },
            ConfigError::UnknownOtlpProtocol { protocol } => {
                "unknown OTLP protocol '"@ + protocol + "'"@
            },
            ConfigError::InvalidQueueSize { size } => {
                "max_queue_size must be greater than 0, found "@ + numeral(size as nat)
            },
            ConfigError::InvalidBatchDelay { delay_ms } => {
                "scheduled_delay_ms must be at least 100, found "@ + numeral(delay_ms as nat)
            },
            ConfigError::InvalidExportBatchSize { batch_size, queue_size } => {
                "max_export_batch_size must be between 1 and max_queue_size ("@ + numeral(
                    queue_size as nat,
                ) + "), found "@ + numeral(batch_size as nat)
            },
            ConfigError::InvalidExportTimeout { timeout_ms } => {
                "export_timeout_ms must be at least 100, found "@ + numeral(timeout_ms as nat)
            },
            ConfigError::ParseError(message) => "YAML parse error: "@ + message,
            ConfigError::IoError(message) => "I/O error: "@ + message,
            ConfigError::ConfigFileNotFound { searched } => {
                "configuration file not found (searched: "@ + debug_list(searched) + ")"@
            },
            ConfigError::EmptyConfigFile => "configuration file is empty"@,
        }
    }
}

impl ConfigError {
    /// The text that tells a person what is wrong.
    pub fn message(&self) -> (r: String)
        ensures
            r@ == self@.text(),
    {
        match self {
            ConfigError::NoSourcesDefined => "no sources defined in configuration".to_owned(),
            ConfigError::V02SingleSourceOnly { count } => "v0.2 supports only a single source, found "
                .to_owned()
                .concat(decimal(*count as u64).as_str()),
            ConfigError::V02McpOnly { kind } => quoted(
                "v0.2 supports only kind: mcp, found '",
                kind.as_str(),
                "'",
            ),
            ConfigError::DuplicateSourceId { id } => quoted(
                "duplicate source ID: '",
                id.as_str(),
                "'",
            ),
            ConfigError::ReservedPrefix { id } => quoted(
                "source ID '",
                id.as_str(),
                "' uses reserved prefix '_'",
            ),
            ConfigError::InvalidSourceId { id, reason } => quoted(
                "invalid source ID '",
                id.as_str(),
                "': ",
            ).concat(reason.as_str()),
            ConfigError::DuplicatePrefix { prefix } => quoted(
                "duplicate prefix: '",
                prefix.as_str(),
                "'",
            ),
            ConfigError::MissingPolicyId { pattern } => quoted(
                "missing policy_id for action: policy in rule '",
                pattern.as_str(),
                "'",
            ),
            ConfigError::UndefinedWorkflow { workflow, pattern } => quoted(
                "undefined workflow '",
                workflow.as_str(),
                "' in rule '",
            ).concat(pattern.as_str()).concat("'"),
            ConfigError::MissingApprovalWorkflow { pattern, workflow_count } => quoted(
                "rule '",
                pattern.as_str(),
                "' names no approval workflow, but ",
            ).concat(decimal(*workflow_count as u64).as_str()).concat(" workflows are defined"),
            ConfigError::InvalidGlobPattern { pattern, message } => quoted(
                "invalid glob pattern '",
                pattern.as_str(),
                "': ",
            ).concat(message.as_str()),
            ConfigError::UndefinedSourceInRule { source_id, pattern } => quoted(
                "undefined source '",
                source_id.as_str(),
                "' in rule '",
            ).concat(pattern.as_str()).concat("'"),
            ConfigError::InvalidWorkflowTimeout { workflow, field, duration_secs } => quoted(
                "workflow '",
                workflow.as_str(),
                "': ",
            ).concat(field.as_str()).concat(" of ").concat(decimal(*duration_secs).as_str()).concat(
                "s is too short",
            ),
            ConfigError::InvalidDuration { value, message } => quoted(
                "invalid duration '",
                value.as_str(),
                "': ",
            ).concat(message.as_str()),
            ConfigError::InvalidUrl { url, message } => quoted(
                "invalid URL '",
                url.as_str(),
                "': ",
            ).concat(message.as_str()),
            ConfigError::PolicyFileNotFound { path } => "policy file not found: ".to_owned().concat(
                path.as_str(),
            ),
            ConfigError::MissingEnvVar { var, field } => quoted(
                "environment variable '",
                var.as_str(),
                "' not set (required for field '",
            ).concat(field.as_str()).concat("')"),
            ConfigError::UnsupportedSchemaVersion { version } => quoted(
                "unsupported schema version ",
                decimal(*version as u64).as_str(),
                ", expected 1",
            ),
            ConfigError::MissingSchemaVersion => "missing required field 'schema'".to_owned(),
            ConfigError::InvalidSampleRate {
                ..
            } => "success_sample_rate must be between 0.0 and 1.0".to_owned(),
            ConfigError::UnknownSamplingStrategy { strategy } => quoted(
                "unknown sampling strategy '",
                strategy.as_str(),
                "'",
            ),
            ConfigError::InvalidOtlpEndpoint { endpoint, message } => quoted(
                "invalid OTLP endpoint '",
                endpoint.as_str(),
                "': ",
            ).concat(message.as_str()),
            ConfigError::UnknownOtlpProtocol { protocol } => quoted(
                "unknown OTLP protocol '",
                protocol.as_str(),
                "'",
            ),
            ConfigError::InvalidQueueSize { size } => "max_queue_size must be greater than 0, found "
                .to_owned()
                .concat(decimal(*size as u64).as_str()),
            ConfigError::InvalidBatchDelay {
                delay_ms,
            } => "scheduled_delay_ms must be at least 100, found ".to_owned().concat(
                decimal(*delay_ms).as_str(),
            ),
            ConfigError::InvalidExportBatchSize { batch_size, queue_size } => quoted(
                "max_export_batch_size must be between 1 and max_queue_size (",
                decimal(*queue_size as u64).as_str(),
                "), found ",
            ).concat(decimal(*batch_size as u64).as_str()),
            ConfigError::InvalidExportTimeout {
                timeout_ms,
            } => "export_timeout_ms must be at least 100, found ".to_owned().concat(
                decimal(*timeout_ms).as_str(),
            ),
            ConfigError::ParseError(message) => "YAML parse error: ".to_owned().concat(
                message.as_str(),
            ),
            ConfigError::IoError(message) => "I/O error: ".to_owned().concat(message.as_str()),
            ConfigError::ConfigFileNotFound { searched } => quoted(
                "configuration file not found (searched: ",
                debug_strings(searched).as_str(),
                ")",
            ),
            ConfigError::EmptyConfigFile => "configuration file is empty".to_owned(),
        }
    }
}

/// A text between two others.
pub(crate) fn quoted(before: &str, text: &str, after: &str) -> (r: String)
    ensures
        r@ == before@ + text@ + after@,
{
    before.to_owned().concat(text).concat(after)
}

/// Validation warnings (non-fatal). `T` holds a text, as in [`ConfigError`].
#[derive(Debug, Clone, PartialEq, Eq)]
pub enum ValidationWarning<T = String> {
    /// A policy ID is given, but the action is not `policy`.
    PolicyIdWithoutPolicyAction { pattern: T },
    /// An environment variable is not set, and a default is used.
    MissingEnvVar { var: T, field: T },
    /// A glob pattern matches no tool.
    PatternMatchesNothing { pattern: T },
    /// A feature is not supported by the current version.
    UnsupportedFeature { feature: T, min_version: T },
    /// A workflow has Slack settings of its own.
    PerWorkflowSlackNotSupported { workflow: T },
}

impl ValidationWarning {
    /// The warning with its strings taken as character sequences.
    pub open spec fn view(self) -> ValidationWarning<Seq<char>> {
        match self {
            ValidationWarning::PolicyIdWithoutPolicyAction {
                pattern,
            } => ValidationWarning::PolicyIdWithoutPolicyAction { pattern: pattern@ },
            ValidationWarning::MissingEnvVar { var, field } => ValidationWarning::MissingEnvVar {
                var: var@,
                field: field@,
            },
            ValidationWarning::PatternMatchesNothing {
                pattern,
            } => ValidationWarning::PatternMatchesNothing { pattern: pattern@ },
            ValidationWarning::UnsupportedFeature {
                feature,
                min_version,
            } => ValidationWarning::UnsupportedFeature {
                feature: feature@,
                min_version: min_version@,
            },
            ValidationWarning::PerWorkflowSlackNotSupported {
                workflow,
            } => ValidationWarning::PerWorkflowSlackNotSupported { workflow: workflow@ },
        }
    }

    /// The text that tells a person of the warning.
    pub fn message(&self) -> (r: String)
        ensures
            r@ == self@.text(),
    {
        match self {
            ValidationWarning::PolicyIdWithoutPolicyAction { pattern } => quoted(
                "rule '",
                pattern.as_str(),
                "' has policy_id but action is not 'policy'",
            ),
            ValidationWarning::MissingEnvVar { var, field } => quoted(
                "environment variable '",
                var.as_str(),
                "' not set for '",
            ).concat(field.as_str()).concat("'"),
            ValidationWarning::PatternMatchesNothing { pattern } => quoted(
                "glob pattern '",
                pattern.as_str(),
                "' may match no tools",
            ),
            ValidationWarning::UnsupportedFeature { feature, min_version } => quoted(
                "feature '",
                feature.as_str(),
                "' requires version ",
            ).concat(min_version.as_str()).concat(" or later"),
            ValidationWarning::PerWorkflowSlackNotSupported { workflow } => quoted(
                "workflow '",
                workflow.as_str(),
                "' has Slack settings of its own, which are not supported yet",
            ),
        }
    }
}

impl ValidationWarning<Seq<char>> {
    /// The text that tells a person of the warning.
    pub open spec fn text(self) -> Seq<char> {
        match self {
            ValidationWarning::PolicyIdWithoutPolicyAction { pattern } => {
                "rule '"@ + pattern + "' has policy_id but action is not 'policy'"@
            },
            ValidationWarning::MissingEnvVar { var, field } => {
                "environment variable '"@ + var + "' not set for '"@ + field + "'"@
            },
            ValidationWarning::PatternMatchesNothing { pattern } => {
                "glob pattern '"@ + pattern + "' may match no tools"@
            },
            ValidationWarning::UnsupportedFeature { feature, min_version } => {
                "feature '"@ + feature + "' requires version "@ + min_version + " or later"@
            },
            ValidationWarning::PerWorkflowSlackNotSupported { workflow } => {
                "workflow '"@ + workflow
                    + "' has Slack settings of its own, which are not supported yet"@
            },
        }
    }
}

/// Result of configuration validation.
#[derive(Debug)]
pub struct ValidationResult {
    /// Non-fatal warnings found during validation.
    pub warnings: Vec<ValidationWarning>,
}

/// The warnings of a sequence with their strings taken as character sequences.
pub open spec fn warning_views(w: Seq<ValidationWarning>) -> Seq<ValidationWarning<Seq<char>>> {
    Seq::new(w.len(), |i: int| w[i]@)
}

impl ValidationResult {
    /// The warnings, in the order in which they were found.
    pub open spec fn view(self) -> Seq<ValidationWarning<Seq<char>>> {
        warning_views(self.warnings@)
    }

    /// A validation result with no warnings.
    pub fn ok() -> (r: Self)
        ensures
            r@ == Seq::<ValidationWarning<Seq<char>>>::empty(),
            r.warnings@ == Seq::<ValidationWarning>::empty(),
    {
        ValidationResult { warnings: Vec::new() }
    }

    /// A validation result with the given warnings.
    pub fn with_warnings(warnings: Vec<ValidationWarning>) -> (r: Self)
        ensures
            r.warnings == warnings,
    {
        ValidationResult { warnings }
    }

    /// Whether validation passed with no warnings.
    pub fn is_clean(&self) -> (r: bool)
        ensures
            r == (self@.len() == 0),
    {
        self.warnings.is_empty()
    }
}

} // verus!
