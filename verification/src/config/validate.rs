//! Validation of a configuration.

use vstd::prelude::*;
use vstd::string::*;

use crate::config::error::{
    quoted, warning_views, ConfigError, ValidationResult, ValidationWarning,
};
use crate::config::glob_pattern::{compile_glob, glob_new};
use crate::config::schema::{
    Action, ApprovalDestination, BatchConfig, CedarConfig, Config, HumanWorkflow, OtlpConfig, Rule,
    SamplingConfig, Source, SourceFilter, TelemetryYamlConfig,
};
use crate::config::url_check::{is_url, parses_as_url};
use crate::text::{chars_of, contains_text, is_space, same_text, texts};
use crate::text_map::TextMap;

verus! {

/// Semantic version for feature gating.
#[derive(Debug, Clone, Copy, PartialEq, Eq, Structural)]
pub struct Version {
    pub major: u32,
    pub minor: u32,
    pub patch: u32,
}

impl Version {
    /// Version 0.2.
    pub fn v0_2() -> (r: Version)
        ensures
            r == (Version { major: 0, minor: 2, patch: 0 }),
    {
        Version { major: 0, minor: 2, patch: 0 }
    }
}

/// An error with its strings taken as character sequences.
pub type ErrorView = ConfigError<Seq<char>, Seq<Seq<char>>>;

/// The minimum of a workflow's time limits, in seconds.
pub const MIN_WORKFLOW_TIMEOUT_SECS: u64 = 5;

/// The minimum of the export delay and of the export timeout, in milliseconds.
pub const MIN_EXPORT_MS: u64 = 100;

/// The version limits: version 0.2 takes exactly one source.
pub open spec fn version_error(sources: Seq<Source>, version: Version) -> Option<ErrorView> {
    if version.major == 0 && version.minor == 2 && sources.len() != 1 {
        Some(ConfigError::V02SingleSourceOnly { count: sources.len() as usize })
    } else {
        None
    }
}

/// The first source, from position `i` on, whose ID an earlier source has.
pub open spec fn duplicate_id_error(sources: Seq<Source>, i: int) -> Option<ErrorView>
    decreases sources.len() - i,
{
    if i < 0 || i >= sources.len() {
        None
    } else if exists|j: int| 0 <= j < i && (#[trigger] sources[j]).id_text() == sources[i].id_text() {
        Some(ConfigError::DuplicateSourceId { id: sources[i].id_text() })
    } else {
        duplicate_id_error(sources, i + 1)
    }
}

/// The first source, from position `i` on, whose ID has the reserved prefix.
pub open spec fn reserved_id_error(sources: Seq<Source>, i: int) -> Option<ErrorView>
    decreases sources.len() - i,
{
    if i < 0 || i >= sources.len() {
        None
    } else if sources[i].id_text().len() > 0 && sources[i].id_text()[0] == '_' {
        Some(ConfigError::ReservedPrefix { id: sources[i].id_text() })
    } else {
        reserved_id_error(sources, i + 1)
    }
}

/// The characters of which a source ID may be made.
pub open spec fn is_id_char(c: char) -> bool {
    'a' <= c <= 'z' || 'A' <= c <= 'Z' || '0' <= c <= '9' || c == '.' || c == '_' || c == '-'
}

/// What is wrong with the form of a source ID.
pub open spec fn id_form_error(id: Seq<char>) -> Option<ErrorView> {
    if id.len() == 0 {
        Some(ConfigError::InvalidSourceId { id, reason: "source ID must not be empty"@ })
    } else if is_space(id[0]) || is_space(id.last()) {
        Some(
            ConfigError::InvalidSourceId {
                id,
                reason: "source ID must not have leading or trailing whitespace"@,
            },
        )
    } else if !(forall|i: int| 0 <= i < id.len() ==> is_id_char(#[trigger] id[i])) {
        Some(
            ConfigError::InvalidSourceId {
                id,
                reason: "source ID must contain only [a-zA-Z0-9._-]"@,
            },
        )
    } else {
        None
    }
}

/// The first source, from position `i` on, whose ID is not well formed.
pub open spec fn source_id_error(sources: Seq<Source>, i: int) -> Option<ErrorView>
    decreases sources.len() - i,
{
    if i < 0 || i >= sources.len() {
        None
    } else if id_form_error(sources[i].id_text()) is Some {
        id_form_error(sources[i].id_text())
    } else {
        source_id_error(sources, i + 1)
    }
}

/// The first source, from position `i` on, whose prefix an earlier source has.
pub open spec fn prefix_error(sources: Seq<Source>, i: int) -> Option<ErrorView>
    decreases sources.len() - i,
{
    if i < 0 || i >= sources.len() {
        None
    } else if sources[i].prefix_text() is Some && exists|j: int|
        0 <= j < i && (#[trigger] sources[j]).prefix_text() == sources[i].prefix_text() {
        Some(ConfigError::DuplicatePrefix { prefix: sources[i].prefix_text()->0 })
    } else {
        prefix_error(sources, i + 1)
    }
}

/// The first source, from position `i` on, whose URL does not parse.
pub open spec fn url_error(sources: Seq<Source>, i: int) -> Option<ErrorView>
    decreases sources.len() - i,
{
    if i < 0 || i >= sources.len() {
        None
    } else if !is_url(sources[i].url_text()) {
        Some(
            ConfigError::InvalidUrl {
                url: sources[i].url_text(),
                message: "invalid URL format"@,
            },
        )
    } else {
        url_error(sources, i + 1)
    }
}

/// The number of workflows that are defined.
pub open spec fn workflow_count(config: Config) -> nat {
    match config.approval {
        Some(w) => w.items().len(),
        None => 0,
    }
}

/// Whether a workflow of this name is defined.
pub open spec fn workflow_defined(config: Config, name: Seq<char>) -> bool {
    config.approval is Some && config.approval->0@.contains_key(name)
}

/// Whether a source of this ID is defined.
pub open spec fn source_defined(sources: Seq<Source>, id: Seq<char>) -> bool {
    exists|i: int| 0 <= i < sources.len() && (#[trigger] sources[i]).id_text() == id
}

/// The first source ID of a list, from position `i` on, that is not defined.
pub open spec fn filter_error(
    sources: Seq<Source>,
    pattern: Seq<char>,
    ids: Seq<Seq<char>>,
    i: int,
) -> Option<ErrorView>
    decreases ids.len() - i,
{
    if i < 0 || i >= ids.len() {
        None
    } else if !source_defined(sources, ids[i]) {
        Some(ConfigError::UndefinedSourceInRule { source_id: ids[i], pattern })
    } else {
        filter_error(sources, pattern, ids, i + 1)
    }
}

/// The source IDs that a filter names.
pub open spec fn filter_ids(filter: SourceFilter) -> Seq<Seq<char>> {
    match filter {
        SourceFilter::Single(id) => seq![id@],
        SourceFilter::Multiple(ids) => texts(ids@),
    }
}

/// What is wrong with a rule's choice of approval workflow.
pub open spec fn approval_error(config: Config, rule: Rule) -> Option<ErrorView> {
    if rule.action != Action::Approve {
        None
    } else {
        match rule.approval {
            Some(workflow) => if workflow_defined(config, workflow@) {
                None
            } else {
                Some(
                    ConfigError::UndefinedWorkflow {
                        workflow: workflow@,
                        pattern: rule.pattern@,
                    },
                )
            },
            None => if workflow_count(config) == 1 {
                None
            } else {
                Some(
                    ConfigError::MissingApprovalWorkflow {
                        pattern: rule.pattern@,
                        workflow_count: workflow_count(config) as usize,
                    },
                )
            },
        }
    }
}

/// What is wrong with a rule.
pub open spec fn rule_error(config: Config, rule: Rule) -> Option<ErrorView> {
    if rule.action == Action::Policy && rule.policy_id is None {
        Some(ConfigError::MissingPolicyId { pattern: rule.pattern@ })
    } else if approval_error(config, rule) is Some {
        approval_error(config, rule)
    } else if glob_new(rule.pattern@) is Err {
        Some(
            ConfigError::InvalidGlobPattern {
                pattern: rule.pattern@,
                message: glob_new(rule.pattern@)->Err_0,
            },
        )
    } else {
        match rule.source {
            Some(filter) => filter_error(config.sources@, rule.pattern@, filter_ids(filter), 0),
            None => None,
        }
    }
}

/// The first rule, from position `i` on, with which something is wrong.
pub open spec fn rules_error(config: Config, i: int) -> Option<ErrorView>
    decreases config.governance.rules@.len() - i,
{
    if i < 0 || i >= config.governance.rules@.len() {
        None
    } else if rule_error(config, config.governance.rules@[i]) is Some {
        rule_error(config, config.governance.rules@[i])
    } else {
        rules_error(config, i + 1)
    }
}

/// The warnings about the first `n` rules: one for each rule that has a policy
/// ID but another action.
pub open spec fn rule_warnings(rules: Seq<Rule>, n: int) -> Seq<ValidationWarning<Seq<char>>>
    decreases n,
{
    if n <= 0 {
        Seq::empty()
    } else if rules[n - 1].policy_id is Some && rules[n - 1].action != Action::Policy {
        rule_warnings(rules, n - 1).push(
            ValidationWarning::PolicyIdWithoutPolicyAction { pattern: rules[n - 1].pattern@ },
        )
    } else {
        rule_warnings(rules, n - 1)
    }
}

/// The first text of an exposure list, from position `i` on, that does not
/// compile.
pub open spec fn exposure_list_error(
    id: Seq<char>,
    tools: Seq<Seq<char>>,
    i: int,
) -> Option<ErrorView>
    decreases tools.len() - i,
{
    if i < 0 || i >= tools.len() {
        None
    } else if glob_new(tools[i]) is Err {
        Some(
            ConfigError::InvalidGlobPattern {
                pattern: tools[i],
                message: "invalid expose pattern for source '"@ + id + "': "@ + glob_new(
                    tools[i],
                )->Err_0,
            },
        )
    } else {
        exposure_list_error(id, tools, i + 1)
    }
}

/// What is wrong with a source's exposure list.
pub open spec fn exposure_error(source: Source) -> Option<ErrorView> {
    match source.exposure().pattern_texts() {
        Some(tools) => exposure_list_error(source.id_text(), tools, 0),
        None => None,
    }
}

/// The first source, from position `i` on, whose exposure list is not valid.
pub open spec fn exposures_error(sources: Seq<Source>, i: int) -> Option<ErrorView>
    decreases sources.len() - i,
{
    if i < 0 || i >= sources.len() {
        None
    } else if exposure_error(sources[i]) is Some {
        exposure_error(sources[i])
    } else {
        exposures_error(sources, i + 1)
    }
}

/// What is wrong with a workflow's time limits.
pub open spec fn workflow_error(name: Seq<char>, workflow: HumanWorkflow) -> Option<ErrorView> {
    if workflow.timeout is Some && workflow.timeout->0.secs() < MIN_WORKFLOW_TIMEOUT_SECS {
        Some(
            ConfigError::InvalidWorkflowTimeout {
                workflow: name,
                field: "timeout"@,
                duration_secs: workflow.timeout->0.secs(),
            },
        )
    } else if workflow.blocking_timeout is Some && workflow.blocking_timeout->0.secs()
        < MIN_WORKFLOW_TIMEOUT_SECS {
        Some(
            ConfigError::InvalidWorkflowTimeout {
                workflow: name,
                field: "blocking_timeout"@,
                duration_secs: workflow.blocking_timeout->0.secs(),
            },
        )
    } else {
        None
    }
}

/// The first workflow, from position `i` on, with which something is wrong.
pub open spec fn workflows_error(
    items: Seq<(Seq<char>, HumanWorkflow)>,
    i: int,
) -> Option<ErrorView>
    decreases items.len() - i,
{
    if i < 0 || i >= items.len() {
        None
    } else if workflow_error(items[i].0, items[i].1) is Some {
        workflow_error(items[i].0, items[i].1)
    } else {
        workflows_error(items, i + 1)
    }
}

/// Whether a workflow has Slack settings of its own.
pub open spec fn has_own_slack_settings(workflow: HumanWorkflow) -> bool {
    match workflow.destination {
        ApprovalDestination::Slack { channel, token_env, mention } => token_env is Some
            || mention is Some || channel@ != "#approvals"@,
    }
}

/// The warnings about the first `n` workflows: one for each that has Slack
/// settings of its own.
pub open spec fn workflow_warnings(
    items: Seq<(Seq<char>, HumanWorkflow)>,
    n: int,
) -> Seq<ValidationWarning<Seq<char>>>
    decreases n,
{
    if n <= 0 {
        Seq::empty()
    } else if has_own_slack_settings(items[n - 1].1) {
        workflow_warnings(items, n - 1).push(
            ValidationWarning::PerWorkflowSlackNotSupported { workflow: items[n - 1].0 },
        )
    } else {
        workflow_warnings(items, n - 1)
    }
}

/// The workflows, in order.
pub open spec fn workflow_items(config: Config) -> Seq<(Seq<char>, HumanWorkflow)> {
    match config.approval {
        Some(w) => w.items(),
        None => Seq::empty(),
    }
}

/// The first policy file, from position `i` on, that does not exist.
pub open spec fn policy_files_error(
    paths: Seq<Seq<char>>,
    existing: Seq<Seq<char>>,
    i: int,
) -> Option<ErrorView>
    decreases paths.len() - i,
{
    if i < 0 || i >= paths.len() {
        None
    } else if !existing.contains(paths[i]) {
        Some(ConfigError::PolicyFileNotFound { path: paths[i] })
    } else {
        policy_files_error(paths, existing, i + 1)
    }
}

/// What is wrong with the Cedar settings: a policy file or the schema file does
/// not exist.
pub open spec fn cedar_error(cedar: CedarConfig, existing: Seq<Seq<char>>) -> Option<ErrorView> {
    if policy_files_error(texts(cedar.policies@), existing, 0) is Some {
        policy_files_error(texts(cedar.policies@), existing, 0)
    } else {
        match cedar.schema {
            Some(path) => if existing.contains(path@) {
                None
            } else {
                Some(ConfigError::PolicyFileNotFound { path: path@ })
            },
            None => None,
        }
    }
}

/// What is wrong with the sampling settings.
pub open spec fn sampling_error(sampling: SamplingConfig) -> Option<ErrorView> {
    if !sampling.success_sample_rate.in_unit_interval() {
        Some(ConfigError::InvalidSampleRate { rate_bits: sampling.success_sample_rate.bits })
    } else if sampling.strategy@ != "head"@ && sampling.strategy@ != "tail"@ {
        Some(ConfigError::UnknownSamplingStrategy { strategy: sampling.strategy@ })
    } else {
        None
    }
}

/// What is wrong with the OTLP settings.
pub open spec fn otlp_error(otlp: OtlpConfig) -> Option<ErrorView> {
    if !is_url(otlp.endpoint@) {
        Some(
            ConfigError::InvalidOtlpEndpoint {
                endpoint: otlp.endpoint@,
                message: "invalid URL format"@,
            },
        )
    } else if otlp.protocol@ != "http/protobuf"@ && otlp.protocol@ != "grpc"@ {
        Some(ConfigError::UnknownOtlpProtocol { protocol: otlp.protocol@ })
    } else {
        None
    }
}

/// What is wrong with the batch settings.
pub open spec fn batch_error(batch: BatchConfig) -> Option<ErrorView> {
    if batch.max_queue_size == 0 {
        Some(ConfigError::InvalidQueueSize { size: batch.max_queue_size })
    } else if batch.scheduled_delay_ms < MIN_EXPORT_MS {
        Some(ConfigError::InvalidBatchDelay { delay_ms: batch.scheduled_delay_ms })
    } else if batch.max_export_batch_size == 0 || batch.max_export_batch_size
        > batch.max_queue_size {
        Some(
            ConfigError::InvalidExportBatchSize {
                batch_size: batch.max_export_batch_size,
                queue_size: batch.max_queue_size,
            },
        )
    } else if batch.export_timeout_ms < MIN_EXPORT_MS {
        Some(ConfigError::InvalidExportTimeout { timeout_ms: batch.export_timeout_ms })
    } else {
        None
    }
}

/// What is wrong with the telemetry settings.
pub open spec fn telemetry_error(telemetry: TelemetryYamlConfig) -> Option<ErrorView> {
    let sampling = match telemetry.sampling {
        Some(s) => sampling_error(s),
        None => None,
    };
    let otlp = match telemetry.otlp {
        Some(o) => otlp_error(o),
        None => None,
    };
    let batch = match telemetry.batch {
        Some(b) => batch_error(b),
        None => None,
    };
    if sampling is Some {
        sampling
    } else if otlp is Some {
        otlp
    } else {
        batch
    }
}

/// What is wrong with the sources themselves, check by check.
pub open spec fn sources_error(sources: Seq<Source>) -> Option<ErrorView> {
    if duplicate_id_error(sources, 0) is Some {
        duplicate_id_error(sources, 0)
    } else if reserved_id_error(sources, 0) is Some {
        reserved_id_error(sources, 0)
    } else if source_id_error(sources, 0) is Some {
        source_id_error(sources, 0)
    } else if prefix_error(sources, 0) is Some {
        prefix_error(sources, 0)
    } else {
        url_error(sources, 0)
    }
}

/// The first error that validation finds; `existing` holds the paths of the
/// files that exist.
pub open spec fn validation_error(
    config: Config,
    version: Version,
    existing: Seq<Seq<char>>,
) -> Option<ErrorView> {
    if config.schema != 1 {
        Some(ConfigError::UnsupportedSchemaVersion { version: config.schema })
    } else if config.sources@.len() == 0 {
        Some(ConfigError::NoSourcesDefined)
    } else if version_error(config.sources@, version) is Some {
        version_error(config.sources@, version)
    } else if sources_error(config.sources@) is Some {
        sources_error(config.sources@)
    } else if rules_error(config, 0) is Some {
        rules_error(config, 0)
    } else if exposures_error(config.sources@, 0) is Some {
        exposures_error(config.sources@, 0)
    } else if workflows_error(workflow_items(config), 0) is Some {
        workflows_error(workflow_items(config), 0)
    } else if config.cedar is Some && cedar_error(config.cedar->0, existing) is Some {
        cedar_error(config.cedar->0, existing)
    } else {
        match config.telemetry {
            Some(t) => telemetry_error(t),
            None => None,
        }
    }
}

/// The warnings of a validation that finds no error: those about rules, then
/// those about workflows.
pub open spec fn validation_warnings(config: Config) -> Seq<ValidationWarning<Seq<char>>> {
    rule_warnings(config.governance.rules@, config.governance.rules@.len() as int)
        + workflow_warnings(workflow_items(config), workflow_items(config).len() as int)
}

/// Whether the outcome of a check is the given error, or success if there is none.
pub open spec fn agrees(r: Result<(), ConfigError>, e: Option<ErrorView>) -> bool {
    match r {
        Ok(_) => e is None,
        Err(x) => e == Some(x@),
    }
}

/// Checks that no two sources have the same ID.
fn check_duplicate_ids(sources: &Vec<Source>) -> (r: Result<(), ConfigError>)
    ensures
        agrees(r, duplicate_id_error(sources@, 0)),
{
    let mut i: usize = 0;
    while i < sources.len()
        invariant
            i <= sources@.len(),
            duplicate_id_error(sources@, 0) == duplicate_id_error(sources@, i as int),
        decreases sources@.len() - i,
    {
        let mut j: usize = 0;
        while j < i
            invariant
                j <= i < sources@.len(),
                duplicate_id_error(sources@, 0) == duplicate_id_error(sources@, i as int),
                forall|k: int|
                    0 <= k < j ==> (#[trigger] sources@[k]).id_text() != sources@[i as int].id_text(),
            decreases i - j,
        {
            if same_text(sources[j].id(), sources[i].id()) {
                assert(sources@[j as int].id_text() == sources@[i as int].id_text());
                return Err(ConfigError::DuplicateSourceId { id: sources[i].id().to_owned() });
            }
            j = j + 1;
        }
        i = i + 1;
    }
    Ok(())
}

/// Checks that no source ID begins with the reserved prefix.
fn check_reserved_ids(sources: &Vec<Source>) -> (r: Result<(), ConfigError>)
    ensures
        agrees(r, reserved_id_error(sources@, 0)),
{
    let mut i: usize = 0;
    while i < sources.len()
        invariant
            i <= sources@.len(),
            reserved_id_error(sources@, 0) == reserved_id_error(sources@, i as int),
        decreases sources@.len() - i,
    {
        let id = chars_of(sources[i].id());
        if id.len() > 0 && id[0] == '_' {
            return Err(ConfigError::ReservedPrefix { id: sources[i].id().to_owned() });
        }
        i = i + 1;
    }
    Ok(())
}

/// Checks the form of a source ID.
fn check_id_form(id: &str) -> (r: Result<(), ConfigError>)
    ensures
        agrees(r, id_form_error(id@)),
{
    let chars = chars_of(id);
    if chars.len() == 0 {
        return Err(
            ConfigError::InvalidSourceId {
                id: id.to_owned(),
                reason: "source ID must not be empty".to_owned(),
            },
        );
    }
    if chars[0].is_whitespace() || chars[chars.len() - 1].is_whitespace() {
        return Err(
            ConfigError::InvalidSourceId {
                id: id.to_owned(),
                reason: "source ID must not have leading or trailing whitespace".to_owned(),
            },
        );
    }
    let mut i: usize = 0;
    while i < chars.len()
        invariant
            chars@ == id@,
            i <= chars@.len(),
            chars@.len() > 0,
            !is_space(id@[0]) && !is_space(id@.last()),
            forall|j: int| 0 <= j < i ==> is_id_char(#[trigger] id@[j]),
        decreases chars@.len() - i,
    {
        let c = chars[i];
        if !(('a' <= c && c <= 'z') || ('A' <= c && c <= 'Z') || ('0' <= c && c <= '9') || c == '.'
            || c == '_' || c == '-') {
            assert(!is_id_char(id@[i as int]));
            return Err(
                ConfigError::InvalidSourceId {
                    id: id.to_owned(),
                    reason: "source ID must contain only [a-zA-Z0-9._-]".to_owned(),
                },
            );
        }
        i = i + 1;
    }
    Ok(())
}

/// Checks the form of every source ID.
fn check_source_ids(sources: &Vec<Source>) -> (r: Result<(), ConfigError>)
    ensures
        agrees(r, source_id_error(sources@, 0)),
{
    let mut i: usize = 0;
    while i < sources.len()
        invariant
            i <= sources@.len(),
            source_id_error(sources@, 0) == source_id_error(sources@, i as int),
        decreases sources@.len() - i,
    {
        match check_id_form(sources[i].id()) {
            Ok(_) => {},
            Err(e) => {
                return Err(e);
            },
        }
        i = i + 1;
    }
    Ok(())
}

/// Checks that no two sources have the same prefix.
fn check_prefixes(sources: &Vec<Source>) -> (r: Result<(), ConfigError>)
    ensures
        agrees(r, prefix_error(sources@, 0)),
{
    let mut i: usize = 0;
    while i < sources.len()
        invariant
            i <= sources@.len(),
            prefix_error(sources@, 0) == prefix_error(sources@, i as int),
        decreases sources@.len() - i,
    {
        if let Some(prefix) = sources[i].prefix() {
            let mut j: usize = 0;
            while j < i
                invariant
                    j <= i < sources@.len(),
                    sources@[i as int].prefix_text() == Some(prefix@),
                    prefix_error(sources@, 0) == prefix_error(sources@, i as int),
                    forall|k: int|
                        0 <= k < j ==> (#[trigger] sources@[k]).prefix_text() != Some(prefix@),
                decreases i - j,
            {
                if let Some(other) = sources[j].prefix() {
                    if same_text(other, prefix) {
                        assert(sources@[j as int].prefix_text() == Some(prefix@));
                        return Err(ConfigError::DuplicatePrefix { prefix: prefix.to_owned() });
                    }
                }
                j = j + 1;
            }
        }
        i = i + 1;
    }
    Ok(())
}

/// Checks that every source URL parses.
fn check_urls(sources: &Vec<Source>) -> (r: Result<(), ConfigError>)
    ensures
        agrees(r, url_error(sources@, 0)),
{
    let mut i: usize = 0;
    while i < sources.len()
        invariant
            i <= sources@.len(),
            url_error(sources@, 0) == url_error(sources@, i as int),
        decreases sources@.len() - i,
    {
        if !parses_as_url(sources[i].url()) {
            return Err(
                ConfigError::InvalidUrl {
                    url: sources[i].url().to_owned(),
                    message: "invalid URL format".to_owned(),
                },
            );
        }
        i = i + 1;
    }
    Ok(())
}

/// Checks the sources themselves.
fn check_sources(sources: &Vec<Source>) -> (r: Result<(), ConfigError>)
    ensures
        agrees(r, sources_error(sources@)),
{
    match check_duplicate_ids(sources) {
        Ok(_) => {},
        Err(e) => {
            return Err(e);
        },
    }
    match check_reserved_ids(sources) {
        Ok(_) => {},
        Err(e) => {
            return Err(e);
        },
    }
    match check_source_ids(sources) {
        Ok(_) => {},
        Err(e) => {
            return Err(e);
        },
    }
    match check_prefixes(sources) {
        Ok(_) => {},
        Err(e) => {
            return Err(e);
        },
    }
    check_urls(sources)
}

/// Whether a source of this ID is defined.
fn has_source(sources: &Vec<Source>, id: &str) -> (r: bool)
    ensures
        r == source_defined(sources@, id@),
{
    let mut i: usize = 0;
    while i < sources.len()
        invariant
            i <= sources@.len(),
            forall|j: int| 0 <= j < i ==> (#[trigger] sources@[j]).id_text() != id@,
        decreases sources@.len() - i,
    {
        if same_text(sources[i].id(), id) {
            assert(sources@[i as int].id_text() == id@);
            return true;
        }
        i = i + 1;
    }
    false
}

/// Checks that every source that a rule's filter names is defined.
fn check_filter(
    sources: &Vec<Source>,
    pattern: &String,
    filter: &SourceFilter,
) -> (r: Result<(), ConfigError>)
    ensures
        agrees(r, filter_error(sources@, pattern@, filter_ids(*filter), 0)),
{
    match filter {
        SourceFilter::Single(id) => {
            let ghost ids = filter_ids(*filter);
            assert(ids[0] == id@);
            assert(filter_error(sources@, pattern@, ids, 1) is None);
            if !has_source(sources, id.as_str()) {
                return Err(
                    ConfigError::UndefinedSourceInRule {
                        source_id: id.clone(),
                        pattern: pattern.clone(),
                    },
                );
            }
            Ok(())
        },
        SourceFilter::Multiple(ids) => {
            let mut i: usize = 0;
            while i < ids.len()
                invariant
                    i <= ids@.len(),
                    filter_error(sources@, pattern@, texts(ids@), 0) == filter_error(
                        sources@,
                        pattern@,
                        texts(ids@),
                        i as int,
                    ),
                    filter_ids(*filter) == texts(ids@),
                decreases ids@.len() - i,
            {
                assert(texts(ids@)[i as int] == ids@[i as int]@);
                if !has_source(sources, ids[i].as_str()) {
                    return Err(
                        ConfigError::UndefinedSourceInRule {
                            source_id: ids[i].clone(),
                            pattern: pattern.clone(),
                        },
                    );
                }
                i = i + 1;
            }
            Ok(())
        },
    }
}

/// Checks a rule's choice of approval workflow.
fn check_approval(config: &Config, rule: &Rule) -> (r: Result<(), ConfigError>)
    ensures
        agrees(r, approval_error(*config, *rule)),
{
    if rule.action != Action::Approve {
        return Ok(());
    }
    match &rule.approval {
        Some(workflow) => {
            let defined = match &config.approval {
                Some(workflows) => workflows.contains_key(workflow.as_str()),
                None => false,
            };
            if !defined {
                return Err(
                    ConfigError::UndefinedWorkflow {
                        workflow: workflow.clone(),
                        pattern: rule.pattern.clone(),
                    },
                );
            }
        },
        None => {
            let count: usize = match &config.approval {
                Some(workflows) => workflows.len(),
                None => 0,
            };
            if count != 1 {
                return Err(
                    ConfigError::MissingApprovalWorkflow {
                        pattern: rule.pattern.clone(),
                        workflow_count: count,
                    },
                );
            }
        },
    }
    Ok(())
}

/// Checks a rule.
fn check_rule(config: &Config, rule: &Rule) -> (r: Result<(), ConfigError>)
    ensures
        agrees(r, rule_error(*config, *rule)),
{
    if rule.action == Action::Policy && rule.policy_id.is_none() {
        return Err(ConfigError::MissingPolicyId { pattern: rule.pattern.clone() });
    }
    match check_approval(config, rule) {
        Ok(_) => {},
        Err(e) => {
            return Err(e);
        },
    }
    match compile_glob(rule.pattern.as_str()) {
        Ok(_) => {},
        Err(message) => {
            return Err(ConfigError::InvalidGlobPattern { pattern: rule.pattern.clone(), message });
        },
    }
    match &rule.source {
        Some(filter) => check_filter(&config.sources, &rule.pattern, filter),
        None => Ok(()),
    }
}

/// Checks the patterns of a source's exposure list.
fn check_exposure(source: &Source) -> (r: Result<(), ConfigError>)
    ensures
        agrees(r, exposure_error(*source)),
{
    let expose = source.expose();
    match expose.patterns() {
        None => Ok(()),
        Some(patterns) => {
            let mut i: usize = 0;
            while i < patterns.len()
                invariant
                    i <= patterns@.len(),
                    exposure_error(*source) == exposure_list_error(
                        source.id_text(),
                        texts(patterns@),
                        i as int,
                    ),
                decreases patterns@.len() - i,
            {
                assert(texts(patterns@)[i as int] == patterns@[i as int]@);
                match compile_glob(patterns[i].as_str()) {
                    Ok(_) => {},
                    Err(message) => {
                        let text = quoted(
                            "invalid expose pattern for source '",
                            source.id(),
                            "': ",
                        ).concat(message.as_str());
                        return Err(
                            ConfigError::InvalidGlobPattern {
                                pattern: patterns[i].clone(),
                                message: text,
                            },
                        );
                    },
                }
                i = i + 1;
            }
            Ok(())
        },
    }
}

/// Checks the patterns of every source's exposure list.
fn check_exposures(sources: &Vec<Source>) -> (r: Result<(), ConfigError>)
    ensures
        agrees(r, exposures_error(sources@, 0)),
{
    let mut i: usize = 0;
    while i < sources.len()
        invariant
            i <= sources@.len(),
            exposures_error(sources@, 0) == exposures_error(sources@, i as int),
        decreases sources@.len() - i,
    {
        match check_exposure(&sources[i]) {
            Ok(_) => {},
            Err(e) => {
                return Err(e);
            },
        }
        i = i + 1;
    }
    Ok(())
}

/// Checks a workflow's time limits.
fn check_workflow(name: &String, workflow: &HumanWorkflow) -> (r: Result<(), ConfigError>)
    ensures
        agrees(r, workflow_error(name@, *workflow)),
{
    if let Some(timeout) = workflow.timeout {
        if timeout.as_secs() < MIN_WORKFLOW_TIMEOUT_SECS {
            return Err(
                ConfigError::InvalidWorkflowTimeout {
                    workflow: name.clone(),
                    field: "timeout".to_owned(),
                    duration_secs: timeout.as_secs(),
                },
            );
        }
    }
    if let Some(timeout) = workflow.blocking_timeout {
        if timeout.as_secs() < MIN_WORKFLOW_TIMEOUT_SECS {
            return Err(
                ConfigError::InvalidWorkflowTimeout {
                    workflow: name.clone(),
                    field: "blocking_timeout".to_owned(),
                    duration_secs: timeout.as_secs(),
                },
            );
        }
    }
    Ok(())
}

/// Whether a workflow has Slack settings of its own.
fn own_slack_settings(workflow: &HumanWorkflow) -> (r: bool)
    ensures
        r == has_own_slack_settings(*workflow),
{
    match &workflow.destination {
        ApprovalDestination::Slack { channel, token_env, mention } => token_env.is_some()
            || mention.is_some() || !same_text(channel.as_str(), "#approvals"),
    }
}

/// Checks the Cedar settings.
fn check_cedar(cedar: &CedarConfig, existing: &Vec<String>) -> (r: Result<(), ConfigError>)
    ensures
        agrees(r, cedar_error(*cedar, texts(existing@))),
{
    let mut i: usize = 0;
    while i < cedar.policies.len()
        invariant
            i <= cedar.policies@.len(),
            policy_files_error(texts(cedar.policies@), texts(existing@), 0) == policy_files_error(
                texts(cedar.policies@),
                texts(existing@),
                i as int,
            ),
        decreases cedar.policies@.len() - i,
    {
        assert(texts(cedar.policies@)[i as int] == cedar.policies@[i as int]@);
        if !contains_text(existing, cedar.policies[i].as_str()) {
            return Err(ConfigError::PolicyFileNotFound { path: cedar.policies[i].clone() });
        }
        i = i + 1;
    }
    if let Some(path) = &cedar.schema {
        if !contains_text(existing, path.as_str()) {
            return Err(ConfigError::PolicyFileNotFound { path: path.clone() });
        }
    }
    Ok(())
}

/// Checks the telemetry settings.
fn check_telemetry(telemetry: &TelemetryYamlConfig) -> (r: Result<(), ConfigError>)
    ensures
        agrees(r, telemetry_error(*telemetry)),
{
    if let Some(sampling) = &telemetry.sampling {
        if !sampling.success_sample_rate.is_valid() {
            return Err(
                ConfigError::InvalidSampleRate { rate_bits: sampling.success_sample_rate.bits },
            );
        }
        if !same_text(sampling.strategy.as_str(), "head") && !same_text(
            sampling.strategy.as_str(),
            "tail",
        ) {
            return Err(
                ConfigError::UnknownSamplingStrategy { strategy: sampling.strategy.clone() },
            );
        }
    }
    if let Some(otlp) = &telemetry.otlp {
        if !parses_as_url(otlp.endpoint.as_str()) {
            return Err(
                ConfigError::InvalidOtlpEndpoint {
                    endpoint: otlp.endpoint.clone(),
                    message: "invalid URL format".to_owned(),
                },
            );
        }
        if !same_text(otlp.protocol.as_str(), "http/protobuf") && !same_text(
            otlp.protocol.as_str(),
            "grpc",
        ) {
            return Err(ConfigError::UnknownOtlpProtocol { protocol: otlp.protocol.clone() });
        }
    }
    if let Some(batch) = &telemetry.batch {
        if batch.max_queue_size == 0 {
            return Err(ConfigError::InvalidQueueSize { size: batch.max_queue_size });
        }
        if batch.scheduled_delay_ms < MIN_EXPORT_MS {
            return Err(ConfigError::InvalidBatchDelay { delay_ms: batch.scheduled_delay_ms });
        }
        if batch.max_export_batch_size == 0 || batch.max_export_batch_size > batch.max_queue_size {
            return Err(
                ConfigError::InvalidExportBatchSize {
                    batch_size: batch.max_export_batch_size,
                    queue_size: batch.max_queue_size,
                },
            );
        }
        if batch.export_timeout_ms < MIN_EXPORT_MS {
            return Err(ConfigError::InvalidExportTimeout { timeout_ms: batch.export_timeout_ms });
        }
    }
    Ok(())
}

/// Checks the rules and notes the warnings about them.
fn check_rules(config: &Config, warnings: &mut Vec<ValidationWarning>) -> (r: Result<
    (),
    ConfigError,
>)
    requires
        old(warnings)@.len() == 0,
    ensures
        agrees(r, rules_error(*config, 0)),
        r is Ok ==> warning_views(final(warnings)@) == rule_warnings(
            config.governance.rules@,
            config.governance.rules@.len() as int,
        ),
{
    let rules = &config.governance.rules;
    let mut i: usize = 0;
    assert(warning_views(warnings@) == rule_warnings(rules@, 0));
    while i < rules.len()
        invariant
            rules == config.governance.rules,
            i <= rules@.len(),
            rules_error(*config, 0) == rules_error(*config, i as int),
            warning_views(warnings@) == rule_warnings(rules@, i as int),
        decreases rules@.len() - i,
    {
        let rule = &rules[i];
        match check_rule(config, rule) {
            Ok(_) => {},
            Err(e) => {
                return Err(e);
            },
        }
        let ghost before = warnings@;
        if rule.policy_id.is_some() && rule.action != Action::Policy {
            warnings.push(
                ValidationWarning::PolicyIdWithoutPolicyAction { pattern: rule.pattern.clone() },
            );
            assert(warning_views(warnings@) == warning_views(before).push(warnings@.last()@));
        }
        i = i + 1;
    }
    Ok(())
}

/// Checks the workflows and notes the warnings about them.
fn check_workflows(
    workflows: &TextMap<HumanWorkflow>,
    warnings: &mut Vec<ValidationWarning>,
) -> (r: Result<(), ConfigError>)
    ensures
        agrees(r, workflows_error(workflows.items(), 0)),
        r is Ok ==> warning_views(final(warnings)@) == warning_views(old(warnings)@)
            + workflow_warnings(workflows.items(), workflows.items().len() as int),
{
    let ghost start = warning_views(warnings@);
    let ghost items = workflows.items();
    let count: usize = workflows.len();
    let mut i: usize = 0;
    assert(warning_views(warnings@) == start + workflow_warnings(items, 0));
    while i < count
        invariant
            items == workflows.items(),
            i <= count == items.len(),
            workflows_error(items, 0) == workflows_error(items, i as int),
            warning_views(warnings@) == start + workflow_warnings(items, i as int),
        decreases count - i,
    {
        let name = workflows.key_at(i);
        let workflow = workflows.value_at(i);
        let ghost before = warnings@;
        if own_slack_settings(workflow) {
            warnings.push(
                ValidationWarning::PerWorkflowSlackNotSupported { workflow: name.clone() },
            );
            assert(warning_views(warnings@) == warning_views(before).push(warnings@.last()@));
            assert(warning_views(warnings@) == start + workflow_warnings(items, i as int + 1));
        }
        match check_workflow(name, workflow) {
            Ok(_) => {},
            Err(e) => {
                return Err(e);
            },
        }
        i = i + 1;
    }
    Ok(())
}

/// Validate a configuration; `existing` holds the paths of the policy and schema
/// files that exist.
pub fn validate(config: &Config, version: Version, existing: &Vec<String>) -> (r: Result<
    ValidationResult,
    ConfigError,
>)
    ensures
        match r {
            Ok(v) => validation_error(*config, version, texts(existing@)) is None && v@
                == validation_warnings(*config),
            Err(e) => validation_error(*config, version, texts(existing@)) == Some(e@),
        },
{
    let mut warnings: Vec<ValidationWarning> = Vec::new();
    if config.schema != 1 {
        return Err(ConfigError::UnsupportedSchemaVersion { version: config.schema });
    }
    if config.sources.is_empty() {
        return Err(ConfigError::NoSourcesDefined);
    }
    if version.major == 0 && version.minor == 2 && config.sources.len() != 1 {
        return Err(ConfigError::V02SingleSourceOnly { count: config.sources.len() });
    }
    match check_sources(&config.sources) {
        Ok(_) => {},
        Err(e) => {
            return Err(e);
        },
    }
    match check_rules(config, &mut warnings) {
        Ok(_) => {},
        Err(e) => {
            return Err(e);
        },
    }
    match check_exposures(&config.sources) {
        Ok(_) => {},
        Err(e) => {
            return Err(e);
        },
    }
    let ghost about_rules = warning_views(warnings@);
    if let Some(workflows) = &config.approval {
        match check_workflows(workflows, &mut warnings) {
            Ok(_) => {},
            Err(e) => {
                return Err(e);
            },
        }
    }
    assert(warning_views(warnings@) == validation_warnings(*config));
    if let Some(cedar) = &config.cedar {
        match check_cedar(cedar, existing) {
            Ok(_) => {},
            Err(e) => {
                return Err(e);
            },
        }
    }
    if let Some(telemetry) = &config.telemetry {
        match check_telemetry(telemetry) {
            Ok(_) => {},
            Err(e) => {
                return Err(e);
            },
        }
    }
    Ok(ValidationResult::with_warnings(warnings))
}

} // verus!
