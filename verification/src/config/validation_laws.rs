//! Validation finds an error in no configuration that is sound, and what it finds is
//! true.

use vstd::prelude::*;

use crate::config::compile::exposure_texts;
use crate::config::glob_pattern::glob_new;
use crate::config::error::ConfigError;
use crate::config::schema::{Action, Config, HumanWorkflow, Rule, Source};
use crate::config::url_check::is_url;
use crate::config::validate::{
    duplicate_id_error, exposure_list_error, exposures_error, filter_error, filter_ids,
    policy_files_error, prefix_error, reserved_id_error, rule_error, rules_error, source_defined,
    source_id_error, url_error, validation_error, workflow_count, workflow_defined,
    workflow_items, workflows_error, ErrorView, Version,
};
use crate::text::{opt_text, texts};

verus! {

/// Whether the sources of a configuration are sound: IDs are unique, made of
/// letters, digits, dots, underscores and hyphens, and do not begin with an
/// underscore; prefixes are unique; URLs parse; exposure patterns compile.
pub open spec fn sound_sources(sources: Seq<Source>) -> bool {
    &&& sources.len() > 0
    &&& forall|j: int, k: int|
        0 <= j < k < sources.len() ==> (#[trigger] sources[j]).id_text() != (
        #[trigger] sources[k]).id_text()
    &&& forall|j: int, k: int|
        0 <= j < k < sources.len() && sources[k].prefix_text() is Some ==> (
        #[trigger] sources[j]).prefix_text() != (#[trigger] sources[k]).prefix_text()
    &&& forall|k: int|
        #![trigger sources[k]]
        0 <= k < sources.len() ==> {
            let id = sources[k].id_text();
            &&& id.len() > 0
            &&& id[0] != '_'
            &&& forall|c: int|
                0 <= c < id.len() ==> ('a' <= #[trigger] id[c] <= 'z' || 'A' <= id[c] <= 'Z'
                    || '0' <= id[c] <= '9' || id[c] == '.' || id[c] == '_' || id[c] == '-')
            &&& is_url(sources[k].url_text())
            &&& forall|t: int|
                0 <= t < exposure_texts(sources[k]).len() ==> glob_new(
                    #[trigger] exposure_texts(sources[k])[t],
                ) is Ok
        }
}

/// Whether the rules of a configuration are sound: a policy rule names its policy,
/// an approval rule names a workflow that exists or leaves the choice to the only
/// one, patterns compile, and source filters name sources that exist.
pub open spec fn sound_rules(config: Config) -> bool {
    forall|k: int|
        #![trigger config.governance.rules@[k]]
        0 <= k < config.governance.rules@.len() ==> {
            let rule = config.governance.rules@[k];
            &&& rule.action == Action::Policy ==> rule.policy_id is Some
            &&& rule.action == Action::Approve ==> match rule.approval {
                Some(name) => workflow_defined(config, name@),
                None => workflow_count(config) == 1,
            }
            &&& glob_new(rule.pattern@) is Ok
            &&& rule.source is Some ==> forall|f: int|
                0 <= f < filter_ids(rule.source->0).len() ==> source_defined(
                    config.sources@,
                    #[trigger] filter_ids(rule.source->0)[f],
                )
        }
}

/// Whether the other settings are sound: workflow time limits of at least five
/// seconds, Cedar files that exist, and telemetry settings within their bounds.
pub open spec fn sound_settings(config: Config, existing: Seq<Seq<char>>) -> bool {
    &&& forall|k: int|
        #![trigger workflow_items(config)[k]]
        0 <= k < workflow_items(config).len() ==> {
            let workflow = workflow_items(config)[k].1;
            &&& workflow.timeout is Some ==> workflow.timeout->0.secs() >= 5
            &&& workflow.blocking_timeout is Some ==> workflow.blocking_timeout->0.secs() >= 5
        }
    &&& config.cedar is Some ==> {
        &&& forall|k: int|
            0 <= k < texts(config.cedar->0.policies@).len() ==> existing.contains(
                #[trigger] texts(config.cedar->0.policies@)[k],
            )
        &&& config.cedar->0.schema is Some ==> existing.contains(config.cedar->0.schema->0@)
    }
    &&& config.telemetry is Some && config.telemetry->0.sampling is Some ==> {
        let sampling = config.telemetry->0.sampling->0;
        &&& sampling.success_sample_rate.in_unit_interval()
        &&& sampling.strategy@ == "head"@ || sampling.strategy@ == "tail"@
    }
    &&& config.telemetry is Some && config.telemetry->0.otlp is Some ==> {
        let otlp = config.telemetry->0.otlp->0;
        &&& is_url(otlp.endpoint@)
        &&& otlp.protocol@ == "http/protobuf"@ || otlp.protocol@ == "grpc"@
    }
    &&& config.telemetry is Some && config.telemetry->0.batch is Some ==> {
        let batch = config.telemetry->0.batch->0;
        &&& 0 < batch.max_export_batch_size <= batch.max_queue_size
        &&& batch.scheduled_delay_ms >= 100
        &&& batch.export_timeout_ms >= 100
    }
}

/// A sound configuration passes validation.
pub proof fn law_sound_configurations_are_valid(
    config: Config,
    version: Version,
    existing: Seq<Seq<char>>,
)
    requires
        config.schema == 1,
        version.major == 0 && version.minor == 2 ==> config.sources@.len() == 1,
        sound_sources(config.sources@),
        sound_rules(config),
        sound_settings(config, existing),
    ensures
        validation_error(config, version, existing) is None,
{
    lemma_no_source_error(config.sources@, 0);
    lemma_no_rule_error(config, 0);
    lemma_no_workflow_error(workflow_items(config), 0);
    if config.cedar is Some {
        lemma_no_file_error(texts(config.cedar->0.policies@), existing, 0);
    }
}

proof fn lemma_no_source_error(sources: Seq<Source>, i: int)
    requires
        0 <= i,
        sound_sources(sources),
    ensures
        duplicate_id_error(sources, i) is None,
        reserved_id_error(sources, i) is None,
        source_id_error(sources, i) is None,
        prefix_error(sources, i) is None,
        url_error(sources, i) is None,
        exposures_error(sources, i) is None,
    decreases sources.len() - i,
{
    if i < sources.len() {
        lemma_no_source_error(sources, i + 1);
        let id = sources[i].id_text();
        assert(id[id.len() - 1] == id.last());
        lemma_no_exposure_error(id, exposure_texts(sources[i]), 0);
    }
}

proof fn lemma_no_exposure_error(id: Seq<char>, tools: Seq<Seq<char>>, i: int)
    requires
        0 <= i,
        forall|t: int| 0 <= t < tools.len() ==> glob_new(#[trigger] tools[t]) is Ok,
    ensures
        exposure_list_error(id, tools, i) is None,
    decreases tools.len() - i,
{
    if i < tools.len() {
        lemma_no_exposure_error(id, tools, i + 1);
    }
}

proof fn lemma_no_rule_error(config: Config, i: int)
    requires
        0 <= i,
        sound_rules(config),
    ensures
        rules_error(config, i) is None,
    decreases config.governance.rules@.len() - i,
{
    if i < config.governance.rules@.len() {
        let rule = config.governance.rules@[i];
        if rule.source is Some {
            lemma_no_filter_error(config.sources@, rule.pattern@, filter_ids(rule.source->0), 0);
        }
        assert(rule_error(config, rule) is None);
        lemma_no_rule_error(config, i + 1);
    }
}

proof fn lemma_no_filter_error(
    sources: Seq<Source>,
    pattern: Seq<char>,
    ids: Seq<Seq<char>>,
    i: int,
)
    requires
        0 <= i,
        forall|k: int| 0 <= k < ids.len() ==> source_defined(sources, #[trigger] ids[k]),
    ensures
        filter_error(sources, pattern, ids, i) is None,
    decreases ids.len() - i,
{
    if i < ids.len() {
        lemma_no_filter_error(sources, pattern, ids, i + 1);
    }
}

proof fn lemma_no_workflow_error(items: Seq<(Seq<char>, HumanWorkflow)>, i: int)
    requires
        0 <= i,
        forall|k: int|
            #![trigger items[k]]
            0 <= k < items.len() ==> {
                &&& items[k].1.timeout is Some ==> items[k].1.timeout->0.secs() >= 5
                &&& items[k].1.blocking_timeout is Some ==> items[k].1.blocking_timeout->0.secs()
                    >= 5
            },
    ensures
        workflows_error(items, i) is None,
    decreases items.len() - i,
{
    if i < items.len() {
        lemma_no_workflow_error(items, i + 1);
        assert(items[i] == items[i]);
    }
}

proof fn lemma_no_file_error(paths: Seq<Seq<char>>, existing: Seq<Seq<char>>, i: int)
    requires
        0 <= i,
        forall|k: int| 0 <= k < paths.len() ==> existing.contains(#[trigger] paths[k]),
    ensures
        policy_files_error(paths, existing, i) is None,
    decreases paths.len() - i,
{
    if i < paths.len() {
        lemma_no_file_error(paths, existing, i + 1);
    }
}

/// The first thing that is wrong is what is told: an unknown version of the schema
/// before anything else, then that there are no sources, then that there are more
/// than version 0.2 can have.
pub proof fn law_the_first_error_is_told(
    config: Config,
    version: Version,
    existing: Seq<Seq<char>>,
)
    ensures
        ({
            let error = validation_error(config, version, existing);
            &&& config.schema != 1 ==> error is Some && error->0
                is UnsupportedSchemaVersion && error->0->version == config.schema
            &&& config.schema == 1 && config.sources@.len() == 0 ==> error is Some && error->0
                is NoSourcesDefined
            &&& config.schema == 1 && config.sources@.len() > 1 && version.major == 0
                && version.minor == 2 ==> error is Some && error->0 is V02SingleSourceOnly
        }),
{
}

/// Whether an error speaks of a fault that the sources have.
pub open spec fn fault_of_sources(error: ErrorView, sources: Seq<Source>) -> bool {
    match error {
        ConfigError::DuplicateSourceId { id } => exists|j: int, k: int|
            0 <= j < k < sources.len() && (#[trigger] sources[j]).id_text() == id && (
            #[trigger] sources[k]).id_text() == id,
        ConfigError::ReservedPrefix { id } => id.len() > 0 && id[0] == '_' && exists|k: int|
            0 <= k < sources.len() && (#[trigger] sources[k]).id_text() == id,
        ConfigError::InvalidSourceId { id, reason } => {
            &&& exists|k: int| 0 <= k < sources.len() && (#[trigger] sources[k]).id_text() == id
            &&& id.len() == 0 <==> reason == "source ID must not be empty"@
            &&& id.len() > 0 ==> exists|c: int|
                0 <= c < id.len() && !('a' <= #[trigger] id[c] <= 'z' || 'A' <= id[c] <= 'Z'
                    || '0' <= id[c] <= '9' || id[c] == '.' || id[c] == '_' || id[c] == '-')
        },
        ConfigError::DuplicatePrefix { prefix } => exists|j: int, k: int|
            0 <= j < k < sources.len() && (#[trigger] sources[j]).prefix_text() == Some(prefix) && (
            #[trigger] sources[k]).prefix_text() == Some(prefix),
        ConfigError::InvalidUrl { url, .. } => !is_url(url) && exists|k: int|
            0 <= k < sources.len() && (#[trigger] sources[k]).url_text() == url,
        ConfigError::InvalidGlobPattern { pattern, .. } => glob_new(pattern) is Err && exists|k: int|
            0 <= k < sources.len() && exposure_texts(#[trigger] sources[k]).contains(pattern),
        _ => false,
    }
}

/// Whether an error speaks of a fault that a rule has.
pub open spec fn fault_of_rule(error: ErrorView, config: Config, rule: Rule) -> bool {
    match error {
        ConfigError::MissingPolicyId { pattern } => rule.pattern@ == pattern && rule.action
            == Action::Policy && rule.policy_id is None,
        ConfigError::UndefinedWorkflow { workflow, pattern } => rule.pattern@ == pattern
            && rule.action == Action::Approve && opt_text(rule.approval) == Some(workflow)
            && !workflow_defined(config, workflow),
        ConfigError::MissingApprovalWorkflow { pattern, workflow_count: n } => rule.pattern@
            == pattern && rule.action == Action::Approve && rule.approval is None
            && workflow_count(config) != 1 && n == workflow_count(config) as usize,
        ConfigError::InvalidGlobPattern { pattern, .. } => rule.pattern@ == pattern && glob_new(
            pattern,
        ) is Err,
        ConfigError::UndefinedSourceInRule { source_id, pattern } => rule.pattern@ == pattern
            && rule.source is Some && filter_ids(rule.source->0).contains(source_id)
            && !source_defined(config.sources@, source_id),
        _ => false,
    }
}

/// Whether an error speaks of a time limit of a workflow that is under five seconds.
pub open spec fn fault_of_workflow(
    error: ErrorView,
    name: Seq<char>,
    workflow: HumanWorkflow,
) -> bool {
    match error {
        ConfigError::InvalidWorkflowTimeout { workflow: told, field, duration_secs } => {
            &&& told == name
            &&& duration_secs < 5
            &&& {
                ||| field == "timeout"@ && workflow.timeout is Some && workflow.timeout->0.secs()
                    == duration_secs
                ||| field == "blocking_timeout"@ && workflow.blocking_timeout is Some
                    && workflow.blocking_timeout->0.secs() == duration_secs
            }
        },
        _ => false,
    }
}

/// Whether an error speaks of a Cedar file that does not exist, or of a telemetry
/// setting that is out of bounds.
pub open spec fn fault_of_settings(
    error: ErrorView,
    config: Config,
    existing: Seq<Seq<char>>,
) -> bool {
    match error {
        ConfigError::PolicyFileNotFound { path } => {
            &&& !existing.contains(path)
            &&& config.cedar is Some
            &&& texts(config.cedar->0.policies@).contains(path) || opt_text(config.cedar->0.schema)
                == Some(path)
        },
        ConfigError::InvalidSampleRate { rate_bits } => {
            let sampling = config.telemetry->0.sampling;
            config.telemetry is Some && sampling is Some && sampling->0.success_sample_rate.bits
                == rate_bits && !sampling->0.success_sample_rate.in_unit_interval()
        },
        ConfigError::UnknownSamplingStrategy { strategy } => {
            let sampling = config.telemetry->0.sampling;
            config.telemetry is Some && sampling is Some && sampling->0.strategy@ == strategy
                && strategy != "head"@ && strategy != "tail"@
        },
        ConfigError::InvalidOtlpEndpoint { endpoint, .. } => {
            let otlp = config.telemetry->0.otlp;
            config.telemetry is Some && otlp is Some && otlp->0.endpoint@ == endpoint && !is_url(
                endpoint,
            )
        },
        ConfigError::UnknownOtlpProtocol { protocol } => {
            let otlp = config.telemetry->0.otlp;
            config.telemetry is Some && otlp is Some && otlp->0.protocol@ == protocol && protocol
                != "http/protobuf"@ && protocol != "grpc"@
        },
        ConfigError::InvalidQueueSize { size } => {
            let batch = config.telemetry->0.batch;
            config.telemetry is Some && batch is Some && batch->0.max_queue_size == size && size
                == 0
        },
        ConfigError::InvalidBatchDelay { delay_ms } => {
            let batch = config.telemetry->0.batch;
            config.telemetry is Some && batch is Some && batch->0.scheduled_delay_ms == delay_ms
                && delay_ms < 100
        },
        ConfigError::InvalidExportBatchSize { batch_size, queue_size } => {
            let batch = config.telemetry->0.batch;
            config.telemetry is Some && batch is Some && batch->0.max_export_batch_size
                == batch_size && batch->0.max_queue_size == queue_size && (batch_size == 0
                || batch_size > queue_size)
        },
        ConfigError::InvalidExportTimeout { timeout_ms } => {
            let batch = config.telemetry->0.batch;
            config.telemetry is Some && batch is Some && batch->0.export_timeout_ms == timeout_ms
                && timeout_ms < 100
        },
        _ => false,
    }
}

/// What validation tells is true: the configuration has the fault, at the source,
/// the rule, the workflow or the setting that the error names.
pub proof fn law_errors_are_true(config: Config, version: Version, existing: Seq<Seq<char>>)
    ensures
        validation_error(config, version, existing) matches Some(error) ==> {
            ||| error == (ErrorView::UnsupportedSchemaVersion { version: config.schema })
                && config.schema != 1
            ||| error is NoSourcesDefined && config.sources@.len() == 0
            ||| error is V02SingleSourceOnly && config.sources@.len() != 1 && version.major == 0
                && version.minor == 2
            ||| fault_of_sources(error, config.sources@)
            ||| exists|k: int|
                0 <= k < config.governance.rules@.len() && fault_of_rule(
                    error,
                    config,
                    #[trigger] config.governance.rules@[k],
                )
            ||| exists|k: int|
                #![trigger workflow_items(config)[k]]
                0 <= k < workflow_items(config).len() && fault_of_workflow(
                    error,
                    workflow_items(config)[k].0,
                    workflow_items(config)[k].1,
                )
            ||| fault_of_settings(error, config, existing)
        },
{
    lemma_source_error_is_true(config.sources@, 0);
    lemma_rule_error_is_true(config, 0);
    lemma_workflow_error_is_true(workflow_items(config), 0);
    if config.cedar is Some {
        lemma_file_error_is_true(texts(config.cedar->0.policies@), existing, 0);
    }
}

proof fn lemma_source_error_is_true(sources: Seq<Source>, i: int)
    requires
        0 <= i,
    ensures
        duplicate_id_error(sources, i) matches Some(e) ==> fault_of_sources(e, sources),
        reserved_id_error(sources, i) matches Some(e) ==> fault_of_sources(e, sources),
        source_id_error(sources, i) matches Some(e) ==> fault_of_sources(e, sources),
        prefix_error(sources, i) matches Some(e) ==> fault_of_sources(e, sources),
        url_error(sources, i) matches Some(e) ==> fault_of_sources(e, sources),
        exposures_error(sources, i) matches Some(e) ==> fault_of_sources(e, sources),
    decreases sources.len() - i,
{
    if i < sources.len() {
        lemma_source_error_is_true(sources, i + 1);
        let id = sources[i].id_text();
        reveal_strlit("source ID must not be empty");
        reveal_strlit("source ID must not have leading or trailing whitespace");
        reveal_strlit("source ID must contain only [a-zA-Z0-9._-]");
        assert("source ID must not be empty"@.len()
            != "source ID must not have leading or trailing whitespace"@.len());
        assert("source ID must not be empty"@.len()
            != "source ID must contain only [a-zA-Z0-9._-]"@.len());
        if id.len() > 0 {
            assert(id[id.len() - 1] == id.last());
        }
        let tools = exposure_texts(sources[i]);
        lemma_exposure_error_is_true(id, tools, 0);
        if exposure_list_error(id, tools, 0) is Some {
            assert(exposure_texts(sources[i]) == tools);
        }
    }
}

proof fn lemma_exposure_error_is_true(id: Seq<char>, tools: Seq<Seq<char>>, i: int)
    requires
        0 <= i,
    ensures
        exposure_list_error(id, tools, i) matches Some(e) ==> e is InvalidGlobPattern
            && tools.contains(e->InvalidGlobPattern_pattern) && glob_new(
            e->InvalidGlobPattern_pattern,
        ) is Err,
    decreases tools.len() - i,
{
    if i < tools.len() {
        lemma_exposure_error_is_true(id, tools, i + 1);
        assert(tools.contains(tools[i]));
    }
}

proof fn lemma_rule_error_is_true(config: Config, i: int)
    requires
        0 <= i,
    ensures
        rules_error(config, i) matches Some(e) ==> exists|k: int|
            0 <= k < config.governance.rules@.len() && fault_of_rule(
                e,
                config,
                #[trigger] config.governance.rules@[k],
            ),
    decreases config.governance.rules@.len() - i,
{
    if i < config.governance.rules@.len() {
        lemma_rule_error_is_true(config, i + 1);
        let rule = config.governance.rules@[i];
        if rule.source is Some {
            lemma_filter_error_is_true(
                config.sources@,
                rule.pattern@,
                filter_ids(rule.source->0),
                0,
            );
        }
        if rule_error(config, rule) is Some {
            assert(fault_of_rule(rule_error(config, rule)->0, config, rule));
        }
    }
}

proof fn lemma_filter_error_is_true(
    sources: Seq<Source>,
    pattern: Seq<char>,
    ids: Seq<Seq<char>>,
    i: int,
)
    requires
        0 <= i,
    ensures
        filter_error(sources, pattern, ids, i) matches Some(e) ==> e is UndefinedSourceInRule
            && e->UndefinedSourceInRule_pattern == pattern && ids.contains(
            e->UndefinedSourceInRule_source_id,
        ) && !source_defined(sources, e->UndefinedSourceInRule_source_id),
    decreases ids.len() - i,
{
    if i < ids.len() {
        lemma_filter_error_is_true(sources, pattern, ids, i + 1);
        assert(ids.contains(ids[i]));
    }
}

proof fn lemma_workflow_error_is_true(items: Seq<(Seq<char>, HumanWorkflow)>, i: int)
    requires
        0 <= i,
    ensures
        workflows_error(items, i) matches Some(e) ==> exists|k: int|
            #![trigger items[k]]
            0 <= k < items.len() && fault_of_workflow(e, items[k].0, items[k].1),
    decreases items.len() - i,
{
    if i < items.len() {
        lemma_workflow_error_is_true(items, i + 1);
        assert(items[i] == items[i]);
    }
}

proof fn lemma_file_error_is_true(paths: Seq<Seq<char>>, existing: Seq<Seq<char>>, i: int)
    requires
        0 <= i,
    ensures
        policy_files_error(paths, existing, i) matches Some(e) ==> e is PolicyFileNotFound
            && paths.contains(e->PolicyFileNotFound_path) && !existing.contains(
            e->PolicyFileNotFound_path,
        ),
    decreases paths.len() - i,
{
    if i < paths.len() {
        lemma_file_error_is_true(paths, existing, i + 1);
        assert(paths.contains(paths[i]));
    }
}

} // verus!
