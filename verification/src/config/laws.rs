//! What holds of configurations as a whole.

use vstd::prelude::*;

use crate::config::compile::{
    compiled_exposure, compiled_list, compiled_rule, exposure_texts, first_invalid, invalid_source,
    lemma_first_invalid, lemma_invalid_source, rule_texts, rules_compiled, source_compiled,
    sources_compiled,
};
use crate::config::glob_pattern::{glob_matches, glob_new};
use crate::config::loader::{references, substitution};
use crate::config::schema::{
    first_applying, lemma_first_applying, listed_spec, some_pattern_matches, some_text_matches,
    text_matches, Action, Config, ExposeConfig, Governance, HumanWorkflow, MatchResult, Rule,
    Source,
};
use crate::config::url_check::is_url;
use crate::config::validate::{
    duplicate_id_error, exposure_error, exposure_list_error, exposures_error, filter_error,
    filter_ids, id_form_error, is_id_char, policy_files_error, prefix_error, reserved_id_error,
    rule_error, rules_error, source_defined, source_id_error, url_error, validation_error,
    workflow_count, workflow_defined, workflow_error, workflow_items, workflows_error, ErrorView,
    Version, MIN_EXPORT_MS, MIN_WORKFLOW_TIMEOUT_SECS,
};
use crate::text::texts;

verus! {

/// The first rule that applies decides: rules behind it have no say.
pub proof fn law_first_match_wins(
    governance: Governance,
    tool_name: Seq<char>,
    source_id: Seq<char>,
    i: int,
)
    requires
        0 <= i < governance.rules@.len(),
        governance.rules@[i].applies(tool_name, source_id),
        forall|j: int|
            0 <= j < i ==> !(#[trigger] governance.rules@[j]).applies(tool_name, source_id),
    ensures
        governance.decides(tool_name, source_id) == governance.rules@[i].verdict(),
{
    lemma_first_applying(governance.rules@, tool_name, source_id);
}

/// Where no rule applies, the default action is taken, and no rule, policy or
/// workflow is named.
pub proof fn law_default_without_match(
    governance: Governance,
    tool_name: Seq<char>,
    source_id: Seq<char>,
)
    requires
        forall|j: int|
            0 <= j < governance.rules@.len() ==> !(#[trigger] governance.rules@[j]).applies(
                tool_name,
                source_id,
            ),
    ensures
        governance.decides(tool_name, source_id) == (MatchResult::<Seq<char>> {
            action: governance.defaults.action,
            policy_id: None,
            approval_workflow: None,
            matched_rule: None,
        }),
{
    lemma_first_applying(governance.rules@, tool_name, source_id);
}

/// A rule that is restricted to other sources never decides.
pub proof fn law_source_filter_excludes(rule: Rule, tool_name: Seq<char>, source_id: Seq<char>)
    requires
        rule.source is Some,
        !rule.source->0.admits(source_id),
    ensures
        !rule.applies(tool_name, source_id),
{
}

/// Compiling the patterns of rules whose patterns all compile changes no
/// decision.
pub proof fn law_compiling_keeps_decisions(
    before: Governance,
    after: Governance,
    tool_name: Seq<char>,
    source_id: Seq<char>,
)
    requires
        before.defaults == after.defaults,
        rules_compiled(before.rules@, after.rules@, before.rules@.len() as int),
        first_invalid(rule_texts(before.rules@)) == before.rules@.len(),
        forall|i: int|
            0 <= i < before.rules@.len() ==> (#[trigger] before.rules@[i]).compiled_pattern is None,
    ensures
        after.decides(tool_name, source_id) == before.decides(tool_name, source_id),
{
    lemma_first_invalid(rule_texts(before.rules@));
    lemma_first_applying(before.rules@, tool_name, source_id);
    lemma_first_applying(after.rules@, tool_name, source_id);
    assert forall|i: int| 0 <= i < before.rules@.len() implies (#[trigger] after.rules@[i]).applies(
        tool_name,
        source_id,
    ) == before.rules@[i].applies(tool_name, source_id) && after.rules@[i].verdict()
        == before.rules@[i].verdict() by {
        assert(glob_new(rule_texts(before.rules@)[i]) is Ok);
        assert(after.rules@[i] == compiled_rule(before.rules@[i]));
        assert(before.rules@[i].compiled_pattern is None);
    }
    let a = first_applying(after.rules@, tool_name, source_id);
    let b = first_applying(before.rules@, tool_name, source_id);
    if a < b {
        assert(!before.rules@[a as int].applies(tool_name, source_id));
    } else if b < a {
        assert(!after.rules@[b as int].applies(tool_name, source_id));
    }
}

/// Compiling an exposure list whose patterns all compile changes the visibility
/// of no tool.
pub proof fn law_compiling_keeps_visibility(
    e: ExposeConfig<Seq<Seq<char>>, Seq<glob::Pattern>>,
    tools: Seq<Seq<char>>,
    name: Seq<char>,
)
    requires
        e.pattern_texts() == Some(tools),
        first_invalid(tools) == tools.len(),
        match e {
            ExposeConfig::All => true,
            ExposeConfig::Allowlist { compiled_tools, .. } => compiled_tools.len() == 0,
            ExposeConfig::Blocklist { compiled_tools, .. } => compiled_tools.len() == 0,
        },
    ensures
        compiled_exposure(e).shows(name) == e.shows(name),
{
    lemma_first_invalid(tools);
    let compiled = compiled_list(tools);
    assert forall|i: int| 0 <= i < tools.len() implies glob_matches(#[trigger] compiled[i], name)
        == text_matches(tools[i], name) by {
        assert(glob_new(tools[i]) is Ok);
    }
    if some_text_matches(tools, name) {
        let i = choose|i: int| 0 <= i < tools.len() && text_matches(#[trigger] tools[i], name);
        assert(glob_matches(compiled[i], name));
    }
    if some_pattern_matches(compiled, name) {
        let i = choose|i: int|
            0 <= i < compiled.len() && glob_matches(#[trigger] compiled[i], name);
        assert(text_matches(tools[i], name));
    }
    assert(listed_spec(tools, compiled, name) == listed_spec(tools, Seq::empty(), name));
    match e {
        ExposeConfig::All => {},
        ExposeConfig::Allowlist { compiled_tools, .. } => {
            assert(compiled_tools =~= Seq::<glob::Pattern>::empty());
        },
        ExposeConfig::Blocklist { compiled_tools, .. } => {
            assert(compiled_tools =~= Seq::<glob::Pattern>::empty());
        },
    }
}

/// An allowlist shows what a blocklist of the same patterns hides, and the other
/// way round.
pub proof fn law_lists_are_opposites(
    tools: Seq<Seq<char>>,
    compiled_tools: Seq<glob::Pattern>,
    name: Seq<char>,
)
    ensures
        (ExposeConfig::<Seq<Seq<char>>, Seq<glob::Pattern>>::Allowlist {
            tools,
            compiled_tools,
        }).shows(name) == !(ExposeConfig::<Seq<Seq<char>>, Seq<glob::Pattern>>::Blocklist {
            tools,
            compiled_tools,
        }).shows(name),
{
}

/// An allowlist with no pattern that compiles shows nothing.
pub proof fn law_broken_allowlist_shows_nothing(tools: Seq<Seq<char>>, name: Seq<char>)
    requires
        forall|i: int| 0 <= i < tools.len() ==> glob_new(#[trigger] tools[i]) is Err,
    ensures
        !(ExposeConfig::<Seq<Seq<char>>, Seq<glob::Pattern>>::Allowlist {
            tools,
            compiled_tools: Seq::empty(),
        }).shows(name),
{
}

/// A text without a dollar sign is left as it is, whatever the environment
/// holds.
pub proof fn law_text_without_references_is_kept(
    content: Seq<char>,
    env: Map<Seq<char>, String>,
)
    requires
        !content.contains('$'),
    ensures
        substitution(content, env) == Ok::<Seq<char>, ErrorView>(content),
{
    lemma_no_references(content, 0);
}

proof fn lemma_no_references(s: Seq<char>, i: int)
    requires
        !s.contains('$'),
    ensures
        references(s, i) == Seq::<crate::config::loader::EnvRef<Seq<char>>>::empty(),
    decreases s.len() - i,
{
    if 0 <= i < s.len() {
        assert(s[i] != '$') by {
            if s[i] == '$' {
                assert(s.contains('$'));
            }
        }
        lemma_no_references(s, i + 1);
    }
}

/// No ID has the reserved prefix where no error is found.
proof fn lemma_reserved_ids(sources: Seq<Source>, i: int)
    requires
        0 <= i,
        reserved_id_error(sources, i) is None,
    ensures
        forall|k: int|
            i <= k < sources.len() ==> !((#[trigger] sources[k]).id_text().len() > 0
                && sources[k].id_text()[0] == '_'),
    decreases sources.len() - i,
{
    if i < sources.len() {
        lemma_reserved_ids(sources, i + 1);
    }
}

/// Every ID is well formed where no error is found.
proof fn lemma_id_forms(sources: Seq<Source>, i: int)
    requires
        0 <= i,
        source_id_error(sources, i) is None,
    ensures
        forall|k: int|
            i <= k < sources.len() ==> id_form_error((#[trigger] sources[k]).id_text()) is None,
    decreases sources.len() - i,
{
    if i < sources.len() {
        lemma_id_forms(sources, i + 1);
    }
}

/// Every URL parses where no error is found.
proof fn lemma_urls(sources: Seq<Source>, i: int)
    requires
        0 <= i,
        url_error(sources, i) is None,
    ensures
        forall|k: int| i <= k < sources.len() ==> is_url((#[trigger] sources[k]).url_text()),
    decreases sources.len() - i,
{
    if i < sources.len() {
        lemma_urls(sources, i + 1);
    }
}

/// Every exposure list is valid where no error is found.
proof fn lemma_exposures(sources: Seq<Source>, i: int)
    requires
        0 <= i,
        exposures_error(sources, i) is None,
    ensures
        forall|k: int| i <= k < sources.len() ==> exposure_error(#[trigger] sources[k]) is None,
    decreases sources.len() - i,
{
    if i < sources.len() {
        lemma_exposures(sources, i + 1);
    }
}

/// All IDs differ where no error is found.
proof fn lemma_distinct_ids(sources: Seq<Source>, i: int)
    requires
        0 <= i,
        duplicate_id_error(sources, i) is None,
    ensures
        forall|j: int, k: int|
            0 <= j < k < sources.len() && i <= k ==> (#[trigger] sources[j]).id_text() != (
            #[trigger] sources[k]).id_text(),
    decreases sources.len() - i,
{
    if i < sources.len() {
        lemma_distinct_ids(sources, i + 1);
        assert forall|j: int, k: int| 0 <= j < k < sources.len() && i <= k implies (
        #[trigger] sources[j]).id_text() != (#[trigger] sources[k]).id_text() by {
            if k == i {
                assert(sources[j].id_text() != sources[i].id_text());
            }
        }
    }
}

/// All prefixes differ where no error is found.
proof fn lemma_distinct_prefixes(sources: Seq<Source>, i: int)
    requires
        0 <= i,
        prefix_error(sources, i) is None,
    ensures
        forall|j: int, k: int|
            0 <= j < k < sources.len() && i <= k && sources[k].prefix_text() is Some ==> (
            #[trigger] sources[j]).prefix_text() != (#[trigger] sources[k]).prefix_text(),
    decreases sources.len() - i,
{
    if i < sources.len() {
        lemma_distinct_prefixes(sources, i + 1);
        assert forall|j: int, k: int|
            0 <= j < k < sources.len() && i <= k && sources[k].prefix_text() is Some implies (
        #[trigger] sources[j]).prefix_text() != (#[trigger] sources[k]).prefix_text() by {
            if k == i {
                assert(sources[j].prefix_text() != sources[i].prefix_text());
            }
        }
    }
}

/// Every rule is in order where no error is found.
proof fn lemma_rules(config: Config, i: int)
    requires
        0 <= i,
        rules_error(config, i) is None,
    ensures
        forall|k: int|
            i <= k < config.governance.rules@.len() ==> rule_error(
                config,
                #[trigger] config.governance.rules@[k],
            ) is None,
    decreases config.governance.rules@.len() - i,
{
    if i < config.governance.rules@.len() {
        lemma_rules(config, i + 1);
    }
}

/// Every source that a filter names is defined where no error is found.
proof fn lemma_filter(sources: Seq<Source>, pattern: Seq<char>, ids: Seq<Seq<char>>, i: int)
    requires
        0 <= i,
        filter_error(sources, pattern, ids, i) is None,
    ensures
        forall|k: int| i <= k < ids.len() ==> source_defined(sources, #[trigger] ids[k]),
    decreases ids.len() - i,
{
    if i < ids.len() {
        lemma_filter(sources, pattern, ids, i + 1);
    }
}

/// Every workflow is in order where no error is found.
proof fn lemma_workflows(items: Seq<(Seq<char>, HumanWorkflow)>, i: int)
    requires
        0 <= i,
        workflows_error(items, i) is None,
    ensures
        forall|k: int|
            i <= k < items.len() ==> workflow_error((#[trigger] items[k]).0, items[k].1) is None,
    decreases items.len() - i,
{
    if i < items.len() {
        lemma_workflows(items, i + 1);
    }
}

/// Every text of an exposure list compiles where no error is found.
proof fn lemma_exposure_list(id: Seq<char>, tools: Seq<Seq<char>>, i: int)
    requires
        0 <= i,
        exposure_list_error(id, tools, i) is None,
    ensures
        forall|k: int| i <= k < tools.len() ==> glob_new(#[trigger] tools[k]) is Ok,
    decreases tools.len() - i,
{
    if i < tools.len() {
        lemma_exposure_list(id, tools, i + 1);
    }
}

/// Every policy file exists where no error is found.
proof fn lemma_policy_files(paths: Seq<Seq<char>>, existing: Seq<Seq<char>>, i: int)
    requires
        0 <= i,
        policy_files_error(paths, existing, i) is None,
    ensures
        forall|k: int| i <= k < paths.len() ==> existing.contains(#[trigger] paths[k]),
    decreases paths.len() - i,
{
    if i < paths.len() {
        lemma_policy_files(paths, existing, i + 1);
    }
}

/// The sources of a configuration in which validation finds no error: there is
/// at least one, and in version 0.2 exactly one; IDs and prefixes are unique;
/// IDs are made of letters, digits, dots, underscores and hyphens and do not
/// begin with an underscore; URLs parse; exposure patterns compile.
pub proof fn law_valid_sources(config: Config, version: Version, existing: Seq<Seq<char>>)
    requires
        validation_error(config, version, existing) is None,
    ensures
        config.schema == 1,
        config.sources@.len() > 0,
        version.major == 0 && version.minor == 2 ==> config.sources@.len() == 1,
        forall|j: int, k: int|
            0 <= j < k < config.sources@.len() ==> (#[trigger] config.sources@[j]).id_text() != (
            #[trigger] config.sources@[k]).id_text(),
        forall|j: int, k: int|
            0 <= j < k < config.sources@.len() && config.sources@[k].prefix_text() is Some ==> (
            #[trigger] config.sources@[j]).prefix_text() != (
            #[trigger] config.sources@[k]).prefix_text(),
        forall|k: int|
            #![trigger config.sources@[k]]
            0 <= k < config.sources@.len() ==> {
                let source = config.sources@[k];
                &&& source.id_text().len() > 0
                &&& source.id_text()[0] != '_'
                &&& forall|c: int|
                    0 <= c < source.id_text().len() ==> is_id_char(#[trigger] source.id_text()[c])
                &&& is_url(source.url_text())
                &&& first_invalid(exposure_texts(source)) == exposure_texts(source).len()
            },
{
    let sources = config.sources@;
    lemma_distinct_ids(sources, 0);
    lemma_reserved_ids(sources, 0);
    lemma_id_forms(sources, 0);
    lemma_distinct_prefixes(sources, 0);
    lemma_urls(sources, 0);
    lemma_exposures(sources, 0);
    assert forall|k: int| #![trigger sources[k]] 0 <= k < sources.len() implies {
        let source = sources[k];
        &&& source.id_text().len() > 0
        &&& source.id_text()[0] != '_'
        &&& forall|c: int|
            0 <= c < source.id_text().len() ==> is_id_char(#[trigger] source.id_text()[c])
        &&& is_url(source.url_text())
        &&& first_invalid(exposure_texts(source)) == exposure_texts(source).len()
    } by {
        let source = sources[k];
        assert(id_form_error(source.id_text()) is None);
        assert(exposure_error(source) is None);
        lemma_first_invalid(exposure_texts(source));
        if source.exposure().pattern_texts() is Some {
            lemma_exposure_list(source.id_text(), exposure_texts(source), 0);
        }
    }
}

/// The rules of a configuration in which validation finds no error: a policy
/// rule names its policy, an approval rule names a workflow that exists or
/// leaves the choice to the only one, patterns compile, and source filters name
/// sources that exist.
pub proof fn law_valid_rules(config: Config, version: Version, existing: Seq<Seq<char>>)
    requires
        validation_error(config, version, existing) is None,
    ensures
        forall|k: int|
            #![trigger config.governance.rules@[k]]
            0 <= k < config.governance.rules@.len() ==> {
                let rule = config.governance.rules@[k];
                &&& rule.action == Action::Policy ==> rule.policy_id is Some
                &&& rule.action == Action::Approve ==> match rule.approval {
                    Some(name) => workflow_defined(config, name@),
                    None => workflow_count(config) == 1,
                }
                &&& glob_new(rule.pattern@) is Ok
                &&& rule.source is Some ==> forall|f: int|
                    0 <= f < filter_ids(rule.source->0).len() ==> source_defined(
                        config.sources@,
                        #[trigger] filter_ids(rule.source->0)[f],
                    )
            },
{
    lemma_rules(config, 0);
    assert forall|k: int|
        #![trigger config.governance.rules@[k]]
        0 <= k < config.governance.rules@.len() implies {
        let rule = config.governance.rules@[k];
        &&& rule.action == Action::Policy ==> rule.policy_id is Some
        &&& rule.action == Action::Approve ==> match rule.approval {
            Some(name) => workflow_defined(config, name@),
            None => workflow_count(config) == 1,
        }
        &&& glob_new(rule.pattern@) is Ok
        &&& rule.source is Some ==> forall|f: int|
            0 <= f < filter_ids(rule.source->0).len() ==> source_defined(
                config.sources@,
                #[trigger] filter_ids(rule.source->0)[f],
            )
    } by {
        let rule = config.governance.rules@[k];
        assert(rule_error(config, rule) is None);
        if rule.source is Some {
            lemma_filter(config.sources@, rule.pattern@, filter_ids(rule.source->0), 0);
        }
    }
}

/// The other settings of a configuration in which validation finds no error:
/// workflow time limits of at least five seconds, Cedar files that exist, and
/// telemetry settings within their bounds.
pub proof fn law_valid_settings(config: Config, version: Version, existing: Seq<Seq<char>>)
    requires
        validation_error(config, version, existing) is None,
    ensures
        forall|k: int|
            #![trigger workflow_items(config)[k]]
            0 <= k < workflow_items(config).len() ==> {
                let workflow = workflow_items(config)[k].1;
                &&& workflow.timeout is Some ==> workflow.timeout->0.secs()
                    >= MIN_WORKFLOW_TIMEOUT_SECS
                &&& workflow.blocking_timeout is Some ==> workflow.blocking_timeout->0.secs()
                    >= MIN_WORKFLOW_TIMEOUT_SECS
            },
        config.cedar is Some ==> {
            &&& forall|k: int|
                0 <= k < texts(config.cedar->0.policies@).len() ==> existing.contains(
                    #[trigger] texts(config.cedar->0.policies@)[k],
                )
            &&& config.cedar->0.schema is Some ==> existing.contains(config.cedar->0.schema->0@)
        },
        config.telemetry is Some && config.telemetry->0.sampling is Some ==> {
            let sampling = config.telemetry->0.sampling->0;
            &&& sampling.success_sample_rate.in_unit_interval()
            &&& sampling.strategy@ == "head"@ || sampling.strategy@ == "tail"@
        },
        config.telemetry is Some && config.telemetry->0.otlp is Some ==> {
            let otlp = config.telemetry->0.otlp->0;
            &&& is_url(otlp.endpoint@)
            &&& otlp.protocol@ == "http/protobuf"@ || otlp.protocol@ == "grpc"@
        },
        config.telemetry is Some && config.telemetry->0.batch is Some ==> {
            let batch = config.telemetry->0.batch->0;
            &&& 0 < batch.max_export_batch_size <= batch.max_queue_size
            &&& batch.scheduled_delay_ms >= MIN_EXPORT_MS
            &&& batch.export_timeout_ms >= MIN_EXPORT_MS
        },
{
    lemma_workflows(workflow_items(config), 0);
    assert forall|k: int|
        #![trigger workflow_items(config)[k]]
        0 <= k < workflow_items(config).len() implies {
        let workflow = workflow_items(config)[k].1;
        &&& workflow.timeout is Some ==> workflow.timeout->0.secs() >= MIN_WORKFLOW_TIMEOUT_SECS
        &&& workflow.blocking_timeout is Some ==> workflow.blocking_timeout->0.secs()
            >= MIN_WORKFLOW_TIMEOUT_SECS
    } by {
        assert(workflow_error(workflow_items(config)[k].0, workflow_items(config)[k].1) is None);
    }
    if config.cedar is Some {
        lemma_policy_files(texts(config.cedar->0.policies@), existing, 0);
    }
}

/// A configuration in which validation finds no error compiles.
pub proof fn law_valid_configuration_compiles(
    config: Config,
    version: Version,
    existing: Seq<Seq<char>>,
)
    requires
        validation_error(config, version, existing) is None,
    ensures
        first_invalid(rule_texts(config.governance.rules@)) == config.governance.rules@.len(),
        invalid_source(config.sources@) == config.sources@.len(),
{
    law_valid_sources(config, version, existing);
    law_valid_rules(config, version, existing);
    let rules = config.governance.rules@;
    lemma_first_invalid(rule_texts(rules));
    lemma_invalid_source(config.sources@);
    let n = first_invalid(rule_texts(rules));
    if n < rules.len() {
        assert(rule_texts(rules)[n as int] == rules[n as int].pattern@);
    }
    let m = invalid_source(config.sources@);
    if m < config.sources@.len() {
        assert(first_invalid(exposure_texts(config.sources@[m as int])) == exposure_texts(
            config.sources@[m as int],
        ).len());
    }
}

/// Compiling changes nothing of a source but its compiled patterns: where it is, what
/// it is called, whether it is enabled and which patterns it lists stay.
pub proof fn law_compiling_keeps_the_sources(
    before: Seq<Source>,
    after: Seq<Source>,
    n: int,
    k: int,
)
    requires
        sources_compiled(before, after, n),
        0 <= n <= before.len(),
        0 <= k < before.len(),
    ensures
        after.len() == before.len(),
        after[k].id_text() == before[k].id_text(),
        after[k].url_text() == before[k].url_text(),
        after[k].prefix_text() == before[k].prefix_text(),
        match (before[k], after[k]) {
            (Source::Mcp { enabled, .. }, Source::Mcp { enabled: kept, .. }) => kept == enabled,
        },
        after[k].exposure().pattern_texts() == before[k].exposure().pattern_texts(),
        after[k].exposure() is Allowlist <==> before[k].exposure() is Allowlist,
        after[k].exposure() is Blocklist <==> before[k].exposure() is Blocklist,
{
    if k < n {
        assert(source_compiled(before[k], after[k]));
    } else {
        assert(after[k] == before[k]);
    }
}

} // verus!
