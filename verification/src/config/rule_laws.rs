//! What rules, exposure lists and references to the environment decide, in terms of
//! what the configuration says.

use vstd::prelude::*;

use crate::config::compile::approval_possible;
use crate::config::duration_format::written_duration;
use crate::config::error::ValidationWarning;
use crate::config::glob_pattern::{glob_matches, glob_new};
use crate::config::loader::{
    config_file, first_existing, first_missing, lemma_brace_end, lemma_name_end,
    lemma_reference_end, reference_at, reference_end, references, replacement, substituted,
    substitution, EnvRef,
};
use crate::config::schema::{
    first_applying, lemma_first_applying, Action, ApprovalDestination, Config, ExposeConfig,
    Governance, HumanWorkflow, Rule, SourceFilter,
};
use crate::config::validate::{
    filter_ids, has_own_slack_settings, rule_warnings, workflow_warnings,
};
use crate::text::{has_part, numeral, replaced, stands_at, texts};
use crate::text_laws::{law_numerals_are_read_back, law_replacing_goes_on};
use crate::time::Duration;

verus! {

/// A rule applies to a tool of a source exactly if its filter names the source, or
/// it has none, and its pattern matches the tool's name; a pattern that is no
/// pattern matches nothing.
pub proof fn law_rules_apply_by_source_and_pattern(
    rule: Rule,
    tool: Seq<char>,
    source_id: Seq<char>,
)
    ensures
        ({
            let named = match rule.source {
                None => true,
                Some(SourceFilter::Single(id)) => id@ == source_id,
                Some(SourceFilter::Multiple(ids)) => exists|i: int|
                    0 <= i < ids@.len() && (#[trigger] ids@[i])@ == source_id,
            };
            let matching = match rule.compiled_pattern {
                Some(p) => glob_matches(p, tool),
                None => glob_new(rule.pattern@) is Ok && glob_matches(
                    glob_new(rule.pattern@)->Ok_0,
                    tool,
                ),
            };
            rule.applies(tool, source_id) <==> named && matching
        }),
{
    if let Some(SourceFilter::Multiple(ids)) = rule.source {
        let all = texts(ids@);
        if all.contains(source_id) {
            let i = choose|i: int| 0 <= i < all.len() && all[i] == source_id;
            assert(ids@[i]@ == source_id);
        }
        if exists|i: int| 0 <= i < ids@.len() && (#[trigger] ids@[i])@ == source_id {
            let i = choose|i: int| 0 <= i < ids@.len() && (#[trigger] ids@[i])@ == source_id;
            assert(all[i] == source_id);
        }
    }
}

/// The first rule that applies decides with its own words: its action, its policy,
/// its workflow and its pattern. Where none applies, the default action is taken
/// and nothing is named.
pub proof fn law_the_first_rule_decides(
    governance: Governance,
    tool: Seq<char>,
    source_id: Seq<char>,
    i: int,
)
    ensures
        ({
            let decided = governance.decides(tool, source_id);
            let rules = governance.rules@;
            &&& 0 <= i < rules.len() && rules[i].applies(tool, source_id) && (forall|j: int|
                0 <= j < i ==> !(#[trigger] rules[j]).applies(tool, source_id)) ==> {
                &&& decided.action == rules[i].action
                &&& decided.matched_rule == Some(rules[i].pattern@)
                &&& rules[i].policy_id is Some ==> decided.policy_id == Some(
                    rules[i].policy_id->0@,
                )
                &&& rules[i].policy_id is None ==> decided.policy_id is None
                &&& rules[i].approval is Some ==> decided.approval_workflow == Some(
                    rules[i].approval->0@,
                )
                &&& rules[i].approval is None ==> decided.approval_workflow is None
            }
            &&& (forall|j: int|
                0 <= j < rules.len() ==> !(#[trigger] rules[j]).applies(tool, source_id)) ==> {
                &&& decided.action == governance.defaults.action
                &&& decided.matched_rule is None
                &&& decided.policy_id is None
                &&& decided.approval_workflow is None
            }
        }),
{
    lemma_first_applying(governance.rules@, tool, source_id);
    let n = first_applying(governance.rules@, tool, source_id);
    if 0 <= i < governance.rules@.len() && governance.rules@[i].applies(tool, source_id) {
        if n > i {
            assert(!governance.rules@[i].applies(tool, source_id));
        }
    }
}

/// Without a list everything is shown. An allowlist shows exactly what one of its
/// patterns matches, and a blocklist exactly what none of its patterns matches.
pub proof fn law_lists_show_by_their_patterns(
    tools: Seq<Seq<char>>,
    compiled_tools: Seq<glob::Pattern>,
    name: Seq<char>,
)
    ensures
        (ExposeConfig::<Seq<Seq<char>>, Seq<glob::Pattern>>::All).shows(name),
        ({
            let matching = if compiled_tools.len() > 0 {
                exists|i: int|
                    0 <= i < compiled_tools.len() && glob_matches(
                        #[trigger] compiled_tools[i],
                        name,
                    )
            } else {
                exists|i: int|
                    0 <= i < tools.len() && glob_new(#[trigger] tools[i]) is Ok && glob_matches(
                        glob_new(tools[i])->Ok_0,
                        name,
                    )
            };
            &&& (ExposeConfig::<Seq<Seq<char>>, Seq<glob::Pattern>>::Allowlist {
                tools,
                compiled_tools,
            }).shows(name) <==> matching
            &&& (ExposeConfig::<Seq<Seq<char>>, Seq<glob::Pattern>>::Blocklist {
                tools,
                compiled_tools,
            }).shows(name) <==> !matching
        }),
{
}

/// A configuration can lead to an approval exactly if its default action or the
/// action of one of its rules asks for an approval or for a policy.
pub proof fn law_approvals_come_from_actions(config: Config)
    ensures
        ({
            let asks = |a: Action| a == Action::Approve || a == Action::Policy;
            approval_possible(config) <==> asks(config.governance.defaults.action) || exists|
                i: int,
            |
                0 <= i < config.governance.rules@.len() && asks(
                    (#[trigger] config.governance.rules@[i]).action,
                )
        }),
{
}

/// A reference to the environment is written with a dollar sign and braces around a
/// name and perhaps a default behind `:-`; the default has no closing brace in it.
pub proof fn law_references_are_written_so(s: Seq<char>, i: int)
    requires
        0 <= i,
        reference_end(s, i) is Some,
    ensures
        ({
            let r = reference_at(s, i);
            &&& r.name.len() > 0
            &&& !('0' <= r.name[0] <= '9')
            &&& forall|k: int|
                0 <= k < r.name.len() ==> ('a' <= #[trigger] r.name[k] <= 'z' || 'A' <= r.name[k]
                    <= 'Z' || '0' <= r.name[k] <= '9' || r.name[k] == '_')
            &&& r.default is None ==> r.full == seq!['$', '{'] + r.name + seq!['}']
            &&& r.default is Some ==> r.full == seq!['$', '{'] + r.name + seq![':', '-']
                + r.default->0 + seq!['}']
            &&& r.default is Some ==> !r.default->0.contains('}')
            &&& s.subrange(i, i + r.full.len()) == r.full
        }),
{
    let n = crate::config::loader::name_end(s, i + 2);
    let end = reference_end(s, i)->0;
    let r = reference_at(s, i);
    lemma_name_end(s, i + 2);
    assert(n > i + 2);
    assert(r.name[0] == s[i + 2]);
    assert forall|k: int| 0 <= k < r.name.len() implies ('a' <= #[trigger] r.name[k] <= 'z' || 'A'
        <= r.name[k] <= 'Z' || '0' <= r.name[k] <= '9' || r.name[k] == '_') by {
        assert(r.name[k] == s[i + 2 + k]);
    }
    if s[n] == '}' {
        assert(r.full =~= seq!['$', '{'] + r.name + seq!['}']);
    } else {
        lemma_brace_end(s, n + 2);
        let d = r.default->0;
        assert(r.full =~= seq!['$', '{'] + r.name + seq![':', '-'] + d + seq!['}']);
        assert(!d.contains('}')) by {
            if d.contains('}') {
                let k = choose|k: int| 0 <= k < d.len() && d[k] == '}';
                assert(s[n + 2 + k] == '}');
            }
        }
    }
    assert(s.subrange(i, i + r.full.len()) =~= r.full);
}

/// A variable that is set is what its reference is replaced by, whatever its
/// default; one that is not set is replaced by its default.
pub proof fn law_the_environment_comes_first(r: EnvRef<Seq<char>>, env: Map<Seq<char>, String>)
    ensures
        env.contains_key(r.name) ==> replacement(r, env) == Some(env[r.name]@),
        !env.contains_key(r.name) ==> replacement(r, env) == r.default,
{
}

/// Substitution fails exactly if a variable that is referred to without a default
/// is not set, and the error names such a variable.
pub proof fn law_missing_variables_are_named(content: Seq<char>, env: Map<Seq<char>, String>)
    ensures
        ({
            let refs = references(content, 0);
            let r = substitution(content, env);
            &&& r is Err <==> exists|i: int|
                0 <= i < refs.len() && (#[trigger] refs[i]).default is None && !env.contains_key(
                    refs[i].name,
                )
            &&& r is Err ==> r->Err_0 is MissingEnvVar && !env.contains_key(r->Err_0->var)
        }),
{
    lemma_first_missing(references(content, 0), env);
}

proof fn lemma_first_missing(refs: Seq<EnvRef<Seq<char>>>, env: Map<Seq<char>, String>)
    ensures
        first_missing(refs, env) is Some <==> exists|i: int|
            0 <= i < refs.len() && (#[trigger] refs[i]).default is None && !env.contains_key(
                refs[i].name,
            ),
        first_missing(refs, env) is Some ==> !env.contains_key(first_missing(refs, env)->0),
    decreases refs.len(),
{
    if refs.len() > 0 {
        let rest = refs.skip(1);
        lemma_first_missing(rest, env);
        if exists|i: int|
            0 <= i < rest.len() && (#[trigger] rest[i]).default is None && !env.contains_key(
                rest[i].name,
            ) {
            let i = choose|i: int|
                0 <= i < rest.len() && (#[trigger] rest[i]).default is None && !env.contains_key(
                    rest[i].name,
                );
            assert(refs[i + 1] == rest[i]);
        }
        if exists|i: int|
            0 <= i < refs.len() && (#[trigger] refs[i]).default is None && !env.contains_key(
                refs[i].name,
            ) {
            let i = choose|i: int|
                0 <= i < refs.len() && (#[trigger] refs[i]).default is None && !env.contains_key(
                    refs[i].name,
                );
            if i > 0 {
                assert(rest[i - 1] == refs[i]);
            }
        }
    }
}

/// A reference in a text is replaced by the value of its variable, or by its default
/// if the variable is not set, and what stands before and behind it stays.
pub proof fn law_a_reference_is_replaced(
    before: Seq<char>,
    full: Seq<char>,
    behind: Seq<char>,
    env: Map<Seq<char>, String>,
)
    requires
        !before.contains('$'),
        !behind.contains('$'),
        reference_end(before + full + behind, before.len() as int) == Some(
            (before.len() + full.len()) as int,
        ),
    ensures
        ({
            let content = before + full + behind;
            let name = reference_at(content, before.len() as int).name;
            let default = reference_at(content, before.len() as int).default;
            let r = substitution(content, env);
            &&& env.contains_key(name) ==> r is Ok && r->Ok_0 == before + env[name]@ + behind
            &&& !env.contains_key(name) && default is Some ==> r is Ok && r->Ok_0 == before
                + default->0 + behind
            &&& !env.contains_key(name) && default is None ==> r is Err && r->Err_0
                is MissingEnvVar && r->Err_0->var == name
        }),
{
    let content = before + full + behind;
    let at = before.len() as int;
    let end = at + full.len();
    let r = reference_at(content, at);
    lemma_reference_end(content, at);
    assert(r.full =~= full);
    lemma_skip_to(content, 0, at);
    lemma_skip_rest(content, end);
    let refs = references(content, 0);
    assert(references(content, at) == seq![r] + references(content, end));
    assert(refs =~= seq![r]);
    assert(refs.skip(1) =~= Seq::<EnvRef<Seq<char>>>::empty());
    assert(first_missing(refs.skip(1), env) is None);
    assert(full[0] == '$') by {
        assert(content[at] == full[0]);
    }
    assert forall|i: int| 0 <= i < before.len() implies !stands_at(content, full, i) by {
        if stands_at(content, full, i) {
            assert(content.subrange(i, i + full.len())[0] == content[i]);
            assert(before[i] == '$');
        }
    }
    assert(!has_part(behind, full)) by {
        if has_part(behind, full) {
            let i = choose|i: int| stands_at(behind, full, i);
            assert(behind.subrange(i, i + full.len())[0] == behind[i]);
        }
    }
    if let Some(value) = replacement(r, env) {
        law_replacing_goes_on(before, full, value, behind);
        assert(substituted(replaced(content, full, value), refs.skip(1), env) == replaced(
            content,
            full,
            value,
        ));
    }
}

/// Where there is no dollar sign, no reference begins.
proof fn lemma_skip_to(s: Seq<char>, i: int, n: int)
    requires
        0 <= i <= n <= s.len(),
        forall|k: int| i <= k < n ==> s[k] != '$',
    ensures
        references(s, i) == references(s, n),
    decreases n - i,
{
    if i < n {
        lemma_skip_to(s, i + 1, n);
    }
}

proof fn lemma_skip_rest(s: Seq<char>, i: int)
    requires
        0 <= i <= s.len(),
        forall|k: int| i <= k < s.len() ==> s[k] != '$',
    ensures
        references(s, i) == Seq::<EnvRef<Seq<char>>>::empty(),
{
    lemma_skip_to(s, i, s.len() as int);
}

/// A path that is given is the only one that is tried. Without it the first that
/// exists is taken: the path in the environment, then the system's configuration,
/// then the one in the working directory.
pub proof fn law_configuration_files_in_order(
    explicit: Option<Seq<char>>,
    env_path: Option<Seq<char>>,
    existing: Seq<Seq<char>>,
)
    ensures
        ({
            let r = config_file(explicit, env_path, existing);
            let system = "/etc/thoughtgate/config.yaml"@;
            let local = "./config.yaml"@;
            match explicit {
                Some(p) => if existing.contains(p) {
                    r is Ok && r->Ok_0 == p
                } else {
                    r is Err && r->Err_0 is ConfigFileNotFound && r->Err_0->searched == seq![p]
                },
                None => {
                    let named = env_path is Some && existing.contains(env_path->0);
                    &&& named ==> r is Ok && r->Ok_0 == env_path->0
                    &&& !named && existing.contains(system) ==> r is Ok && r->Ok_0 == system
                    &&& !named && !existing.contains(system) && existing.contains(local) ==> r
                        is Ok && r->Ok_0 == local
                    &&& !named && !existing.contains(system) && !existing.contains(local) ==> r
                        is Err && r->Err_0 is ConfigFileNotFound
                },
            }
        }),
{
    let paths = crate::config::loader::search_paths(env_path);
    assert(first_existing(paths, existing, 3) is None);
    assert(first_existing(paths, existing, 2) == if paths.len() == 3 && existing.contains(
        paths[2],
    ) {
        Some(paths[2])
    } else {
        None::<Seq<char>>
    });
    assert(first_existing(paths, existing, 1) == if existing.contains(paths[1]) {
        Some(paths[1])
    } else {
        first_existing(paths, existing, 2)
    });
}

/// A whole number of seconds, minutes or hours is read as such.
pub proof fn law_written_durations_are_read(n: nat)
    requires
        n <= u64::MAX,
    ensures
        written_duration(numeral(n).push('s')) == Some(
            Duration { nanos: (n * 1_000_000_000) as u128 },
        ),
        written_duration(numeral(n).push('m')) == Some(
            Duration { nanos: (n * 60 * 1_000_000_000) as u128 },
        ),
        written_duration(numeral(n).push('h')) == Some(
            Duration { nanos: (n * 3600 * 1_000_000_000) as u128 },
        ),
{
    law_numerals_are_read_back(n, n, u64::MAX as nat);
    assert(n * 1 == n);
    assert(numeral(n).push('s').drop_last() =~= numeral(n));
    assert(numeral(n).push('m').drop_last() =~= numeral(n));
    assert(numeral(n).push('h').drop_last() =~= numeral(n));
}

/// A warning is given for each rule that names a policy without asking for one, and
/// for no other.
pub proof fn law_idle_policies_are_warned_about(rules: Seq<Rule>, pattern: Seq<char>)
    ensures
        rule_warnings(rules, rules.len() as int).contains(
            ValidationWarning::PolicyIdWithoutPolicyAction { pattern },
        ) <==> exists|i: int|
            0 <= i < rules.len() && (#[trigger] rules[i]).policy_id is Some && rules[i].action
                != Action::Policy && rules[i].pattern@ == pattern,
{
    lemma_rule_warnings(rules, rules.len() as int, pattern);
}

proof fn lemma_rule_warnings(rules: Seq<Rule>, n: int, pattern: Seq<char>)
    requires
        0 <= n <= rules.len(),
    ensures
        rule_warnings(rules, n).contains(
            ValidationWarning::PolicyIdWithoutPolicyAction { pattern },
        ) <==> exists|i: int|
            0 <= i < n && (#[trigger] rules[i]).policy_id is Some && rules[i].action
                != Action::Policy && rules[i].pattern@ == pattern,
    decreases n,
{
    if n > 0 {
        lemma_rule_warnings(rules, n - 1, pattern);
        let before = rule_warnings(rules, n - 1);
        let whole = rule_warnings(rules, n);
        let w = ValidationWarning::<Seq<char>>::PolicyIdWithoutPolicyAction { pattern };
        if rules[n - 1].policy_id is Some && rules[n - 1].action != Action::Policy {
            lemma_pushed(
                before,
                ValidationWarning::PolicyIdWithoutPolicyAction { pattern: rules[n - 1].pattern@ },
                w,
            );
            assert(whole == before.push(
                ValidationWarning::PolicyIdWithoutPolicyAction { pattern: rules[n - 1].pattern@ },
            ));
        }
    }
}

proof fn lemma_pushed<A>(s: Seq<A>, last: A, x: A)
    ensures
        s.push(last).contains(x) <==> s.contains(x) || x == last,
{
    let whole = s.push(last);
    if s.contains(x) {
        let i = choose|i: int| 0 <= i < s.len() && s[i] == x;
        assert(whole[i] == x);
    }
    if x == last {
        assert(whole[s.len() as int] == x);
    }
    if whole.contains(x) {
        let i = choose|i: int| 0 <= i < whole.len() && whole[i] == x;
        if i < s.len() {
            assert(s[i] == x);
        }
    }
}

/// A warning is given for each workflow that has a token, mentions or a channel of
/// its own, and for no other.
pub proof fn law_own_channels_are_warned_about(
    items: Seq<(Seq<char>, HumanWorkflow)>,
    workflow: Seq<char>,
)
    ensures
        workflow_warnings(items, items.len() as int).contains(
            ValidationWarning::PerWorkflowSlackNotSupported { workflow },
        ) <==> exists|i: int|
            0 <= i < items.len() && (#[trigger] items[i]).0 == workflow
                && match items[i].1.destination {
                ApprovalDestination::Slack { channel, token_env, mention } => token_env is Some
                    || mention is Some || channel@ != "#approvals"@,
            },
{
    lemma_workflow_warnings(items, items.len() as int, workflow);
}

proof fn lemma_workflow_warnings(
    items: Seq<(Seq<char>, HumanWorkflow)>,
    n: int,
    workflow: Seq<char>,
)
    requires
        0 <= n <= items.len(),
    ensures
        workflow_warnings(items, n).contains(
            ValidationWarning::PerWorkflowSlackNotSupported { workflow },
        ) <==> exists|i: int|
            0 <= i < n && (#[trigger] items[i]).0 == workflow && has_own_slack_settings(
                items[i].1,
            ),
    decreases n,
{
    if n > 0 {
        lemma_workflow_warnings(items, n - 1, workflow);
        let before = workflow_warnings(items, n - 1);
        let w = ValidationWarning::<Seq<char>>::PerWorkflowSlackNotSupported { workflow };
        if has_own_slack_settings(items[n - 1].1) {
            let last = ValidationWarning::<Seq<char>>::PerWorkflowSlackNotSupported {
                workflow: items[n - 1].0,
            };
            lemma_pushed(before, last, w);
            assert(workflow_warnings(items, n) == before.push(last));
        }
    }
}

/// The sources that are looked up for a rule are exactly those that its filter admits.
pub proof fn law_filters_name_what_they_admit(filter: SourceFilter, id: Seq<char>)
    ensures
        filter_ids(filter).contains(id) <==> filter.admits(id),
{
    match filter {
        SourceFilter::Single(only) => {
            assert(seq![only@][0] == only@);
        },
        SourceFilter::Multiple(_) => {},
    }
}

} // verus!
