//! Lookups in a configuration, and the compilation of its glob patterns.

use vstd::prelude::*;

use crate::config::error::ConfigError;
use crate::config::glob_pattern::{compile_glob, glob_new};
use crate::config::schema::{Action, Config, ExposeConfig, HumanWorkflow, Rule, Source};
use crate::text::{same_text, texts};

verus! {

/// The position of the first source with an ID; the number of sources if there
/// is none.
pub open spec fn source_position(sources: Seq<Source>, id: Seq<char>) -> nat
    decreases sources.len(),
{
    if sources.len() == 0 {
        0
    } else if sources[0].id_text() == id {
        0
    } else {
        1 + source_position(sources.skip(1), id)
    }
}

/// `source_position` is the first position at which the ID stands.
pub proof fn lemma_source_position(sources: Seq<Source>, id: Seq<char>)
    ensures
        source_position(sources, id) <= sources.len(),
        forall|j: int|
            0 <= j < source_position(sources, id) ==> (#[trigger] sources[j]).id_text() != id,
        source_position(sources, id) < sources.len() ==> sources[source_position(
            sources,
            id,
        ) as int].id_text() == id,
    decreases sources.len(),
{
    if sources.len() > 0 && sources[0].id_text() != id {
        lemma_source_position(sources.skip(1), id);
        let n = source_position(sources.skip(1), id);
        assert forall|j: int| 0 <= j < 1 + n implies (#[trigger] sources[j]).id_text() != id by {
            if j > 0 {
                assert(sources.skip(1)[j - 1] == sources[j]);
            }
        }
        if n < sources.skip(1).len() {
            assert(sources.skip(1)[n as int] == sources[n as int + 1]);
        }
    }
}

/// Whether an action can lead to Gate 4 (approval).
pub open spec fn leads_to_approval(action: Action) -> bool {
    action is Approve || action is Policy
}

/// Whether some call can lead to Gate 4 (approval): by the default action or by
/// the action of some rule.
pub open spec fn approval_possible(config: Config) -> bool {
    leads_to_approval(config.governance.defaults.action) || exists|i: int|
        0 <= i < config.governance.rules@.len() && leads_to_approval(
            (#[trigger] config.governance.rules@[i]).action,
        )
}

/// A rule with its pattern compiled.
pub open spec fn compiled_rule(rule: Rule) -> Rule {
    Rule { compiled_pattern: Some(glob_new(rule.pattern@)->Ok_0), ..rule }
}

/// Whether `after` is `before` with the first `n` rules compiled.
pub open spec fn rules_compiled(before: Seq<Rule>, after: Seq<Rule>, n: int) -> bool {
    &&& after.len() == before.len()
    &&& forall|i: int| 0 <= i < n ==> #[trigger] after[i] == compiled_rule(before[i])
    &&& forall|i: int| n <= i < before.len() ==> #[trigger] after[i] == before[i]
}

/// The patterns that a list of texts compiles to.
pub open spec fn compiled_list(tools: Seq<Seq<char>>) -> Seq<glob::Pattern> {
    Seq::new(tools.len(), |i: int| glob_new(tools[i])->Ok_0)
}

/// Whether `after` is `before` with the patterns of its exposure list compiled.
pub open spec fn source_compiled(before: Source, after: Source) -> bool {
    match (before, after) {
        (
            Source::Mcp { id, url, prefix, expose, enabled },
            Source::Mcp { id: id2, url: url2, prefix: prefix2, expose: expose2, enabled: enabled2 },
        ) => {
            &&& id == id2 && url == url2 && prefix == prefix2 && enabled == enabled2
            &&& match (expose, expose2) {
                (None, None) => true,
                (Some(e), Some(f)) => f@ == compiled_exposure(e@),
                _ => false,
            }
        },
    }
}

/// An exposure list with its patterns compiled.
pub open spec fn compiled_exposure(
    e: ExposeConfig<Seq<Seq<char>>, Seq<glob::Pattern>>,
) -> ExposeConfig<Seq<Seq<char>>, Seq<glob::Pattern>> {
    match e {
        ExposeConfig::All => ExposeConfig::All,
        ExposeConfig::Allowlist { tools, .. } => ExposeConfig::Allowlist {
            tools,
            compiled_tools: compiled_list(tools),
        },
        ExposeConfig::Blocklist { tools, .. } => ExposeConfig::Blocklist {
            tools,
            compiled_tools: compiled_list(tools),
        },
    }
}

/// Whether `after` is `before` with the exposure lists of the first `n` sources
/// compiled.
pub open spec fn sources_compiled(before: Seq<Source>, after: Seq<Source>, n: int) -> bool {
    &&& after.len() == before.len()
    &&& forall|i: int| 0 <= i < n ==> source_compiled(before[i], #[trigger] after[i])
    &&& forall|i: int| n <= i < before.len() ==> #[trigger] after[i] == before[i]
}

/// The position of the first text that does not compile; the number of texts if
/// all do.
pub open spec fn first_invalid(tools: Seq<Seq<char>>) -> nat
    decreases tools.len(),
{
    if tools.len() == 0 {
        0
    } else if glob_new(tools[0]) is Err {
        0
    } else {
        1 + first_invalid(tools.skip(1))
    }
}

/// `first_invalid` is the first position whose text does not compile.
pub proof fn lemma_first_invalid(tools: Seq<Seq<char>>)
    ensures
        first_invalid(tools) <= tools.len(),
        forall|j: int| 0 <= j < first_invalid(tools) ==> glob_new(#[trigger] tools[j]) is Ok,
        first_invalid(tools) < tools.len() ==> glob_new(tools[first_invalid(tools) as int]) is Err,
    decreases tools.len(),
{
    if tools.len() > 0 && glob_new(tools[0]) is Ok {
        lemma_first_invalid(tools.skip(1));
        let n = first_invalid(tools.skip(1));
        assert forall|j: int| 0 <= j < 1 + n implies glob_new(#[trigger] tools[j]) is Ok by {
            if j > 0 {
                assert(tools.skip(1)[j - 1] == tools[j]);
            }
        }
        if n < tools.skip(1).len() {
            assert(tools.skip(1)[n as int] == tools[n as int + 1]);
        }
    }
}

/// The pattern texts of a sequence of rules.
pub open spec fn rule_texts(rules: Seq<Rule>) -> Seq<Seq<char>> {
    Seq::new(rules.len(), |i: int| rules[i].pattern@)
}

/// The pattern texts of a source's exposure list; none where all tools are
/// visible.
pub open spec fn exposure_texts(source: Source) -> Seq<Seq<char>> {
    match source.exposure().pattern_texts() {
        Some(tools) => tools,
        None => Seq::empty(),
    }
}

/// The error for a pattern text that does not compile.
pub open spec fn glob_error(text: Seq<char>) -> ConfigError<Seq<char>, Seq<Seq<char>>> {
    ConfigError::InvalidGlobPattern { pattern: text, message: glob_new(text)->Err_0 }
}

/// Compiles each text of a list, up to the first that does not compile.
fn compile_list(tools: &Vec<String>) -> (r: Result<Vec<glob::Pattern>, ConfigError>)
    ensures
        match r {
            Ok(p) => {
                &&& first_invalid(texts(tools@)) == tools@.len()
                &&& p@ == compiled_list(texts(tools@))
            },
            Err(e) => {
                let n = first_invalid(texts(tools@));
                n < tools@.len() && e@ == glob_error(texts(tools@)[n as int])
            },
        },
{
    proof {
        lemma_first_invalid(texts(tools@));
    }
    let mut out: Vec<glob::Pattern> = Vec::new();
    let mut i: usize = 0;
    let ghost n = first_invalid(texts(tools@));
    while i < tools.len()
        invariant
            n == first_invalid(texts(tools@)),
            i <= n <= tools@.len(),
            n < tools@.len() ==> glob_new(texts(tools@)[n as int]) is Err,
            forall|j: int| 0 <= j < n ==> glob_new(#[trigger] texts(tools@)[j]) is Ok,
            out@ == compiled_list(texts(tools@)).take(i as int),
        decreases tools@.len() - i,
    {
        assert(texts(tools@)[i as int] == tools@[i as int]@);
        match compile_glob(tools[i].as_str()) {
            Ok(p) => {
                out.push(p);
                i = i + 1;
                assert(compiled_list(texts(tools@)).take(i as int) == compiled_list(
                    texts(tools@),
                ).take(i as int - 1).push(compiled_list(texts(tools@))[i as int - 1]));
            },
            Err(message) => {
                return Err(
                    ConfigError::InvalidGlobPattern { pattern: tools[i].clone(), message },
                );
            },
        }
    }
    assert(compiled_list(texts(tools@)).take(i as int) == compiled_list(texts(tools@)));
    Ok(out)
}

impl Config {
    /// Get the first source with an ID.
    pub fn get_source(&self, id: &str) -> (r: Option<&Source>)
        ensures
            match r {
                Some(s) => {
                    let n = source_position(self.sources@, id@);
                    n < self.sources@.len() && *s == self.sources@[n as int]
                },
                None => source_position(self.sources@, id@) == self.sources@.len(),
            },
    {
        proof {
            lemma_source_position(self.sources@, id@);
        }
        let ghost n = source_position(self.sources@, id@);
        let mut i: usize = 0;
        while i < self.sources.len()
            invariant
                n == source_position(self.sources@, id@),
                i <= n <= self.sources@.len(),
                n < self.sources@.len() ==> self.sources@[n as int].id_text() == id@,
                forall|j: int| 0 <= j < n ==> (#[trigger] self.sources@[j]).id_text() != id@,
            decreases self.sources@.len() - i,
        {
            if same_text(self.sources[i].id(), id) {
                return Some(&self.sources[i]);
            }
            i = i + 1;
        }
        None
    }

    /// Get the first (in version 0.2, the only) source.
    pub fn primary_source(&self) -> (r: Option<&Source>)
        ensures
            match r {
                Some(s) => self.sources@.len() > 0 && *s == self.sources@[0],
                None => self.sources@.len() == 0,
            },
    {
        if self.sources.len() > 0 {
            Some(&self.sources[0])
        } else {
            None
        }
    }

    /// Get an approval workflow by name.
    pub fn get_workflow(&self, name: &str) -> (r: Option<&HumanWorkflow>)
        ensures
            match r {
                Some(w) => self.approval is Some && self.approval->0@.contains_key(name@) && *w
                    == self.approval->0@[name@],
                None => self.approval is Some ==> !self.approval->0@.contains_key(name@),
            },
    {
        match &self.approval {
            Some(workflows) => workflows.get(name),
            None => None,
        }
    }

    /// Whether some call can lead to Gate 4 (approval): by the default action
    /// or by the action of some rule.
    pub fn requires_approval_engine(&self) -> (r: bool)
        ensures
            r == approval_possible(*self),
    {
        match self.governance.defaults.action {
            Action::Approve | Action::Policy => {
                return true;
            },
            _ => {},
        }
        let mut i: usize = 0;
        while i < self.governance.rules.len()
            invariant
                !leads_to_approval(self.governance.defaults.action),
                i <= self.governance.rules@.len(),
                forall|j: int|
                    0 <= j < i ==> !leads_to_approval(
                        (#[trigger] self.governance.rules@[j]).action,
                    ),
            decreases self.governance.rules@.len() - i,
        {
            match self.governance.rules[i].action {
                Action::Approve | Action::Policy => {
                    assert(leads_to_approval(self.governance.rules@[i as int].action));
                    return true;
                },
                _ => {},
            }
            i = i + 1;
        }
        false
    }

    /// Compile the glob patterns of the rules and of the exposure lists, so
    /// that no pattern is parsed again for each request.
    ///
    /// Stops at the first pattern that does not compile: the rules before it,
    /// or all rules and the sources before it, are compiled then, and nothing
    /// else has changed.
    pub fn compile_patterns(&mut self) -> (r: Result<(), ConfigError>)
        ensures
            final(self).schema == old(self).schema,
            final(self).approval == old(self).approval,
            final(self).cedar == old(self).cedar,
            final(self).telemetry == old(self).telemetry,
            final(self).governance.defaults == old(self).governance.defaults,
            r is Ok <==> first_invalid(rule_texts(old(self).governance.rules@))
                == old(self).governance.rules@.len() && invalid_source(old(self).sources@)
                == old(self).sources@.len(),
            ({
                let rules = old(self).governance.rules@;
                let sources = old(self).sources@;
                let k = first_invalid(rule_texts(rules));
                let m = invalid_source(sources);
                &&& rules_compiled(rules, final(self).governance.rules@, k as int)
                &&& if k < rules.len() {
                    &&& final(self).sources@ == sources
                    &&& r is Err && r->Err_0@ == glob_error(rules[k as int].pattern@)
                } else {
                    &&& sources_compiled(sources, final(self).sources@, m as int)
                    &&& m < sources.len() ==> r is Err && r->Err_0@ == glob_error(
                        exposure_texts(sources[m as int])[first_invalid(
                            exposure_texts(sources[m as int]),
                        ) as int],
                    )
                }
            }),
    {
        let ghost rules = self.governance.rules@;
        let ghost sources = self.sources@;
        let ghost k = first_invalid(rule_texts(rules));
        let ghost m = invalid_source(sources);
        proof {
            lemma_first_invalid(rule_texts(rules));
            lemma_invalid_source(sources);
        }
        let mut i: usize = 0;
        while i < self.governance.rules.len()
            invariant
                rules == old(self).governance.rules@,
                sources == old(self).sources@,
                k == first_invalid(rule_texts(rules)),
                i <= k <= rules.len(),
                k < rules.len() ==> glob_new(rule_texts(rules)[k as int]) is Err,
                forall|j: int| 0 <= j < k ==> glob_new(#[trigger] rule_texts(rules)[j]) is Ok,
                rules_compiled(rules, self.governance.rules@, i as int),
                self.sources == old(self).sources,
                self.schema == old(self).schema,
                self.approval == old(self).approval,
                self.cedar == old(self).cedar,
                self.telemetry == old(self).telemetry,
                self.governance.defaults == old(self).governance.defaults,
            decreases rules.len() - i,
        {
            assert(rule_texts(rules)[i as int] == rules[i as int].pattern@);
            assert(self.governance.rules@[i as int] == rules[i as int]);
            match compile_glob(self.governance.rules[i].pattern.as_str()) {
                Ok(p) => {
                    self.governance.rules[i].compiled_pattern = Some(p);
                },
                Err(message) => {
                    return Err(
                        ConfigError::InvalidGlobPattern {
                            pattern: self.governance.rules[i].pattern.clone(),
                            message,
                        },
                    );
                },
            }
            i = i + 1;
        }
        let mut s: usize = 0;
        while s < self.sources.len()
            invariant
                rules == old(self).governance.rules@,
                sources == old(self).sources@,
                k == first_invalid(rule_texts(rules)),
                k == rules.len(),
                m == invalid_source(sources),
                s <= m <= sources.len(),
                m < sources.len() ==> first_invalid(exposure_texts(sources[m as int]))
                    < exposure_texts(sources[m as int]).len(),
                forall|j: int|
                    0 <= j < m ==> first_invalid(exposure_texts(#[trigger] sources[j]))
                        == exposure_texts(sources[j]).len(),
                rules_compiled(rules, self.governance.rules@, k as int),
                sources_compiled(sources, self.sources@, s as int),
                self.schema == old(self).schema,
                self.approval == old(self).approval,
                self.cedar == old(self).cedar,
                self.telemetry == old(self).telemetry,
                self.governance.defaults == old(self).governance.defaults,
            decreases sources.len() - s,
        {
            assert(self.sources@[s as int] == sources[s as int]);
            match &mut self.sources[s] {
                Source::Mcp { expose, .. } => {
                    match expose {
                        Some(ExposeConfig::Allowlist { tools, compiled_tools }) => {
                            match compile_list(tools) {
                                Ok(p) => {
                                    *compiled_tools = p;
                                },
                                Err(e) => {
                                    return Err(e);
                                },
                            }
                        },
                        Some(ExposeConfig::Blocklist { tools, compiled_tools }) => {
                            match compile_list(tools) {
                                Ok(p) => {
                                    *compiled_tools = p;
                                },
                                Err(e) => {
                                    return Err(e);
                                },
                            }
                        },
                        _ => {},
                    }
                },
            }
            s = s + 1;
        }
        Ok(())
    }
}

/// The position of the first source with an exposure pattern that does not
/// compile; the number of sources if there is none.
pub open spec fn invalid_source(sources: Seq<Source>) -> nat
    decreases sources.len(),
{
    if sources.len() == 0 {
        0
    } else if first_invalid(exposure_texts(sources[0])) < exposure_texts(sources[0]).len() {
        0
    } else {
        1 + invalid_source(sources.skip(1))
    }
}

/// `invalid_source` is the first position with a pattern that does not compile.
pub proof fn lemma_invalid_source(sources: Seq<Source>)
    ensures
        invalid_source(sources) <= sources.len(),
        forall|j: int|
            0 <= j < invalid_source(sources) ==> first_invalid(
                exposure_texts(#[trigger] sources[j]),
            ) == exposure_texts(sources[j]).len(),
        invalid_source(sources) < sources.len() ==> first_invalid(
            exposure_texts(sources[invalid_source(sources) as int]),
        ) < exposure_texts(sources[invalid_source(sources) as int]).len(),
    decreases sources.len(),
{
    if sources.len() > 0 {
        lemma_first_invalid(exposure_texts(sources[0]));
        if first_invalid(exposure_texts(sources[0])) == exposure_texts(sources[0]).len() {
            lemma_invalid_source(sources.skip(1));
            let n = invalid_source(sources.skip(1));
            assert forall|j: int| 0 <= j < 1 + n implies first_invalid(
                exposure_texts(#[trigger] sources[j]),
            ) == exposure_texts(sources[j]).len() by {
                if j > 0 {
                    assert(sources.skip(1)[j - 1] == sources[j]);
                }
            }
            if n < sources.skip(1).len() {
                assert(sources.skip(1)[n as int] == sources[n as int + 1]);
            }
        }
    }
}

} // verus!
