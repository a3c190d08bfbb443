//! Configuration schema: sources, governance rules, approval workflows, Cedar
//! and telemetry settings.

use vstd::prelude::*;
use vstd::string::*;

use crate::config::glob_pattern::{
    clone_pattern, compile_glob, glob_matches, glob_new, pattern_matches,
};
use crate::text::{contains_text, opt_text, same_text, texts};
use crate::text_map::TextMap;
use crate::time::Duration;

verus! {

/// Root configuration.
#[derive(Debug, Clone)]
pub struct Config {
    /// Schema version (must be 1).
    pub schema: u32,
    /// Capability sources (version 0.2: exactly one MCP source).
    pub sources: Vec<Source>,
    /// Governance rules.
    pub governance: Governance,
    /// Human approval workflows, by name.
    pub approval: Option<TextMap<HumanWorkflow>>,
    /// Cedar policy configuration.
    pub cedar: Option<CedarConfig>,
    /// Telemetry configuration.
    pub telemetry: Option<TelemetryYamlConfig>,
}

/// A capability provider.
#[derive(Debug, Clone)]
pub enum Source {
    /// Static MCP server.
    Mcp {
        /// Unique identifier of this source.
        id: String,
        /// URL of the MCP server.
        url: String,
        /// Optional prefix for tool names from this source.
        prefix: Option<String>,
        /// Tool exposure configuration.
        expose: Option<ExposeConfig>,
        /// Whether this source is enabled.
        enabled: bool,
    },
}

/// Tool exposure configuration for Gate 1 (visibility). `L` holds a list of
/// texts and `P` a list of compiled patterns.
#[derive(Debug, Clone)]
pub enum ExposeConfig<L = Vec<String>, P = Vec<glob::Pattern>> {
    /// All tools are visible (default).
    All,
    /// Only tools that a listed pattern matches are visible.
    Allowlist {
        tools: L,
        /// Compiled patterns (filled by `Config::compile_patterns`).
        compiled_tools: P,
    },
    /// All tools but those that a listed pattern matches are visible.
    Blocklist {
        tools: L,
        /// Compiled patterns (filled by `Config::compile_patterns`).
        compiled_tools: P,
    },
}

/// Governance configuration for Gate 2 (rules).
#[derive(Debug, Clone)]
pub struct Governance {
    /// Default settings when no rule matches.
    pub defaults: GovernanceDefaults,
    /// Ordered list of rules (first match wins).
    pub rules: Vec<Rule>,
}

/// Default governance settings.
#[derive(Debug, Clone)]
pub struct GovernanceDefaults {
    /// Action to take when no rule matches.
    pub action: Action,
}

/// Actions that can be taken for a tool call.
#[derive(Debug, Clone, Copy, PartialEq, Eq, Structural)]
pub enum Action {
    /// Forward to upstream immediately.
    Forward,
    /// Require human approval.
    Approve,
    /// Reject immediately.
    Deny,
    /// Evaluate a Cedar policy.
    Policy,
}

/// A governance rule.
#[derive(Debug, Clone)]
pub struct Rule {
    /// Glob pattern for tool names.
    pub pattern: String,
    /// Action to take when the rule applies.
    pub action: Action,
    /// The sources to which the rule is restricted.
    pub source: Option<SourceFilter>,
    /// Cedar policy ID (required if the action is `Policy`).
    pub policy_id: Option<String>,
    /// Approval workflow name (for the action `Approve`).
    pub approval: Option<String>,
    /// Description for people.
    pub description: Option<String>,
    /// Compiled pattern (filled by `Config::compile_patterns`).
    pub compiled_pattern: Option<glob::Pattern>,
}

/// The sources to which a rule is restricted.
#[derive(Debug, Clone)]
pub enum SourceFilter {
    /// A single source.
    Single(String),
    /// Several sources.
    Multiple(Vec<String>),
}

/// Result of evaluating the governance rules. `T` holds a text.
#[derive(Debug, Clone)]
pub struct MatchResult<T = String> {
    /// The action to take.
    pub action: Action,
    /// Cedar policy ID (if the action is `Policy`).
    pub policy_id: Option<T>,
    /// Approval workflow name.
    pub approval_workflow: Option<T>,
    /// The pattern of the rule that applied (`None` if none did).
    pub matched_rule: Option<T>,
}

/// Human approval workflow configuration.
#[derive(Debug, Clone)]
pub struct HumanWorkflow {
    /// Destination for approval requests.
    pub destination: ApprovalDestination,
    /// Time limit for approval (10 minutes if not given).
    pub timeout: Option<Duration>,
    /// Time limit for a caller that blocks on the approval.
    pub blocking_timeout: Option<Duration>,
    /// What to do when the time limit passes.
    pub on_timeout: Option<TimeoutAction>,
}

/// Destination for approval requests.
#[derive(Debug, Clone)]
pub enum ApprovalDestination {
    /// A Slack channel.
    Slack {
        /// Channel name (such as `#approvals`).
        channel: String,
        /// Environment variable that holds the bot token.
        token_env: Option<String>,
        /// Users to mention.
        mention: Option<Vec<String>>,
    },
}

/// What to do when an approval times out.
#[derive(Debug, Clone, Copy, PartialEq, Eq, Structural)]
pub enum TimeoutAction {
    /// Deny the request (default).
    Deny,
    /// Let the request through.
    Approve,
}

/// Cedar policy engine configuration.
#[derive(Debug, Clone)]
pub struct CedarConfig {
    /// Paths of the policy files.
    pub policies: Vec<String>,
    /// Path of the schema file.
    pub schema: Option<String>,
}

/// Telemetry configuration (tracing and metrics export).
#[derive(Debug, Clone)]
pub struct TelemetryYamlConfig {
    /// Master switch for trace export (off by default).
    pub enabled: bool,
    /// OTLP export configuration.
    pub otlp: Option<OtlpConfig>,
    /// Sampling configuration.
    pub sampling: Option<SamplingConfig>,
    /// Batch processor configuration.
    pub batch: Option<BatchConfig>,
    /// Resource attributes for OTLP export.
    pub resource: Option<TextMap<String>>,
    /// Stdio transport configuration.
    pub stdio: Option<StdioTelemetryConfig>,
}

/// Stdio transport telemetry configuration.
#[derive(Debug, Clone, Copy, PartialEq, Eq, Structural)]
pub struct StdioTelemetryConfig {
    /// Whether trace fields are kept when a message is forwarded upstream
    /// (off by default).
    pub propagate_upstream: bool,
}

/// OTLP exporter configuration.
#[derive(Debug, Clone)]
pub struct OtlpConfig {
    /// OTLP HTTP endpoint.
    pub endpoint: String,
    /// Protocol name.
    pub protocol: String,
    /// Custom HTTP headers for export.
    pub headers: TextMap<String>,
}

/// A sample rate, kept as the bits of an IEEE 754 double-precision number.
#[derive(Debug, Clone, Copy, PartialEq, Eq, Structural)]
pub struct SampleRate {
    /// Sign, exponent and fraction, from the most significant bit down.
    pub bits: u64,
}

/// Sampling configuration.
#[derive(Debug, Clone)]
pub struct SamplingConfig {
    /// Sampling strategy.
    pub strategy: String,
    /// Sample rate for successful requests (0.0 to 1.0).
    pub success_sample_rate: SampleRate,
}

/// Batch span processor configuration.
#[derive(Debug, Clone, Copy, PartialEq, Eq, Structural)]
pub struct BatchConfig {
    /// Maximum spans in the export queue.
    pub max_queue_size: usize,
    /// Maximum spans per export batch.
    pub max_export_batch_size: usize,
    /// Delay between scheduled exports in milliseconds.
    pub scheduled_delay_ms: u64,
    /// Export timeout in milliseconds.
    pub export_timeout_ms: u64,
}

/// The default of a source's `enabled` switch.
pub fn default_true() -> (r: bool)
    ensures
        r,
{
    true
}

impl Source {
    /// The source ID.
    pub open spec fn id_text(self) -> Seq<char> {
        match self {
            Source::Mcp { id, .. } => id@,
        }
    }

    /// The source URL.
    pub open spec fn url_text(self) -> Seq<char> {
        match self {
            Source::Mcp { url, .. } => url@,
        }
    }

    /// The tool name prefix, if there is one.
    pub open spec fn prefix_text(self) -> Option<Seq<char>> {
        match self {
            Source::Mcp { prefix, .. } => opt_text(prefix),
        }
    }

    /// The exposure configuration: all tools, if none is given.
    pub open spec fn exposure(self) -> ExposeConfig<Seq<Seq<char>>, Seq<glob::Pattern>> {
        match self {
            Source::Mcp { expose, .. } => match expose {
                Some(e) => e@,
                None => ExposeConfig::All,
            },
        }
    }

    /// Get the source ID.
    pub fn id(&self) -> (r: &str)
        ensures
            r@ == self.id_text(),
    {
        match self {
            Source::Mcp { id, .. } => id.as_str(),
        }
    }

    /// Get the source URL.
    pub fn url(&self) -> (r: &str)
        ensures
            r@ == self.url_text(),
    {
        match self {
            Source::Mcp { url, .. } => url.as_str(),
        }
    }

    /// Get the optional prefix.
    pub fn prefix(&self) -> (r: Option<&str>)
        ensures
            match r {
                Some(p) => self.prefix_text() == Some(p@),
                None => self.prefix_text() is None,
            },
    {
        match self {
            Source::Mcp { prefix, .. } => match prefix {
                Some(p) => Some(p.as_str()),
                None => None,
            },
        }
    }

    /// Check if this source is enabled.
    pub fn is_enabled(&self) -> (r: bool)
        ensures
            r == self->enabled,
    {
        match self {
            Source::Mcp { enabled, .. } => *enabled,
        }
    }

    /// Get the exposure configuration.
    pub fn expose(&self) -> (r: ExposeConfig)
        ensures
            r@ == self.exposure(),
    {
        match self {
            Source::Mcp { expose, .. } => match expose {
                Some(e) => e.copy(),
                None => ExposeConfig::default(),
            },
        }
    }

    /// Get the source kind as a string.
    pub fn kind(&self) -> (r: &'static str)
        ensures
            r@ == "mcp"@,
    {
        match self {
            Source::Mcp { .. } => "mcp",
        }
    }
}

/// Whether some pattern of a list of texts compiles and matches a name.
pub open spec fn some_text_matches(tools: Seq<Seq<char>>, name: Seq<char>) -> bool {
    exists|i: int| 0 <= i < tools.len() && text_matches(#[trigger] tools[i], name)
}

/// Whether some compiled pattern matches a name.
pub open spec fn some_pattern_matches(patterns: Seq<glob::Pattern>, name: Seq<char>) -> bool {
    exists|i: int| 0 <= i < patterns.len() && glob_matches(#[trigger] patterns[i], name)
}

/// Whether a pattern text compiles and matches a name.
pub open spec fn text_matches(text: Seq<char>, name: Seq<char>) -> bool {
    glob_new(text) is Ok && glob_matches(glob_new(text)->Ok_0, name)
}

/// Compiles a pattern text and tries it on a name.
fn text_match(text: &str, name: &str) -> (r: bool)
    ensures
        r == text_matches(text@, name@),
{
    match compile_glob(text) {
        Ok(p) => pattern_matches(&p, name),
        Err(_) => false,
    }
}

/// Whether some listed pattern matches: the compiled ones where there are any,
/// else the texts.
fn listed(tools: &Vec<String>, compiled: &Vec<glob::Pattern>, name: &str) -> (r: bool)
    ensures
        r == listed_spec(texts(tools@), compiled@, name@),
{
    if !compiled.is_empty() {
        let mut i: usize = 0;
        while i < compiled.len()
            invariant
                compiled@.len() > 0,
                i <= compiled@.len(),
                forall|j: int| 0 <= j < i ==> !glob_matches(#[trigger] compiled@[j], name@),
            decreases compiled@.len() - i,
        {
            if pattern_matches(&compiled[i], name) {
                assert(glob_matches(compiled@[i as int], name@));
                return true;
            }
            i = i + 1;
        }
        false
    } else {
        let mut i: usize = 0;
        while i < tools.len()
            invariant
                compiled@.len() == 0,
                i <= tools@.len(),
                forall|j: int| 0 <= j < i ==> !text_matches(#[trigger] texts(tools@)[j], name@),
            decreases tools@.len() - i,
        {
            if text_match(tools[i].as_str(), name) {
                assert(text_matches(texts(tools@)[i as int], name@));
                return true;
            }
            i = i + 1;
        }
        false
    }
}

/// Whether some listed pattern matches: the compiled ones where there are any,
/// else the texts.
pub open spec fn listed_spec(
    tools: Seq<Seq<char>>,
    compiled: Seq<glob::Pattern>,
    name: Seq<char>,
) -> bool {
    if compiled.len() > 0 {
        some_pattern_matches(compiled, name)
    } else {
        some_text_matches(tools, name)
    }
}

impl ExposeConfig<Seq<Seq<char>>, Seq<glob::Pattern>> {
    /// Whether a tool of this name is visible.
    pub open spec fn shows(self, name: Seq<char>) -> bool {
        match self {
            ExposeConfig::All => true,
            ExposeConfig::Allowlist { tools, compiled_tools } => listed_spec(
                tools,
                compiled_tools,
                name,
            ),
            ExposeConfig::Blocklist { tools, compiled_tools } => !listed_spec(
                tools,
                compiled_tools,
                name,
            ),
        }
    }
}

/// A vector that holds the same strings.
pub(crate) fn copy_texts(v: &Vec<String>) -> (r: Vec<String>)
    ensures
        r@ == v@,
{
    let mut out: Vec<String> = Vec::new();
    let mut i: usize = 0;
    while i < v.len()
        invariant
            i <= v@.len(),
            out@ == v@.take(i as int),
        decreases v@.len() - i,
    {
        out.push(v[i].clone());
        i = i + 1;
        assert(v@.take(i as int) == v@.take(i as int - 1).push(v@[i as int - 1]));
    }
    assert(v@.take(v@.len() as int) == v@);
    out
}

/// A vector that holds the same patterns.
fn copy_patterns(v: &Vec<glob::Pattern>) -> (r: Vec<glob::Pattern>)
    ensures
        r@ == v@,
{
    let mut out: Vec<glob::Pattern> = Vec::new();
    let mut i: usize = 0;
    while i < v.len()
        invariant
            i <= v@.len(),
            out@ == v@.take(i as int),
        decreases v@.len() - i,
    {
        out.push(clone_pattern(&v[i]));
        i = i + 1;
        assert(v@.take(i as int) == v@.take(i as int - 1).push(v@[i as int - 1]));
    }
    assert(v@.take(v@.len() as int) == v@);
    out
}

impl Default for ExposeConfig {
    fn default() -> (r: Self)
        ensures
            r is All,
    {
        ExposeConfig::All
    }
}

impl ExposeConfig {
    /// The configuration with its lists taken as sequences.
    pub open spec fn view(self) -> ExposeConfig<Seq<Seq<char>>, Seq<glob::Pattern>> {
        match self {
            ExposeConfig::All => ExposeConfig::All,
            ExposeConfig::Allowlist { tools, compiled_tools } => ExposeConfig::Allowlist {
                tools: texts(tools@),
                compiled_tools: compiled_tools@,
            },
            ExposeConfig::Blocklist { tools, compiled_tools } => ExposeConfig::Blocklist {
                tools: texts(tools@),
                compiled_tools: compiled_tools@,
            },
        }
    }

    fn copy(&self) -> (r: Self)
        ensures
            r@ == self@,
    {
        match self {
            ExposeConfig::All => ExposeConfig::All,
            ExposeConfig::Allowlist { tools, compiled_tools } => ExposeConfig::Allowlist {
                tools: copy_texts(tools),
                compiled_tools: copy_patterns(compiled_tools),
            },
            ExposeConfig::Blocklist { tools, compiled_tools } => ExposeConfig::Blocklist {
                tools: copy_texts(tools),
                compiled_tools: copy_patterns(compiled_tools),
            },
        }
    }

    /// Check if a tool name should be visible.
    pub fn is_visible(&self, tool_name: &str) -> (r: bool)
        ensures
            r == self@.shows(tool_name@),
    {
        match self {
            ExposeConfig::All => true,
            ExposeConfig::Allowlist { tools, compiled_tools } => listed(
                tools,
                compiled_tools,
                tool_name,
            ),
            ExposeConfig::Blocklist { tools, compiled_tools } => !listed(
                tools,
                compiled_tools,
                tool_name,
            ),
        }
    }

    /// Get the patterns for validation: `None` where all tools are visible.
    pub fn patterns(&self) -> (r: Option<&[String]>)
        ensures
            match r {
                Some(p) => self@.pattern_texts() == Some(texts(p@)),
                None => self@.pattern_texts() is None,
            },
    {
        match self {
            ExposeConfig::All => None,
            ExposeConfig::Allowlist { tools, .. } => Some(tools.as_slice()),
            ExposeConfig::Blocklist { tools, .. } => Some(tools.as_slice()),
        }
    }
}

impl ExposeConfig<Seq<Seq<char>>, Seq<glob::Pattern>> {
    /// The pattern texts of a list; `None` where all tools are visible.
    pub open spec fn pattern_texts(self) -> Option<Seq<Seq<char>>> {
        match self {
            ExposeConfig::All => None,
            ExposeConfig::Allowlist { tools, .. } => Some(tools),
            ExposeConfig::Blocklist { tools, .. } => Some(tools),
        }
    }
}

impl Action {
    /// The name of the action.
    pub open spec fn name(self) -> Seq<char> {
        match self {
            Action::Forward => "forward"@,
            Action::Approve => "approve"@,
            Action::Deny => "deny"@,
            Action::Policy => "policy"@,
        }
    }

    /// The name of the action.
    pub fn to_text(&self) -> (r: String)
        ensures
            r@ == self.name(),
    {
        match self {
            Action::Forward => "forward".to_owned(),
            Action::Approve => "approve".to_owned(),
            Action::Deny => "deny".to_owned(),
            Action::Policy => "policy".to_owned(),
        }
    }
}

impl SourceFilter {
    /// Whether the filter lets a source through.
    pub open spec fn admits(self, source_id: Seq<char>) -> bool {
        match self {
            SourceFilter::Single(id) => id@ == source_id,
            SourceFilter::Multiple(ids) => texts(ids@).contains(source_id),
        }
    }

    /// Check if the filter matches a source ID.
    pub fn matches(&self, source_id: &str) -> (r: bool)
        ensures
            r == self.admits(source_id@),
    {
        match self {
            SourceFilter::Single(id) => same_text(id.as_str(), source_id),
            SourceFilter::Multiple(ids) => contains_text(ids, source_id),
        }
    }
}

impl MatchResult {
    /// The result with its strings taken as character sequences.
    pub open spec fn view(self) -> MatchResult<Seq<char>> {
        MatchResult {
            action: self.action,
            policy_id: opt_text(self.policy_id),
            approval_workflow: opt_text(self.approval_workflow),
            matched_rule: opt_text(self.matched_rule),
        }
    }
}

impl Rule {
    /// Whether the rule's pattern matches a tool name. A compiled pattern is
    /// used where there is one; a pattern that does not compile matches nothing.
    pub open spec fn covers(self, tool_name: Seq<char>) -> bool {
        match self.compiled_pattern {
            Some(p) => glob_matches(p, tool_name),
            None => text_matches(self.pattern@, tool_name),
        }
    }

    /// Whether the rule applies to a tool of a source.
    pub open spec fn applies(self, tool_name: Seq<char>, source_id: Seq<char>) -> bool {
        &&& match self.source {
            Some(filter) => filter.admits(source_id),
            None => true,
        }
        &&& self.covers(tool_name)
    }

    /// What the rule says of a call to which it applies.
    pub open spec fn verdict(self) -> MatchResult<Seq<char>> {
        MatchResult {
            action: self.action,
            policy_id: opt_text(self.policy_id),
            approval_workflow: opt_text(self.approval),
            matched_rule: Some(self.pattern@),
        }
    }

    fn applies_to(&self, tool_name: &str, source_id: &str) -> (r: bool)
        ensures
            r == self.applies(tool_name@, source_id@),
    {
        if let Some(filter) = &self.source {
            if !filter.matches(source_id) {
                return false;
            }
        }
        match &self.compiled_pattern {
            Some(p) => pattern_matches(p, tool_name),
            None => text_match(self.pattern.as_str(), tool_name),
        }
    }
}

/// The position of the first rule that applies; the number of rules if none does.
pub open spec fn first_applying(
    rules: Seq<Rule>,
    tool_name: Seq<char>,
    source_id: Seq<char>,
) -> nat
    decreases rules.len(),
{
    if rules.len() == 0 {
        0
    } else if rules[0].applies(tool_name, source_id) {
        0
    } else {
        1 + first_applying(rules.skip(1), tool_name, source_id)
    }
}

/// `first_applying` is the first position at which a rule applies.
pub proof fn lemma_first_applying(rules: Seq<Rule>, tool_name: Seq<char>, source_id: Seq<char>)
    ensures
        first_applying(rules, tool_name, source_id) <= rules.len(),
        forall|j: int|
            0 <= j < first_applying(rules, tool_name, source_id) ==> !(#[trigger] rules[j]).applies(
                tool_name,
                source_id,
            ),
        first_applying(rules, tool_name, source_id) < rules.len() ==> rules[first_applying(
            rules,
            tool_name,
            source_id,
        ) as int].applies(tool_name, source_id),
    decreases rules.len(),
{
    if rules.len() > 0 && !rules[0].applies(tool_name, source_id) {
        lemma_first_applying(rules.skip(1), tool_name, source_id);
        let n = first_applying(rules.skip(1), tool_name, source_id);
        assert forall|j: int| 0 <= j < 1 + n implies !(#[trigger] rules[j]).applies(
            tool_name,
            source_id,
        ) by {
            if j > 0 {
                assert(rules.skip(1)[j - 1] == rules[j]);
            }
        }
        if n < rules.skip(1).len() {
            assert(rules.skip(1)[n as int] == rules[n as int + 1]);
        }
    }
}

impl Governance {
    /// What the rules say of a tool of a source: the first rule that applies
    /// decides, and the default action where none does.
    pub open spec fn decides(self, tool_name: Seq<char>, source_id: Seq<char>) -> MatchResult<
        Seq<char>,
    > {
        let n = first_applying(self.rules@, tool_name, source_id);
        if n < self.rules@.len() {
            self.rules@[n as int].verdict()
        } else {
            MatchResult {
                action: self.defaults.action,
                policy_id: None,
                approval_workflow: None,
                matched_rule: None,
            }
        }
    }

    /// Find the first rule that applies, or return the default action.
    pub fn evaluate(&self, tool_name: &str, source_id: &str) -> (r: MatchResult)
        ensures
            r@ == self.decides(tool_name@, source_id@),
    {
        proof {
            lemma_first_applying(self.rules@, tool_name@, source_id@);
        }
        let ghost first = first_applying(self.rules@, tool_name@, source_id@);
        let mut i: usize = 0;
        while i < self.rules.len()
            invariant
                i <= first,
                first == first_applying(self.rules@, tool_name@, source_id@),
                first <= self.rules@.len(),
                first < self.rules@.len() ==> self.rules@[first as int].applies(
                    tool_name@,
                    source_id@,
                ),
                forall|j: int|
                    0 <= j < first ==> !(#[trigger] self.rules@[j]).applies(tool_name@, source_id@),
            decreases self.rules@.len() - i,
        {
            let rule = &self.rules[i];
            if rule.applies_to(tool_name, source_id) {
                return MatchResult {
                    action: rule.action,
                    policy_id: copy_opt_text(&rule.policy_id),
                    approval_workflow: copy_opt_text(&rule.approval),
                    matched_rule: Some(rule.pattern.clone()),
                };
            }
            i = i + 1;
        }
        MatchResult {
            action: self.defaults.action,
            policy_id: None,
            approval_workflow: None,
            matched_rule: None,
        }
    }
}

/// A copy of an optional string.
pub(crate) fn copy_opt_text(s: &Option<String>) -> (r: Option<String>)
    ensures
        r == *s,
{
    match s {
        Some(t) => Some(t.clone()),
        None => None,
    }
}

} // verus!
