//! The four gates, independent of any transport.
//!
//! Gate 1 is visibility, gate 2 the governance rules, gate 3 the Cedar policy
//! and gate 4 the approval workflow. What has to be asked outside (the policy
//! engine, the approval engine, the scheduler) is handed out as a step, and the
//! answer is handed back in.

use vstd::prelude::*;
use vstd::string::*;

use crate::config::compile::source_position;
use crate::config::error::quoted;
use crate::config::schema::{copy_texts, Action, Config, MatchResult};
use crate::governance::api::{
    GovernanceDecision, GovernanceEvaluateRequest, GovernanceEvaluateResponse, MessageType,
};
use crate::governance::task::types::{
    JsonRpcId, Principal, PrincipalView, RequestView, ToolCallRequest,
};
use crate::json::{lemma_member_views, member_views, Json, JsonView};
use crate::text::{opt_text, same_text, texts};
use crate::time::{Duration, Timestamp};
use crate::StreamDirection;

verus! {

/// Which gate denied a message.
#[derive(Debug, Clone, Copy, PartialEq, Eq, Structural)]
pub enum DenySource {
    /// Gate 1.
    Visibility,
    /// Gate 2.
    GovernanceRule,
    /// Gate 3.
    CedarPolicy,
}

/// What happened at each gate. `T` holds a text.
#[derive(Debug)]
pub struct EvalTrace<T = String> {
    /// Gate 1: `pass` or `block`.
    pub gate1: Option<T>,
    /// Gate 2: the name of the action.
    pub gate2: Option<T>,
    /// Pattern of the rule that matched at gate 2.
    pub gate2_rule_id: Option<T>,
    /// Gate 3: `allow` or `deny`.
    pub gate3: Option<T>,
    /// Cedar policy ID that was evaluated.
    pub gate3_policy_id: Option<T>,
    /// How long the Cedar evaluation took.
    pub gate3_duration: Option<Duration>,
    /// Gate 4: `started` if an approval was started.
    pub gate4: Option<T>,
}

impl EvalTrace {
    /// The trace with its strings taken as character sequences.
    pub open spec fn view(self) -> EvalTrace<Seq<char>> {
        EvalTrace {
            gate1: opt_text(self.gate1),
            gate2: opt_text(self.gate2),
            gate2_rule_id: opt_text(self.gate2_rule_id),
            gate3: opt_text(self.gate3),
            gate3_policy_id: opt_text(self.gate3_policy_id),
            gate3_duration: self.gate3_duration,
            gate4: opt_text(self.gate4),
        }
    }
}

/// A trace in which no gate has been passed.
pub open spec fn empty_trace() -> EvalTrace<Seq<char>> {
    EvalTrace {
        gate1: None,
        gate2: None,
        gate2_rule_id: None,
        gate3: None,
        gate3_policy_id: None,
        gate3_duration: None,
        gate4: None,
    }
}

impl Default for EvalTrace {
    fn default() -> (r: Self)
        ensures
            r@ == empty_trace(),
    {
        EvalTrace {
            gate1: None,
            gate2: None,
            gate2_rule_id: None,
            gate3: None,
            gate3_policy_id: None,
            gate3_duration: None,
            gate4: None,
        }
    }
}

/// Whether a method has a resource that is governed.
pub open spec fn governed(method: Seq<char>) -> bool {
    method == "tools/call"@ || method == "resources/read"@ || method == "resources/subscribe"@
        || method == "prompts/get"@
}

/// Check if a JSON-RPC method goes through the gates.
pub fn method_requires_gates(method: &str) -> (r: bool)
    ensures
        r == governed(method@),
{
    same_text(method, "tools/call") || same_text(method, "resources/read") || same_text(
        method,
        "resources/subscribe",
    ) || same_text(method, "prompts/get")
}

/// The text of a member that is a string.
pub open spec fn text_member(value: JsonView, key: Seq<char>) -> Option<Seq<char>> {
    match value.member(key) {
        Some(JsonView::String(s)) => Some(s),
        _ => None,
    }
}

/// The four governed methods are four.
pub proof fn lemma_methods_differ()
    ensures
        "tools/call"@ != "prompts/get"@,
        "tools/call"@ != "resources/read"@,
        "tools/call"@ != "resources/subscribe"@,
        "prompts/get"@ != "resources/read"@,
        "prompts/get"@ != "resources/subscribe"@,
        "resources/read"@ != "resources/subscribe"@,
{
    reveal_strlit("tools/call");
    reveal_strlit("prompts/get");
    reveal_strlit("resources/read");
    reveal_strlit("resources/subscribe");
    assert("tools/call"@.len() == 10);
    assert("prompts/get"@.len() == 11);
    assert("resources/read"@.len() == 14);
    assert("resources/subscribe"@.len() == 19);
}

/// The name of the governed resource: the tool's or prompt's name, or the
/// resource's URI.
pub open spec fn resource_name(method: Seq<char>, params: Option<JsonView>) -> Option<Seq<char>> {
    match params {
        Some(p) => if method == "tools/call"@ || method == "prompts/get"@ {
            text_member(p, "name"@)
        } else if method == "resources/read"@ || method == "resources/subscribe"@ {
            text_member(p, "uri"@)
        } else {
            None
        },
        None => None,
    }
}

/// The view of an optional reference to JSON.
pub open spec fn opt_json_ref(v: Option<&Json>) -> Option<JsonView> {
    match v {
        Some(j) => Some(j@),
        None => None,
    }
}

pub(crate) fn text_of_member(value: &Json, key: &str) -> (r: Option<String>)
    ensures
        opt_text(r) == text_member(value@, key@),
{
    match value.get(key) {
        Some(v) => match v.as_str() {
            Some(s) => Some(s.to_owned()),
            None => None,
        },
        None => None,
    }
}

/// Extract the name of the governed resource from the parameters.
pub fn extract_resource_name(method: &str, params: Option<&Json>) -> (r: Option<String>)
    ensures
        opt_text(r) == resource_name(method@, opt_json_ref(params)),
        params matches Some(p) ==> {
            &&& method@ == "tools/call"@ || method@ == "prompts/get"@ ==> opt_text(r) == match p@.member(
                "name"@,
            ) {
                Some(JsonView::String(s)) => Some(s),
                _ => None,
            }
            &&& method@ == "resources/read"@ || method@ == "resources/subscribe"@ ==> opt_text(r)
                == match p@.member("uri"@) {
                Some(JsonView::String(s)) => Some(s),
                _ => None,
            }
        },
        params is None ==> r is None,
{
    proof {
        lemma_methods_differ();
    }
    let params = match params {
        Some(p) => p,
        None => {
            return None;
        },
    };
    if same_text(method, "tools/call") || same_text(method, "prompts/get") {
        text_of_member(params, "name")
    } else if same_text(method, "resources/read") || same_text(method, "resources/subscribe") {
        text_of_member(params, "uri")
    } else {
        None
    }
}

/// The arguments in the parameters; an empty object where there are none.
pub open spec fn arguments_in(params: Option<JsonView>) -> JsonView {
    match params {
        Some(p) => match p.member("arguments"@) {
            Some(a) => a,
            None => JsonView::Object(Seq::empty()),
        },
        None => JsonView::Object(Seq::empty()),
    }
}

/// Extract the arguments from the parameters.
pub fn extract_arguments(params: Option<&Json>) -> (r: Json)
    ensures
        r@ == arguments_in(opt_json_ref(params)),
{
    if let Some(p) = params {
        if let Some(a) = p.get("arguments") {
            return a.copy();
        }
    }
    let empty: Vec<(String, Json)> = Vec::new();
    proof {
        lemma_member_views(empty@);
        assert(member_views(empty@) =~= Seq::<(Seq<char>, JsonView)>::empty());
    }
    Json::Object(empty)
}

/// A response that forwards the message.
pub open spec fn forwarded(reason: Option<Seq<char>>) -> GovernanceEvaluateResponse<Seq<char>> {
    GovernanceEvaluateResponse {
        decision: GovernanceDecision::Forward,
        task_id: None,
        policy_id: None,
        reason,
        poll_interval_ms: None,
        timeout_secs: None,
        shutdown: false,
        deny_source: None,
    }
}

/// A response that denies the message.
pub open spec fn denied(
    reason: Seq<char>,
    policy_id: Option<Seq<char>>,
    source: DenySource,
) -> GovernanceEvaluateResponse<Seq<char>> {
    GovernanceEvaluateResponse {
        decision: GovernanceDecision::Deny,
        task_id: None,
        policy_id,
        reason: Some(reason),
        poll_interval_ms: None,
        timeout_secs: None,
        shutdown: false,
        deny_source: Some(source),
    }
}

/// A response that asks to wait for an approval.
pub open spec fn pending(
    task_id: Seq<char>,
    policy_id: Option<Seq<char>>,
    poll_interval_ms: u64,
    timeout_secs: Option<u64>,
) -> GovernanceEvaluateResponse<Seq<char>> {
    GovernanceEvaluateResponse {
        decision: GovernanceDecision::PendingApproval,
        task_id: Some(task_id),
        policy_id,
        reason: None,
        poll_interval_ms: Some(poll_interval_ms),
        timeout_secs,
        shutdown: false,
        deny_source: None,
    }
}

pub(crate) fn forward(reason: Option<String>) -> (r: GovernanceEvaluateResponse)
    ensures
        r@ == forwarded(opt_text(reason)),
{
    GovernanceEvaluateResponse {
        decision: GovernanceDecision::Forward,
        task_id: None,
        policy_id: None,
        reason,
        poll_interval_ms: None,
        timeout_secs: None,
        shutdown: false,
        deny_source: None,
    }
}

pub(crate) fn deny(reason: String, policy_id: Option<String>, source: DenySource) -> (r:
    GovernanceEvaluateResponse)
    ensures
        r@ == denied(reason@, opt_text(policy_id), source),
{
    GovernanceEvaluateResponse {
        decision: GovernanceDecision::Deny,
        task_id: None,
        policy_id,
        reason: Some(reason),
        poll_interval_ms: None,
        timeout_secs: None,
        shutdown: false,
        deny_source: Some(source),
    }
}

/// What the first two gates say of a message. `T` holds a text.
#[derive(Debug)]
pub enum GateVerdict<T = String> {
    /// The message is answered.
    Answer(GovernanceEvaluateResponse<T>),
    /// The message goes on to gate 3.
    Policy {
        /// Name of the resource.
        name: T,
        /// Cedar policy ID.
        policy_id: Option<T>,
    },
    /// The message goes on to gate 4.
    Approve {
        /// Name of the resource.
        name: T,
        /// Cedar policy ID.
        policy_id: Option<T>,
    },
}

impl GateVerdict {
    /// The verdict with its strings taken as character sequences.
    pub open spec fn view(self) -> GateVerdict<Seq<char>> {
        match self {
            GateVerdict::Answer(r) => GateVerdict::Answer(r@),
            GateVerdict::Policy { name, policy_id } => GateVerdict::Policy {
                name: name@,
                policy_id: opt_text(policy_id),
            },
            GateVerdict::Approve { name, policy_id } => GateVerdict::Approve {
                name: name@,
                policy_id: opt_text(policy_id),
            },
        }
    }
}

/// The resource that a message is about, if the message goes through the gates:
/// it is a request from the agent to the server, its method is governed, and its
/// parameters name a resource.
pub open spec fn governed_resource(req: GovernanceEvaluateRequest) -> Option<Seq<char>> {
    if req.message_type != MessageType::Request || req.direction != StreamDirection::AgentToServer
        || !governed(req.method@) {
        None
    } else {
        resource_name(
            req.method@,
            match req.params {
                Some(p) => Some(p@),
                None => None,
            },
        )
    }
}

/// Whether gate 1 lets a resource of a source pass: the source is configured and
/// shows the resource.
pub open spec fn visible(config: Config, source_id: Seq<char>, name: Seq<char>) -> bool {
    let n = source_position(config.sources@, source_id);
    n < config.sources@.len() && config.sources@[n as int].exposure().shows(name)
}

/// The reason with which gate 1 denies.
pub open spec fn hidden_reason(config: Config, source_id: Seq<char>, name: Seq<char>) -> Seq<char> {
    if source_position(config.sources@, source_id) < config.sources@.len() {
        "Resource '"@ + name + "' not exposed on source '"@ + source_id + "'"@
    } else {
        "Source '"@ + source_id + "' not found in configuration"@
    }
}

/// What gate 2 says of a resource.
pub open spec fn ruled(name: Seq<char>, matched: MatchResult<Seq<char>>) -> GateVerdict<Seq<char>> {
    match matched.action {
        Action::Forward => GateVerdict::Answer(forwarded(None)),
        Action::Deny => GateVerdict::Answer(
            denied(
                "Denied by governance rule for '"@ + name + "'"@,
                matched.policy_id,
                DenySource::GovernanceRule,
            ),
        ),
        Action::Policy => GateVerdict::Policy { name, policy_id: matched.policy_id },
        Action::Approve => GateVerdict::Approve { name, policy_id: matched.policy_id },
    }
}

/// The verdict of the first two gates, and the trace of it.
pub open spec fn gated(config: Config, req: GovernanceEvaluateRequest) -> (
    GateVerdict<Seq<char>>,
    EvalTrace<Seq<char>>,
) {
    match governed_resource(req) {
        None => (GateVerdict::Answer(forwarded(None)), empty_trace()),
        Some(name) => if !visible(config, req.server_id@, name) {
            (
                GateVerdict::Answer(
                    denied(
                        hidden_reason(config, req.server_id@, name),
                        None,
                        DenySource::Visibility,
                    ),
                ),
                EvalTrace { gate1: Some("block"@), ..empty_trace() },
            )
        } else {
            let matched = config.governance.decides(name, req.server_id@);
            (
                ruled(name, matched),
                EvalTrace {
                    gate1: Some("pass"@),
                    gate2: Some(matched.action.name()),
                    gate2_rule_id: matched.matched_rule,
                    ..empty_trace()
                },
            )
        },
    }
}

/// Puts a message through the first two gates.
pub fn pass_gates(config: &Config, req: &GovernanceEvaluateRequest) -> (r: (GateVerdict, EvalTrace))
    ensures
        (r.0@, r.1@) == gated(*config, *req),
{
    let mut trace = EvalTrace::default();
    if req.message_type != MessageType::Request || req.direction != StreamDirection::AgentToServer {
        return (GateVerdict::Answer(forward(None)), trace);
    }
    if !method_requires_gates(req.method.as_str()) {
        return (GateVerdict::Answer(forward(None)), trace);
    }
    let name = match extract_resource_name(req.method.as_str(), req.params.as_ref()) {
        Some(name) => name,
        None => {
            return (GateVerdict::Answer(forward(None)), trace);
        },
    };
    match config.get_source(req.server_id.as_str()) {
        Some(source) => {
            if !source.expose().is_visible(name.as_str()) {
                trace.gate1 = Some("block".to_owned());
                let reason = quoted(
                    "Resource '",
                    name.as_str(),
                    "' not exposed on source '",
                ).concat(req.server_id.as_str()).concat("'");
                return (
                    GateVerdict::Answer(deny(reason, None, DenySource::Visibility)),
                    trace,
                );
            }
        },
        None => {
            trace.gate1 = Some("block".to_owned());
            let reason = quoted(
                "Source '",
                req.server_id.as_str(),
                "' not found in configuration",
            );
            return (GateVerdict::Answer(deny(reason, None, DenySource::Visibility)), trace);
        },
    }
    trace.gate1 = Some("pass".to_owned());
    let matched = config.governance.evaluate(name.as_str(), req.server_id.as_str());
    trace.gate2 = Some(matched.action.to_text());
    trace.gate2_rule_id = matched.matched_rule;
    match matched.action {
        Action::Forward => (GateVerdict::Answer(forward(None)), trace),
        Action::Deny => {
            let reason = quoted("Denied by governance rule for '", name.as_str(), "'");
            (
                GateVerdict::Answer(deny(reason, matched.policy_id, DenySource::GovernanceRule)),
                trace,
            )
        },
        Action::Policy => (GateVerdict::Policy { name, policy_id: matched.policy_id }, trace),
        Action::Approve => (GateVerdict::Approve { name, policy_id: matched.policy_id }, trace),
    }
}

/// The resource in a Cedar request.
#[derive(Debug)]
pub enum CedarResource<T = String, J = Json> {
    /// A tool call.
    ToolCall { name: T, server: T, arguments: J },
    /// Another MCP method.
    McpMethod { method: T, server: T },
}

/// What is asked of the Cedar engine.
#[derive(Debug)]
pub struct CedarRequest<T = String, J = Json, L = Vec<String>> {
    /// Application or agent name.
    pub app_name: T,
    /// Kubernetes namespace.
    pub namespace: T,
    /// Kubernetes service account.
    pub service_account: T,
    /// RBAC roles.
    pub roles: L,
    /// The resource.
    pub resource: CedarResource<T, J>,
    /// Cedar policy ID.
    pub policy_id: T,
    /// The source.
    pub source_id: T,
    /// When the request is made.
    pub time: Timestamp,
}

/// What the Cedar engine answers. `T` holds a text.
#[derive(Debug)]
pub enum CedarDecision<T = String> {
    /// The request is permitted.
    Permit,
    /// The request is forbidden.
    Forbid { reason: T },
}

/// A Cedar request with its strings taken as character sequences.
pub type CedarRequestView = CedarRequest<Seq<char>, JsonView, Seq<Seq<char>>>;

impl CedarResource {
    /// The resource with its strings taken as character sequences.
    pub open spec fn view(self) -> CedarResource<Seq<char>, JsonView> {
        match self {
            CedarResource::ToolCall { name, server, arguments } => CedarResource::ToolCall {
                name: name@,
                server: server@,
                arguments: arguments@,
            },
            CedarResource::McpMethod { method, server } => CedarResource::McpMethod {
                method: method@,
                server: server@,
            },
        }
    }
}

impl CedarRequest {
    /// The request with its strings taken as character sequences.
    pub open spec fn view(self) -> CedarRequestView {
        CedarRequest {
            app_name: self.app_name@,
            namespace: self.namespace@,
            service_account: self.service_account@,
            roles: texts(self.roles@),
            resource: self.resource@,
            policy_id: self.policy_id@,
            source_id: self.source_id@,
            time: self.time,
        }
    }
}

impl CedarDecision {
    /// The decision with its string taken as a character sequence.
    pub open spec fn view(self) -> CedarDecision<Seq<char>> {
        match self {
            CedarDecision::Permit => CedarDecision::Permit,
            CedarDecision::Forbid { reason } => CedarDecision::Forbid { reason: reason@ },
        }
    }
}

/// The view of a message's parameters.
pub open spec fn params_view(req: GovernanceEvaluateRequest) -> Option<JsonView> {
    match req.params {
        Some(p) => Some(p@),
        None => None,
    }
}

/// The policy ID that is evaluated: the rule's, or `default`.
pub open spec fn effective_policy(policy_id: Option<Seq<char>>) -> Seq<char> {
    match policy_id {
        Some(id) => id,
        None => "default"@,
    }
}

/// What is asked of the Cedar engine for a message.
pub open spec fn cedar_question(
    req: GovernanceEvaluateRequest,
    name: Seq<char>,
    policy_id: Seq<char>,
    principal: PrincipalView,
    now: Timestamp,
) -> CedarRequestView {
    CedarRequest {
        app_name: principal.app_name,
        namespace: principal.namespace,
        service_account: principal.service_account,
        roles: principal.roles,
        resource: if req.method@ == "tools/call"@ {
            CedarResource::ToolCall {
                name,
                server: req.server_id@,
                arguments: arguments_in(params_view(req)),
            }
        } else {
            CedarResource::McpMethod { method: req.method@, server: req.server_id@ }
        },
        policy_id,
        source_id: req.server_id@,
        time: now,
    }
}

/// Makes the request for the Cedar engine.
pub fn cedar_request(
    req: &GovernanceEvaluateRequest,
    name: &String,
    policy_id: &String,
    principal: &Principal,
    now: Timestamp,
) -> (r: CedarRequest)
    ensures
        r@ == cedar_question(*req, name@, policy_id@, principal@, now),
        r.app_name@ == principal.app_name@,
        r.namespace@ == principal.namespace@,
        r.service_account@ == principal.service_account@,
        r.roles@ == principal.roles@,
        r.policy_id@ == policy_id@,
        r.source_id@ == req.server_id@,
        r.time == now,
{
    let resource = if same_text(req.method.as_str(), "tools/call") {
        CedarResource::ToolCall {
            name: name.clone(),
            server: req.server_id.clone(),
            arguments: extract_arguments(req.params.as_ref()),
        }
    } else {
        CedarResource::McpMethod { method: req.method.clone(), server: req.server_id.clone() }
    };
    CedarRequest {
        app_name: principal.app_name.clone(),
        namespace: principal.namespace.clone(),
        service_account: principal.service_account.clone(),
        roles: copy_texts(&principal.roles),
        resource,
        policy_id: policy_id.clone(),
        source_id: req.server_id.clone(),
        time: now,
    }
}

/// The tool call that an approval is asked for.
pub open spec fn call_for(req: GovernanceEvaluateRequest, name: Seq<char>) -> RequestView {
    ToolCallRequest {
        method: req.method@,
        name,
        arguments: arguments_in(params_view(req)),
        mcp_request_id: match req.id {
            Some(id) => id@,
            None => JsonRpcId::Null,
        },
    }
}

/// Makes the tool call that an approval is asked for.
pub(crate) fn tool_call(req: &GovernanceEvaluateRequest, name: &String) -> (r: ToolCallRequest)
    ensures
        r@ == call_for(*req, name@),
{
    ToolCallRequest {
        method: req.method.clone(),
        name: name.clone(),
        arguments: extract_arguments(req.params.as_ref()),
        mcp_request_id: match &req.id {
            Some(id) => id.copy(),
            None => JsonRpcId::Null,
        },
    }
}

} // verus!
