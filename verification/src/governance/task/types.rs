//! Task domain types: principals, requests, approvals, failures and the task
//! itself.
//!
//! `T` holds a text, `L` a list of texts and `J` a JSON value, as in the
//! configuration's error type.

use vstd::prelude::*;
use vstd::string::*;

use crate::config::schema::{copy_opt_text, copy_texts, TimeoutAction};
use crate::governance::task::status::TaskStatus;
use crate::json::{Json, JsonView};
use crate::text::{opt_text, texts};
use crate::time::{Duration, Timestamp};

verus! {

/// Identifier of a task.
pub type TaskId = String;

/// Identifier of a JSON-RPC request.
#[derive(Debug, Clone, PartialEq, Eq)]
pub enum JsonRpcId<T = String> {
    Number(i64),
    String(T),
    Null,
}

/// Identity of the requesting agent or application.
#[derive(Debug, Clone, PartialEq, Eq)]
pub struct Principal<T = String, L = Vec<String>> {
    /// Application or agent name.
    pub app_name: T,
    /// User identifier.
    pub user_id: Option<T>,
    /// Session identifier.
    pub session_id: Option<T>,
    /// Kubernetes namespace.
    pub namespace: T,
    /// Kubernetes service account name.
    pub service_account: T,
    /// RBAC roles.
    pub roles: L,
}

/// A call of a governable MCP method.
#[derive(Debug, Clone)]
pub struct ToolCallRequest<T = String, J = Json> {
    /// MCP method (such as `tools/call`).
    pub method: T,
    /// Name of the tool, resource or prompt.
    pub name: T,
    /// Arguments.
    pub arguments: J,
    /// MCP request ID.
    pub mcp_request_id: JsonRpcId<T>,
}

/// Result of a tool call.
#[derive(Debug, Clone)]
pub struct ToolCallResult<J = Json> {
    /// Content from upstream.
    pub content: J,
    /// Whether the call ended in an error.
    pub is_error: bool,
}

/// Decision made by an approver.
#[derive(Debug, Clone, PartialEq, Eq)]
pub enum ApprovalDecision<T = String> {
    /// The request was approved.
    Approved,
    /// The request was rejected.
    Rejected {
        /// Reason for rejection, if one was given.
        reason: Option<T>,
    },
}

/// Record of an approval decision.
#[derive(Debug, Clone)]
pub struct ApprovalRecord<T = String, J = Json> {
    /// The decision.
    pub decision: ApprovalDecision<T>,
    /// Who made the decision.
    pub decided_by: T,
    /// When the decision was made.
    pub decided_at: Timestamp,
    /// Until when the approval is valid for execution.
    pub approval_valid_until: Timestamp,
    /// Additional data from the approver.
    pub metadata: Option<J>,
}

/// Stage at which a task failed.
#[derive(Debug, Clone, Copy, PartialEq, Eq, Structural)]
pub enum FailureStage {
    /// Inspection before approval.
    PreHitlInspection,
    /// The approval timed out.
    ApprovalTimeout,
    /// The approver rejected the request.
    ApprovalRejected,
    /// The policy changed between approval and execution.
    PolicyDrift,
    /// Inspection after approval.
    PostHitlInspection,
    /// The request was transformed otherwise than expected.
    TransformDrift,
    /// The upstream server failed.
    UpstreamError,
    /// The service is shutting down.
    ServiceShutdown,
    /// The task is in an unexpected state.
    InvalidTaskState,
}

/// Why a task failed.
#[derive(Debug, Clone)]
pub struct FailureInfo<T = String> {
    /// Stage at which the failure occurred.
    pub stage: FailureStage,
    /// Reason for people.
    pub reason: T,
    /// Whether the operation can be tried again.
    pub retriable: bool,
}

/// Record of a status transition for the audit trail.
#[derive(Debug, Clone)]
pub struct TaskTransition<T = String> {
    /// Previous status.
    pub from: TaskStatus,
    /// New status.
    pub to: TaskStatus,
    /// When the transition occurred.
    pub at: Timestamp,
    /// Reason, if one was given.
    pub reason: Option<T>,
}

/// A task: one approval workflow. `H` holds the audit trail.
#[derive(Debug, Clone)]
pub struct Task<T = String, J = Json, L = Vec<String>, H = Vec<TaskTransition>> {
    /// Unique identifier.
    pub id: T,
    /// Request from the agent.
    pub original_request: ToolCallRequest<T, J>,
    /// Request after transformation before approval.
    pub pre_approval_transformed: ToolCallRequest<T, J>,
    /// SHA-256 hash of the transformed request.
    pub request_hash: T,
    /// Identity of the requesting agent.
    pub principal: Principal<T, L>,
    /// When the task was created.
    pub created_at: Timestamp,
    /// Time to live.
    pub ttl: Duration,
    /// When the task expires.
    pub expires_at: Timestamp,
    /// Poll interval that agents are advised to keep.
    pub poll_interval: Duration,
    /// Current status.
    pub status: TaskStatus,
    /// Status message for people.
    pub status_message: Option<T>,
    /// Audit trail of transitions.
    pub transitions: H,
    /// Approval record, once a decision has been made.
    pub approval: Option<ApprovalRecord<T, J>>,
    /// Result, once the call has completed.
    pub result: Option<ToolCallResult<J>>,
    /// Failure, if the task failed.
    pub failure: Option<FailureInfo<T>>,
    /// What to do when the approval times out (fixed when the task is created).
    pub on_timeout: TimeoutAction,
}

/// A principal with its strings taken as character sequences.
pub type PrincipalView = Principal<Seq<char>, Seq<Seq<char>>>;

/// A request with its strings taken as character sequences.
pub type RequestView = ToolCallRequest<Seq<char>, JsonView>;

/// An approval record with its strings taken as character sequences.
pub type ApprovalView = ApprovalRecord<Seq<char>, JsonView>;

/// A task with its strings and vectors taken as sequences.
pub type TaskView = Task<Seq<char>, JsonView, Seq<Seq<char>>, Seq<TaskTransition<Seq<char>>>>;

impl JsonRpcId {
    /// The identifier with its string taken as a character sequence.
    pub open spec fn view(self) -> JsonRpcId<Seq<char>> {
        match self {
            JsonRpcId::Number(n) => JsonRpcId::Number(n),
            JsonRpcId::String(s) => JsonRpcId::String(s@),
            JsonRpcId::Null => JsonRpcId::Null,
        }
    }

    pub(crate) fn copy(&self) -> (r: Self)
        ensures
            r@ == self@,
    {
        match self {
            JsonRpcId::Number(n) => JsonRpcId::Number(*n),
            JsonRpcId::String(s) => JsonRpcId::String(s.clone()),
            JsonRpcId::Null => JsonRpcId::Null,
        }
    }
}

impl Principal {
    /// The principal with its strings taken as character sequences.
    pub open spec fn view(self) -> PrincipalView {
        Principal {
            app_name: self.app_name@,
            user_id: opt_text(self.user_id),
            session_id: opt_text(self.session_id),
            namespace: self.namespace@,
            service_account: self.service_account@,
            roles: texts(self.roles@),
        }
    }

    pub(crate) fn copy(&self) -> (r: Self)
        ensures
            r@ == self@,
    {
        Principal {
            app_name: self.app_name.clone(),
            user_id: copy_opt_text(&self.user_id),
            session_id: copy_opt_text(&self.session_id),
            namespace: self.namespace.clone(),
            service_account: self.service_account.clone(),
            roles: copy_texts(&self.roles),
        }
    }

    /// Creates a principal with an application name only: namespace and service
    /// account are `default`.
    pub fn new(app_name: &str) -> (r: Self)
        ensures
            r@ == (Principal::<Seq<char>, Seq<Seq<char>>> {
                app_name: app_name@,
                user_id: None,
                session_id: None,
                namespace: "default"@,
                service_account: "default"@,
                roles: Seq::empty(),
            }),
    {
        let r = Principal {
            app_name: app_name.to_owned(),
            user_id: None,
            session_id: None,
            namespace: "default".to_owned(),
            service_account: "default".to_owned(),
            roles: Vec::new(),
        };
        assert(texts(r.roles@) =~= Seq::<Seq<char>>::empty());
        r
    }

    /// Creates a principal with full Kubernetes identity.
    pub fn from_policy(
        app_name: &str,
        namespace: &str,
        service_account: &str,
        roles: Vec<String>,
    ) -> (r: Self)
        ensures
            r@ == (Principal::<Seq<char>, Seq<Seq<char>>> {
                app_name: app_name@,
                user_id: None,
                session_id: None,
                namespace: namespace@,
                service_account: service_account@,
                roles: texts(roles@),
            }),
    {
        Principal {
            app_name: app_name.to_owned(),
            user_id: None,
            session_id: None,
            namespace: namespace.to_owned(),
            service_account: service_account.to_owned(),
            roles,
        }
    }

    /// The key for rate limiting: `app`, `app:user`, `app::session` or
    /// `app:user:session`.
    pub fn rate_limit_key(&self) -> (r: String)
        ensures
            r@ == self@.key(),
    {
        match (&self.user_id, &self.session_id) {
            (Some(user), Some(session)) => self.app_name.clone().concat(":").concat(
                user.as_str(),
            ).concat(":").concat(session.as_str()),
            (Some(user), None) => self.app_name.clone().concat(":").concat(user.as_str()),
            (None, Some(session)) => self.app_name.clone().concat("::").concat(session.as_str()),
            (None, None) => self.app_name.clone(),
        }
    }
}

impl Principal<Seq<char>, Seq<Seq<char>>> {
    /// The key for rate limiting.
    pub open spec fn key(self) -> Seq<char> {
        match (self.user_id, self.session_id) {
            (Some(user), Some(session)) => self.app_name + ":"@ + user + ":"@ + session,
            (Some(user), None) => self.app_name + ":"@ + user,
            (None, Some(session)) => self.app_name + "::"@ + session,
            (None, None) => self.app_name,
        }
    }

    /// Whether the parts of the key can be told from what stands between them:
    /// neither application nor user has a colon in its name, and the user of a
    /// session has a name.
    pub open spec fn plain(self) -> bool {
        &&& !self.app_name.contains(':')
        &&& self.user_id matches Some(user) ==> !user.contains(':')
        &&& self.user_id matches Some(user) ==> self.session_id is Some ==> user.len() > 0
    }
}

/// The key for rate limiting, with its separators as characters.
proof fn lemma_key(p: PrincipalView)
    ensures
        p.key() == match (p.user_id, p.session_id) {
            (Some(user), Some(session)) => p.app_name + (seq![':'] + (user + (seq![':']
                + session))),
            (Some(user), None) => p.app_name + (seq![':'] + user),
            (None, Some(session)) => p.app_name + (seq![':'] + (Seq::empty() + (seq![':']
                + session))),
            (None, None) => p.app_name,
        },
{
    reveal_strlit(":");
    reveal_strlit("::");
    assert(":"@ =~= seq![':']);
    assert("::"@ =~= seq![':', ':']);
    match (p.user_id, p.session_id) {
        (Some(user), Some(session)) => {
            assert(p.key() =~= p.app_name + (seq![':'] + (user + (seq![':'] + session))));
        },
        (Some(user), None) => {
            assert(p.key() =~= p.app_name + (seq![':'] + user));
        },
        (None, Some(session)) => {
            assert(p.key() =~= p.app_name + (seq![':'] + (Seq::empty() + (seq![':'] + session))));
        },
        (None, None) => {},
    }
}

/// A text is told apart at its first colon.
proof fn lemma_first_colon(a: Seq<char>, b: Seq<char>, x: Seq<char>, y: Seq<char>)
    requires
        !a.contains(':'),
        !b.contains(':'),
        a + (seq![':'] + x) == b + (seq![':'] + y),
    ensures
        a == b,
        x == y,
{
    let s = a + (seq![':'] + x);
    let t = b + (seq![':'] + y);
    assert(s[a.len() as int] == ':');
    assert(t[b.len() as int] == ':');
    if a.len() < b.len() {
        assert(b[a.len() as int] == t[a.len() as int]);
        assert(b.contains(':'));
    } else if b.len() < a.len() {
        assert(a[b.len() as int] == s[b.len() as int]);
        assert(a.contains(':'));
    }
    assert(a =~= s.take(a.len() as int));
    assert(b =~= t.take(b.len() as int));
    assert(x =~= s.skip(a.len() as int + 1));
    assert(y =~= t.skip(b.len() as int + 1));
}

/// A text without a colon is not one with a colon.
proof fn lemma_no_colon(a: Seq<char>, b: Seq<char>, y: Seq<char>)
    requires
        !a.contains(':'),
    ensures
        a != b + (seq![':'] + y),
{
    let t = b + (seq![':'] + y);
    assert(t[b.len() as int] == ':');
    assert(t.contains(':'));
}

/// The key for rate limiting tells principals apart: two principals share a key
/// exactly if they are the same application, user and session, where the names of
/// applications and users have no colon in them and the users of sessions have
/// names.
pub proof fn law_keys_tell_principals_apart(p: PrincipalView, q: PrincipalView)
    requires
        p.plain(),
        q.plain(),
    ensures
        p.key() == q.key() <==> p.app_name == q.app_name && p.user_id == q.user_id && p.session_id
            == q.session_id,
{
    if p.key() == q.key() {
        lemma_key(p);
        lemma_key(q);
        let none = Seq::<char>::empty();
        let rest_of = |p: PrincipalView|
            match (p.user_id, p.session_id) {
                (Some(user), Some(session)) => user + (seq![':'] + session),
                (Some(user), None) => user,
                (None, Some(session)) => none + (seq![':'] + session),
                (None, None) => none,
            };
        let alone_p = p.user_id is None && p.session_id is None;
        let alone_q = q.user_id is None && q.session_id is None;
        if alone_p && !alone_q {
            lemma_no_colon(p.app_name, q.app_name, rest_of(q));
        } else if alone_q && !alone_p {
            lemma_no_colon(q.app_name, p.app_name, rest_of(p));
        } else if !alone_p {
            lemma_first_colon(p.app_name, q.app_name, rest_of(p), rest_of(q));
            let user_p = if p.user_id is Some { p.user_id->0 } else { none };
            let user_q = if q.user_id is Some { q.user_id->0 } else { none };
            assert(!none.contains(':'));
            match (p.session_id, q.session_id) {
                (Some(s), Some(t)) => {
                    lemma_first_colon(user_p, user_q, s, t);
                },
                (Some(s), None) => {
                    lemma_no_colon(user_q, user_p, s);
                },
                (None, Some(t)) => {
                    lemma_no_colon(user_p, user_q, t);
                },
                (None, None) => {},
            }
        }
    }
}

impl ToolCallRequest {
    /// The request with its strings taken as character sequences.
    pub open spec fn view(self) -> RequestView {
        ToolCallRequest {
            method: self.method@,
            name: self.name@,
            arguments: self.arguments@,
            mcp_request_id: self.mcp_request_id@,
        }
    }

    pub(crate) fn copy(&self) -> (r: Self)
        ensures
            r@ == self@,
    {
        ToolCallRequest {
            method: self.method.clone(),
            name: self.name.clone(),
            arguments: self.arguments.copy(),
            mcp_request_id: self.mcp_request_id.copy(),
        }
    }
}

impl ToolCallResult {
    /// The result with its content taken by its view.
    pub open spec fn view(self) -> ToolCallResult<JsonView> {
        ToolCallResult { content: self.content@, is_error: self.is_error }
    }

    pub(crate) fn copy(&self) -> (r: Self)
        ensures
            r@ == self@,
    {
        ToolCallResult { content: self.content.copy(), is_error: self.is_error }
    }
}

impl ApprovalDecision {
    /// The decision with its string taken as a character sequence.
    pub open spec fn view(self) -> ApprovalDecision<Seq<char>> {
        match self {
            ApprovalDecision::Approved => ApprovalDecision::Approved,
            ApprovalDecision::Rejected { reason } => ApprovalDecision::Rejected {
                reason: opt_text(reason),
            },
        }
    }

    pub(crate) fn copy(&self) -> (r: Self)
        ensures
            r@ == self@,
    {
        match self {
            ApprovalDecision::Approved => ApprovalDecision::Approved,
            ApprovalDecision::Rejected { reason } => ApprovalDecision::Rejected {
                reason: copy_opt_text(reason),
            },
        }
    }
}

/// The view of an optional JSON value.
pub open spec fn opt_json(v: Option<Json>) -> Option<JsonView> {
    match v {
        Some(j) => Some(j@),
        None => None,
    }
}

impl ApprovalRecord {
    /// The record with its strings taken as character sequences.
    pub open spec fn view(self) -> ApprovalView {
        ApprovalRecord {
            decision: self.decision@,
            decided_by: self.decided_by@,
            decided_at: self.decided_at,
            approval_valid_until: self.approval_valid_until,
            metadata: opt_json(self.metadata),
        }
    }

    pub(crate) fn copy(&self) -> (r: Self)
        ensures
            r@ == self@,
    {
        ApprovalRecord {
            decision: self.decision.copy(),
            decided_by: self.decided_by.clone(),
            decided_at: self.decided_at,
            approval_valid_until: self.approval_valid_until,
            metadata: match &self.metadata {
                Some(j) => Some(j.copy()),
                None => None,
            },
        }
    }
}

impl FailureInfo {
    /// The failure with its string taken as a character sequence.
    pub open spec fn view(self) -> FailureInfo<Seq<char>> {
        FailureInfo { stage: self.stage, reason: self.reason@, retriable: self.retriable }
    }

    pub(crate) fn copy(&self) -> (r: Self)
        ensures
            r@ == self@,
    {
        FailureInfo {
            stage: self.stage,
            reason: self.reason.clone(),
            retriable: self.retriable,
        }
    }
}

impl TaskTransition {
    /// The transition with its string taken as a character sequence.
    pub open spec fn view(self) -> TaskTransition<Seq<char>> {
        TaskTransition { from: self.from, to: self.to, at: self.at, reason: opt_text(self.reason) }
    }

    fn copy(&self) -> (r: Self)
        ensures
            r@ == self@,
    {
        TaskTransition {
            from: self.from,
            to: self.to,
            at: self.at,
            reason: copy_opt_text(&self.reason),
        }
    }
}

/// The views of an audit trail.
pub open spec fn trail(transitions: Seq<TaskTransition>) -> Seq<TaskTransition<Seq<char>>> {
    Seq::new(transitions.len(), |i: int| transitions[i]@)
}

fn copy_trail(transitions: &Vec<TaskTransition>) -> (r: Vec<TaskTransition>)
    ensures
        trail(r@) == trail(transitions@),
{
    let mut out: Vec<TaskTransition> = Vec::new();
    let mut i: usize = 0;
    while i < transitions.len()
        invariant
            i <= transitions@.len(),
            out@.len() == i,
            forall|j: int| 0 <= j < i ==> (#[trigger] out@[j])@ == transitions@[j]@,
        decreases transitions@.len() - i,
    {
        out.push(transitions[i].copy());
        i = i + 1;
    }
    assert(trail(out@) =~= trail(transitions@));
    out
}

impl Task {
    /// The task with its strings and vectors taken as sequences.
    pub open spec fn view(&self) -> TaskView {
        Task {
            id: self.id@,
            original_request: self.original_request@,
            pre_approval_transformed: self.pre_approval_transformed@,
            request_hash: self.request_hash@,
            principal: self.principal@,
            created_at: self.created_at,
            ttl: self.ttl,
            expires_at: self.expires_at,
            poll_interval: self.poll_interval,
            status: self.status,
            status_message: opt_text(self.status_message),
            transitions: trail(self.transitions@),
            approval: match self.approval {
                Some(a) => Some(a@),
                None => None,
            },
            result: match self.result {
                Some(r) => Some(r@),
                None => None,
            },
            failure: match self.failure {
                Some(f) => Some(f@),
                None => None,
            },
            on_timeout: self.on_timeout,
        }
    }

    /// A task that is the same.
    pub fn copy(&self) -> (r: Self)
        ensures
            r@ == self@,
    {
        Task {
            id: self.id.clone(),
            original_request: self.original_request.copy(),
            pre_approval_transformed: self.pre_approval_transformed.copy(),
            request_hash: self.request_hash.clone(),
            principal: self.principal.copy(),
            created_at: self.created_at,
            ttl: self.ttl,
            expires_at: self.expires_at,
            poll_interval: self.poll_interval,
            status: self.status,
            status_message: copy_opt_text(&self.status_message),
            transitions: copy_trail(&self.transitions),
            approval: match &self.approval {
                Some(a) => Some(a.copy()),
                None => None,
            },
            result: match &self.result {
                Some(r) => Some(r.copy()),
                None => None,
            },
            failure: match &self.failure {
                Some(f) => Some(f.copy()),
                None => None,
            },
            on_timeout: self.on_timeout,
        }
    }
}

} // verus!
