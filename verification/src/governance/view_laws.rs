//! What is said of a value by its view is said of the value: views leave nothing out.

use vstd::prelude::*;

use crate::governance::api::{GovernanceEvaluateResponse, TaskStatusResponse};
use crate::governance::approval::types::ApprovalRequest;
use crate::governance::engine::{ApprovalStartResult, Execution};
use crate::governance::evaluator::{CedarRequest, CedarResource, EvalTrace};
use crate::governance::task::types::{
    trail, ApprovalRecord, FailureInfo, Principal, Task, TaskTransition, ToolCallRequest,
    ToolCallResult,
};
use crate::text::{opt_text, texts};

verus! {

/// Lists of strings with the same views hold the same strings.
pub proof fn law_texts_tell_strings_apart(a: Seq<String>, b: Seq<String>, i: int)
    requires
        texts(a) == texts(b),
    ensures
        a.len() == b.len(),
        0 <= i < a.len() ==> a[i]@ == b[i]@,
{
    assert(texts(a).len() == a.len() && texts(b).len() == b.len());
    if 0 <= i < a.len() {
        assert(texts(a)[i] == texts(b)[i]);
    }
}

/// Principals with the same view are the same in every part.
pub proof fn law_views_tell_principals_apart(a: Principal, b: Principal)
    requires
        a@ == b@,
    ensures
        a.app_name@ == b.app_name@,
        opt_text(a.user_id) == opt_text(b.user_id),
        opt_text(a.session_id) == opt_text(b.session_id),
        a.namespace@ == b.namespace@,
        a.service_account@ == b.service_account@,
        texts(a.roles@) == texts(b.roles@),
{
}

/// Calls, results, approvals, failures and transitions with the same view are the
/// same in every part.
pub proof fn law_views_tell_records_apart(
    calls: (ToolCallRequest, ToolCallRequest),
    results: (ToolCallResult, ToolCallResult),
    approvals: (ApprovalRecord, ApprovalRecord),
    failures: (FailureInfo, FailureInfo),
    steps: (TaskTransition, TaskTransition),
)
    ensures
        calls.0@ == calls.1@ ==> calls.0.method@ == calls.1.method@ && calls.0.name@
            == calls.1.name@ && calls.0.arguments@ == calls.1.arguments@
            && calls.0.mcp_request_id@ == calls.1.mcp_request_id@,
        results.0@ == results.1@ ==> results.0.content@ == results.1.content@
            && results.0.is_error == results.1.is_error,
        approvals.0@ == approvals.1@ ==> approvals.0.decision@ == approvals.1.decision@
            && approvals.0.decided_by@ == approvals.1.decided_by@ && approvals.0.decided_at
            == approvals.1.decided_at && approvals.0.approval_valid_until
            == approvals.1.approval_valid_until && (approvals.0.metadata is Some
            <==> approvals.1.metadata is Some) && (approvals.0.metadata is Some
            ==> approvals.0.metadata->0@ == approvals.1.metadata->0@),
        failures.0@ == failures.1@ ==> failures.0.stage == failures.1.stage && failures.0.reason@
            == failures.1.reason@ && failures.0.retriable == failures.1.retriable,
        steps.0@ == steps.1@ ==> steps.0.from == steps.1.from && steps.0.to == steps.1.to
            && steps.0.at == steps.1.at && opt_text(steps.0.reason) == opt_text(steps.1.reason),
{
}

/// Tasks with the same view are the same in every part.
pub proof fn law_views_tell_tasks_apart(a: Task, b: Task)
    requires
        a@ == b@,
    ensures
        a.id@ == b.id@,
        a.original_request@ == b.original_request@,
        a.pre_approval_transformed@ == b.pre_approval_transformed@,
        a.request_hash@ == b.request_hash@,
        a.principal@ == b.principal@,
        a.created_at == b.created_at,
        a.ttl == b.ttl,
        a.expires_at == b.expires_at,
        a.poll_interval == b.poll_interval,
        a.status == b.status,
        opt_text(a.status_message) == opt_text(b.status_message),
        trail(a.transitions@) == trail(b.transitions@),
        a.approval is Some <==> b.approval is Some,
        a.approval is Some ==> a.approval->0@ == b.approval->0@,
        a.result is Some <==> b.result is Some,
        a.result is Some ==> a.result->0@ == b.result->0@,
        a.failure is Some <==> b.failure is Some,
        a.failure is Some ==> a.failure->0@ == b.failure->0@,
        a.on_timeout == b.on_timeout,
{
}

/// What is posted for approval, what the policy engine is asked, and what a transport
/// is told are the same in every part where their views are.
pub proof fn law_views_tell_messages_apart(
    posts: (ApprovalRequest, ApprovalRequest),
    questions: (CedarRequest, CedarRequest),
    responses: (GovernanceEvaluateResponse, GovernanceEvaluateResponse),
    traces: (EvalTrace, EvalTrace),
    states: (TaskStatusResponse, TaskStatusResponse),
)
    ensures
        posts.0@ == posts.1@ ==> {
            &&& posts.0.task_id@ == posts.1.task_id@
            &&& posts.0.tool_name@ == posts.1.tool_name@
            &&& posts.0.tool_arguments@ == posts.1.tool_arguments@
            &&& posts.0.principal@ == posts.1.principal@
            &&& posts.0.expires_at == posts.1.expires_at
            &&& posts.0.created_at == posts.1.created_at
            &&& posts.0.correlation_id@ == posts.1.correlation_id@
            &&& texts(posts.0.redact_fields@) == texts(posts.1.redact_fields@)
        },
        questions.0@ == questions.1@ ==> {
            &&& questions.0.app_name@ == questions.1.app_name@
            &&& questions.0.namespace@ == questions.1.namespace@
            &&& questions.0.service_account@ == questions.1.service_account@
            &&& texts(questions.0.roles@) == texts(questions.1.roles@)
            &&& questions.0.policy_id@ == questions.1.policy_id@
            &&& questions.0.source_id@ == questions.1.source_id@
            &&& questions.0.time == questions.1.time
            &&& match (questions.0.resource, questions.1.resource) {
                (
                    CedarResource::ToolCall { name: n, server: s, arguments: x },
                    CedarResource::ToolCall { name: m, server: t, arguments: y },
                ) => n@ == m@ && s@ == t@ && x@ == y@,
                (
                    CedarResource::McpMethod { method: n, server: s },
                    CedarResource::McpMethod { method: m, server: t },
                ) => n@ == m@ && s@ == t@,
                _ => false,
            }
        },
        responses.0@ == responses.1@ ==> {
            &&& responses.0.decision == responses.1.decision
            &&& opt_text(responses.0.task_id) == opt_text(responses.1.task_id)
            &&& opt_text(responses.0.policy_id) == opt_text(responses.1.policy_id)
            &&& opt_text(responses.0.reason) == opt_text(responses.1.reason)
            &&& responses.0.poll_interval_ms == responses.1.poll_interval_ms
            &&& responses.0.timeout_secs == responses.1.timeout_secs
            &&& responses.0.shutdown == responses.1.shutdown
            &&& responses.0.deny_source == responses.1.deny_source
        },
        traces.0@ == traces.1@ ==> {
            &&& opt_text(traces.0.gate1) == opt_text(traces.1.gate1)
            &&& opt_text(traces.0.gate2) == opt_text(traces.1.gate2)
            &&& opt_text(traces.0.gate2_rule_id) == opt_text(traces.1.gate2_rule_id)
            &&& opt_text(traces.0.gate3) == opt_text(traces.1.gate3)
            &&& opt_text(traces.0.gate3_policy_id) == opt_text(traces.1.gate3_policy_id)
            &&& traces.0.gate3_duration == traces.1.gate3_duration
            &&& opt_text(traces.0.gate4) == opt_text(traces.1.gate4)
        },
        states.0@ == states.1@ ==> {
            &&& states.0.task_id@ == states.1.task_id@
            &&& states.0.status == states.1.status
            &&& states.0.decision == states.1.decision
            &&& opt_text(states.0.reason) == opt_text(states.1.reason)
        },
{
}

/// An approval that was started and a call that is handed out are the same in every
/// part where their views are.
pub proof fn law_views_tell_steps_apart(
    starts: (ApprovalStartResult, ApprovalStartResult),
    executions: (Execution, Execution),
)
    ensures
        starts.0@ == starts.1@ ==> starts.0.task_id@ == starts.1.task_id@ && starts.0.status
            == starts.1.status && starts.0.poll_interval == starts.1.poll_interval,
        executions.0@ == executions.1@ ==> executions.0.task@ == executions.1.task@
            && executions.0.approval@ == executions.1.approval@ && executions.0.late
            == executions.1.late,
{
}

} // verus!
