//! What each gate is asked, and what it says, of every message.

use vstd::prelude::*;

use crate::config::compile::lemma_source_position;
use crate::config::schema::{Action, Config, TimeoutAction};
use crate::governance::api::{GovernanceDecision, GovernanceEvaluateRequest, MessageType};
use crate::governance::engine::{ApprovalEngineError, ApprovalStartResult};
use crate::governance::evaluation::{
    after_engine, after_submission, EvaluationView, GovernanceEvaluator, Pause,
};
use crate::governance::evaluator::{
    cedar_question, governed_resource, lemma_methods_differ, visible, CedarDecision, DenySource,
};
use crate::governance::message_laws::{lemma_part, lemma_part_of_front};
use crate::governance::task::helpers::too_deep;
use crate::governance::task::status::TaskStatus;
use crate::governance::task::store::{pending_in, pending_of, TaskStoreConfig, Tasks};
use crate::governance::task::types::{JsonRpcId, Principal, PrincipalView, RequestView};
use crate::json::JsonView;
use crate::profile::Profile;
use crate::text::{has_part, texts};
use crate::time::{Duration, Timestamp};
use crate::StreamDirection;

verus! {

/// Whether a message is a request from the agent to the server that names a
/// resource: a tool or a prompt by its name, a resource to read or to subscribe
/// to by its URI.
pub open spec fn asks_for(req: GovernanceEvaluateRequest, name: Seq<char>) -> bool {
    &&& req.message_type == MessageType::Request
    &&& req.direction == StreamDirection::AgentToServer
    &&& req.params is Some
    &&& {
        ||| req.method@ == "tools/call"@ && req.params->0@.member("name"@) == Some(
            JsonView::String(name),
        )
        ||| req.method@ == "prompts/get"@ && req.params->0@.member("name"@) == Some(
            JsonView::String(name),
        )
        ||| req.method@ == "resources/read"@ && req.params->0@.member("uri"@) == Some(
            JsonView::String(name),
        )
        ||| req.method@ == "resources/subscribe"@ && req.params->0@.member("uri"@) == Some(
            JsonView::String(name),
        )
    }
}

/// No method that requires gates goes without them when its resource is named:
/// the governed resource is the one that a request names, for each of the four
/// methods, and no other message has one.
pub proof fn law_named_resources_are_governed(req: GovernanceEvaluateRequest, name: Seq<char>)
    ensures
        req.message_type == MessageType::Request && req.direction
            == StreamDirection::AgentToServer && req.params is Some ==> {
            &&& req.method@ == "tools/call"@ && req.params->0@.member("name"@) == Some(
                JsonView::String(name),
            ) ==> governed_resource(req) == Some(name)
            &&& req.method@ == "prompts/get"@ && req.params->0@.member("name"@) == Some(
                JsonView::String(name),
            ) ==> governed_resource(req) == Some(name)
            &&& req.method@ == "resources/read"@ && req.params->0@.member("uri"@) == Some(
                JsonView::String(name),
            ) ==> governed_resource(req) == Some(name)
            &&& req.method@ == "resources/subscribe"@ && req.params->0@.member("uri"@) == Some(
                JsonView::String(name),
            ) ==> governed_resource(req) == Some(name)
        },
        governed_resource(req) == Some(name) <==> asks_for(req, name),
{
    lemma_methods_differ();
}

/// Whether gate 1 lets a resource pass is told by the first source that has the
/// ID: a source that is not configured shows nothing.
pub proof fn law_the_first_source_shows(
    config: Config,
    source_id: Seq<char>,
    name: Seq<char>,
    k: int,
)
    ensures
        0 <= k < config.sources@.len() && config.sources@[k].id_text() == source_id && (forall|
            j: int,
        |
            0 <= j < k ==> (#[trigger] config.sources@[j]).id_text() != source_id) ==> visible(
            config,
            source_id,
            name,
        ) == config.sources@[k].exposure().shows(name),
        (forall|j: int|
            0 <= j < config.sources@.len() ==> (#[trigger] config.sources@[j]).id_text()
                != source_id) ==> !visible(config, source_id, name),
{
    lemma_source_position(config.sources@, source_id);
}

/// What gate 1 does not let pass is denied there, whichever of the four methods
/// asks for it and whatever the other gates would say: no policy is named, no
/// other gate is passed, and no task is created. What it lets pass goes to gate 2,
/// which notes its action and the pattern of the rule that matched.
pub proof fn law_named_resources_meet_the_gates(
    evaluator: GovernanceEvaluator,
    tasks: Tasks,
    settings: TaskStoreConfig,
    req: GovernanceEvaluateRequest,
    principal: PrincipalView,
    name: Seq<char>,
    id: Seq<char>,
    now: Timestamp,
)
    requires
        asks_for(req, name),
    ensures
        ({
            let step = evaluator.evaluated(tasks, settings, req, principal, id, now);
            let matched = evaluator.config.governance.decides(name, req.server_id@);
            if !visible(evaluator.config, req.server_id@, name) {
                &&& step is Done
                &&& step->Done_0.decision == GovernanceDecision::Deny
                &&& step->Done_0.deny_source == Some(DenySource::Visibility)
                &&& step->Done_0.policy_id is None
                &&& step->Done_1.gate1 == Some("block"@)
                &&& step->Done_1.gate2 is None
                &&& evaluator.tasks_after_evaluation(tasks, settings, req, principal, id, now)
                    == tasks
            } else {
                let trace = match step {
                    EvaluationView::Done(_, t) => t,
                    EvaluationView::AskCedar(_, at) => at.trace,
                    EvaluationView::AskEngine(_, _, at) => at.trace,
                    EvaluationView::Submit(_, at) => at.trace,
                };
                &&& trace.gate1 == Some("pass"@)
                &&& trace.gate2 == Some(
                    match matched.action {
                        Action::Forward => "forward"@,
                        Action::Approve => "approve"@,
                        Action::Deny => "deny"@,
                        Action::Policy => "policy"@,
                    },
                )
                &&& trace.gate2_rule_id == matched.matched_rule
                &&& matched.action is Forward ==> step is Done && step->Done_0.decision
                    == GovernanceDecision::Forward
                &&& matched.action is Deny ==> {
                    &&& step is Done
                    &&& step->Done_0.decision == GovernanceDecision::Deny
                    &&& step->Done_0.deny_source == Some(DenySource::GovernanceRule)
                    &&& step->Done_0.policy_id == matched.policy_id
                    &&& step->Done_0.reason == Some(
                        "Denied by governance rule for '"@ + name + "'"@,
                    )
                }
                &&& matched.action is Policy && evaluator.cedar_engine ==> step is AskCedar
                &&& matched.action is Policy && !evaluator.cedar_engine ==> {
                    &&& step is Done
                    &&& evaluator.profile == Profile::Production ==> step->Done_0.decision
                        == GovernanceDecision::Deny && step->Done_0.deny_source == Some(
                        DenySource::CedarPolicy,
                    ) && step->Done_0.reason == Some("Cedar engine not configured"@)
                    &&& evaluator.profile == Profile::Development ==> step->Done_0.decision
                        == GovernanceDecision::Forward
                }
                &&& matched.action is Approve ==> !(step is AskCedar)
            }
        }),
{
    law_named_resources_are_governed(req, name);
}

/// The question that is put to the Cedar engine is about the principal for which
/// the message is evaluated, in full, and about the message: its resource, its
/// source, the policy that the rule names (`default` if it names none), and the
/// time. The evaluation goes on with the same resource and policy.
pub proof fn law_cedar_is_asked_about_the_caller(
    evaluator: GovernanceEvaluator,
    tasks: Tasks,
    settings: TaskStoreConfig,
    req: GovernanceEvaluateRequest,
    principal: PrincipalView,
    name: Seq<char>,
    id: Seq<char>,
    now: Timestamp,
)
    requires
        asks_for(req, name),
    ensures
        ({
            let step = evaluator.evaluated(tasks, settings, req, principal, id, now);
            let question = step->AskCedar_0;
            let at = step->AskCedar_1;
            step is AskCedar ==> {
                &&& question.app_name == principal.app_name
                &&& question.namespace == principal.namespace
                &&& question.service_account == principal.service_account
                &&& question.roles == principal.roles
                &&& question.source_id == req.server_id@
                &&& question.time == now
                &&& question.policy_id == match evaluator.config.governance.decides(
                    name,
                    req.server_id@,
                ).policy_id {
                    Some(policy) => policy,
                    None => "default"@,
                }
                &&& req.method@ == "tools/call"@ ==> {
                    &&& question.resource is ToolCall
                    &&& question.resource->name == name
                    &&& question.resource->ToolCall_server == req.server_id@
                    &&& question.resource->arguments == given_arguments(req)
                }
                &&& req.method@ != "tools/call"@ ==> {
                    &&& question.resource is McpMethod
                    &&& question.resource->method == req.method@
                    &&& question.resource->McpMethod_server == req.server_id@
                }
                &&& at.name == name
                &&& at.policy_id == Some(question.policy_id)
                &&& at.trace.gate3_policy_id == Some(question.policy_id)
                &&& at.trace.gate3 is None
            }
        }),
{
    law_named_resources_are_governed(req, name);
}

/// The arguments of a call: what its parameters hold under `arguments`, else an
/// empty object.
pub open spec fn given_arguments(req: GovernanceEvaluateRequest) -> JsonView {
    if req.params is Some && req.params->0@.member("arguments"@) is Some {
        req.params->0@.member("arguments"@)->0
    } else {
        JsonView::Object(Seq::empty())
    }
}

/// Principals that differ in name, namespace, service account or roles lead to
/// different questions for the Cedar engine, and so do different resources of
/// tool calls, sources, policies and times.
pub proof fn law_cedar_tells_callers_apart(
    req: GovernanceEvaluateRequest,
    name: Seq<char>,
    other_name: Seq<char>,
    policy_id: Seq<char>,
    other_policy: Seq<char>,
    principal: PrincipalView,
    other: PrincipalView,
    now: Timestamp,
    later: Timestamp,
)
    requires
        cedar_question(req, name, policy_id, principal, now) == cedar_question(
            req,
            other_name,
            other_policy,
            other,
            later,
        ),
    ensures
        principal.app_name == other.app_name,
        principal.namespace == other.namespace,
        principal.service_account == other.service_account,
        principal.roles == other.roles,
        policy_id == other_policy,
        now == later,
        req.method@ == "tools/call"@ ==> name == other_name,
{
    let one = cedar_question(req, name, policy_id, principal, now);
    let two = cedar_question(req, other_name, other_policy, other, later);
    assert(one.resource == two.resource);
}

/// The call that is held for approval is the one that the agent made: its method,
/// its resource, its arguments and its ID.
pub open spec fn is_the_call(
    call: RequestView,
    req: GovernanceEvaluateRequest,
    name: Seq<char>,
) -> bool {
    &&& call.method == req.method@
    &&& call.name == name
    &&& call.arguments == given_arguments(req)
    &&& call.mcp_request_id == match req.id {
        Some(id) => id@,
        None => JsonRpcId::Null,
    }
}

/// Whether gate 4 asks for the approval of a call on behalf of a principal: of the
/// engine, of the scheduler, or by the task that it opens; in development it asks
/// nobody.
pub open spec fn approval_is_asked(
    evaluator: GovernanceEvaluator,
    step: EvaluationView,
    after: Tasks,
    tasks: Tasks,
    settings: TaskStoreConfig,
    req: GovernanceEvaluateRequest,
    principal: PrincipalView,
    name: Seq<char>,
    id: Seq<char>,
    now: Timestamp,
) -> bool {
    &&& evaluator.profile == Profile::Development ==> step is Done && step->Done_0.decision
        == GovernanceDecision::Forward && after == tasks
    &&& evaluator.profile == Profile::Production && evaluator.approval_engine ==> {
        &&& step is AskEngine
        &&& is_the_call(step->AskEngine_0, req, name)
        &&& step->AskEngine_1 == principal
        &&& step->AskEngine_2.name == name
        &&& after == tasks
    }
    &&& step is Submit ==> {
        let request = step->Submit_0;
        &&& evaluator.scheduler && !evaluator.approval_engine
        &&& request.task_id == id
        &&& request.correlation_id == id
        &&& request.tool_name == name
        &&& request.tool_arguments == given_arguments(req)
        &&& request.principal == principal
        &&& request.created_at == now
        &&& request.expires_at == after[id].task.expires_at
        &&& request.redact_fields.len() == 0
        &&& step->Submit_1.name == name
    }
    &&& step is Submit || step is Done && step->Done_0.decision
        == GovernanceDecision::PendingApproval ==> {
        let task = after[id].task;
        &&& after == tasks.insert(id, after[id])
        &&& task.id == id
        &&& task.status == TaskStatus::InputRequired
        &&& is_the_call(task.original_request, req, name)
        &&& is_the_call(task.pre_approval_transformed, req, name)
        &&& task.principal == principal
        &&& task.created_at == now
        &&& task.on_timeout == TimeoutAction::Deny
        &&& task.approval is None && task.result is None && task.failure is None
        &&& after[id].terminal_at is None
        &&& settings.min_ttl.nanos <= 300_000_000_000 <= settings.max_ttl.nanos ==> {
            &&& task.ttl.nanos == 300_000_000_000
            &&& now.nanos + 300_000_000_000 <= i128::MAX ==> task.expires_at.nanos == now.nanos
                + 300_000_000_000
        }
    }
    &&& evaluator.profile == Profile::Production && !evaluator.approval_engine && pending_in(
        tasks,
    ).len() < settings.max_pending_global && pending_of(tasks, principal.key()).len()
        < settings.max_pending_per_principal && !too_deep(given_arguments(req), 0) ==> {
        &&& evaluator.scheduler ==> step is Submit
        &&& !evaluator.scheduler ==> step is Done && step->Done_0.decision
            == GovernanceDecision::PendingApproval
    }
    &&& step is Done && step->Done_0.decision == GovernanceDecision::PendingApproval ==> {
        &&& !evaluator.scheduler && !evaluator.approval_engine
        &&& step->Done_0.task_id == Some(id)
        &&& step->Done_0.poll_interval_ms == Some(5000u64)
        &&& step->Done_0.timeout_secs == Some(300u64)
    }
    &&& step is Done && step->Done_0.decision == GovernanceDecision::Deny ==> after == tasks
        && step->Done_0.deny_source == Some(DenySource::GovernanceRule)
}

/// Where a rule asks for an approval, it is asked for the call that the agent made,
/// on behalf of the principal for which the message is evaluated.
pub proof fn law_approval_is_asked_for_the_call(
    evaluator: GovernanceEvaluator,
    tasks: Tasks,
    settings: TaskStoreConfig,
    req: GovernanceEvaluateRequest,
    principal: PrincipalView,
    name: Seq<char>,
    id: Seq<char>,
    now: Timestamp,
)
    requires
        asks_for(req, name),
        visible(evaluator.config, req.server_id@, name),
        evaluator.config.governance.decides(name, req.server_id@).action is Approve,
    ensures
        ({
            let step = evaluator.evaluated(tasks, settings, req, principal, id, now);
            let after = evaluator.tasks_after_evaluation(tasks, settings, req, principal, id, now);
            &&& approval_is_asked(
                evaluator,
                step,
                after,
                tasks,
                settings,
                req,
                principal,
                name,
                id,
                now,
            )
            &&& step is AskEngine ==> step->AskEngine_2.policy_id
                == evaluator.config.governance.decides(name, req.server_id@).policy_id
            &&& step is Done && step->Done_0.decision != GovernanceDecision::Forward
                ==> step->Done_0.policy_id == evaluator.config.governance.decides(
                name,
                req.server_id@,
            ).policy_id
        }),
{
    law_named_resources_are_governed(req, name);
}

/// What the Cedar engine answers decides: what it permits goes on to gate 4, for
/// the call that the agent made, and what it forbids is denied in production with
/// the engine's own reason. The answer and how long it took are traced.
pub proof fn law_cedar_answer_decides(
    evaluator: GovernanceEvaluator,
    tasks: Tasks,
    settings: TaskStoreConfig,
    req: GovernanceEvaluateRequest,
    principal: PrincipalView,
    at: Pause<Seq<char>>,
    decision: CedarDecision<Seq<char>>,
    took: Duration,
    id: Seq<char>,
    now: Timestamp,
)
    ensures
        ({
            let step = evaluator.after_cedar(
                tasks,
                settings,
                req,
                principal,
                at,
                decision,
                took,
                id,
                now,
            );
            let after = evaluator.tasks_after_cedar(
                tasks,
                settings,
                req,
                principal,
                at,
                decision,
                id,
                now,
            );
            let trace = match step {
                EvaluationView::Done(_, t) => t,
                EvaluationView::AskCedar(_, p) => p.trace,
                EvaluationView::AskEngine(_, _, p) => p.trace,
                EvaluationView::Submit(_, p) => p.trace,
            };
            &&& !(step is AskCedar)
            &&& trace.gate1 == at.trace.gate1 && trace.gate2 == at.trace.gate2
            &&& trace.gate2_rule_id == at.trace.gate2_rule_id
            &&& trace.gate3_policy_id == at.trace.gate3_policy_id
            &&& trace.gate3_duration == Some(took)
            &&& match decision {
                CedarDecision::Permit => {
                    &&& trace.gate3 == Some("allow"@)
                    &&& approval_is_asked(
                        evaluator,
                        step,
                        after,
                        tasks,
                        settings,
                        req,
                        principal,
                        at.name,
                        id,
                        now,
                    )
                    &&& step is AskEngine ==> step->AskEngine_2.policy_id == at.policy_id
                    &&& step is Done && step->Done_0.decision != GovernanceDecision::Forward
                        ==> step->Done_0.policy_id == at.policy_id
                },
                CedarDecision::Forbid { reason } => {
                    &&& trace.gate3 == Some("deny"@)
                    &&& after == tasks
                    &&& step is Done
                    &&& evaluator.profile == Profile::Production ==> {
                        &&& step->Done_0.decision == GovernanceDecision::Deny
                        &&& step->Done_0.deny_source == Some(DenySource::CedarPolicy)
                        &&& step->Done_0.reason == Some(reason)
                        &&& step->Done_0.policy_id == at.policy_id
                    }
                    &&& evaluator.profile == Profile::Development ==> {
                        &&& step->Done_0.decision == GovernanceDecision::Forward
                        &&& step->Done_0.reason == Some("WOULD_DENY: Cedar forbid — "@ + reason)
                    }
                },
            }
        }),
{
}

/// An approval that was started is told to the agent with the task, the interval
/// and the time limit under which it was started; one that could not be started is
/// a denial that says why.
pub proof fn law_start_is_told(
    tasks: Tasks,
    at: Pause<Seq<char>>,
    started: Result<ApprovalStartResult<Seq<char>>, ApprovalEngineError<Seq<char>>>,
    submitted: Result<(), Seq<char>>,
    id: Seq<char>,
)
    ensures
        ({
            let (r, t) = after_engine(tasks, at, started);
            &&& t.gate1 == at.trace.gate1 && t.gate2 == at.trace.gate2 && t.gate3
                == at.trace.gate3
            &&& r.policy_id == at.policy_id
            &&& match started {
                Ok(start) => {
                    &&& r.decision == GovernanceDecision::PendingApproval
                    &&& r.task_id == Some(start.task_id)
                    &&& start.poll_interval.nanos < 0x1_0000_0000_0000_0000 * 1_000_000
                        ==> r.poll_interval_ms == Some(
                        (start.poll_interval.nanos / 1_000_000) as u64,
                    )
                    &&& tasks.contains_key(start.task_id) ==> r.timeout_secs == Some(
                        tasks[start.task_id].task.ttl.secs(),
                    )
                    &&& !tasks.contains_key(start.task_id) ==> r.timeout_secs is None
                    &&& t.gate4 == Some("started"@)
                },
                Err(e) => {
                    &&& r.decision == GovernanceDecision::Deny
                    &&& r.deny_source == Some(DenySource::GovernanceRule)
                    &&& r.reason == Some("Approval workflow failed: "@ + e.text())
                    &&& t.gate4 == at.trace.gate4
                },
            }
        }),
        ({
            let (r, t) = after_submission(id, at, submitted);
            &&& t.gate1 == at.trace.gate1 && t.gate2 == at.trace.gate2 && t.gate3
                == at.trace.gate3
            &&& r.policy_id == at.policy_id
            &&& match submitted {
                Ok(_) => {
                    &&& r.decision == GovernanceDecision::PendingApproval
                    &&& r.task_id == Some(id)
                    &&& r.poll_interval_ms == Some(5000u64)
                    &&& r.timeout_secs == Some(300u64)
                    &&& t.gate4 == Some("started"@)
                },
                Err(e) => {
                    &&& r.decision == GovernanceDecision::Deny
                    &&& r.deny_source == Some(DenySource::GovernanceRule)
                    &&& r.reason == Some("Approval submission failed: "@ + e)
                    &&& t.gate4 == at.trace.gate4
                },
            }
        }),
{
}

/// A message is evaluated for the principal that is given, in full; for the
/// evaluator's own if none is given.
pub proof fn law_the_given_principal_acts(
    evaluator: GovernanceEvaluator,
    given: Option<&Principal>,
)
    ensures
        ({
            let acting = evaluator.acting(given);
            let principal = match given {
                Some(p) => *p,
                None => evaluator.principal,
            };
            &&& acting.app_name == principal.app_name@
            &&& acting.namespace == principal.namespace@
            &&& acting.service_account == principal.service_account@
            &&& acting.roles == texts(principal.roles@)
            &&& match (principal.user_id, acting.user_id) {
                (Some(a), Some(b)) => a@ == b,
                (None, None) => true,
                _ => false,
            }
            &&& match (principal.session_id, acting.session_id) {
                (Some(a), Some(b)) => a@ == b,
                (None, None) => true,
                _ => false,
            }
        }),
{
}

/// Who is denied a hidden resource is told of which source it is; and, where the
/// source is known, which resource.
pub proof fn law_hidden_resources_are_named(
    evaluator: GovernanceEvaluator,
    tasks: Tasks,
    settings: TaskStoreConfig,
    req: GovernanceEvaluateRequest,
    principal: PrincipalView,
    name: Seq<char>,
    id: Seq<char>,
    now: Timestamp,
)
    requires
        asks_for(req, name),
        !visible(evaluator.config, req.server_id@, name),
    ensures
        ({
            let step = evaluator.evaluated(tasks, settings, req, principal, id, now);
            let sources = evaluator.config.sources@;
            &&& step is Done
            &&& step->Done_0.reason is Some
            &&& has_part(step->Done_0.reason->0, req.server_id@)
            &&& (exists|k: int|
                0 <= k < sources.len() && (#[trigger] sources[k]).id_text() == req.server_id@)
                ==> has_part(step->Done_0.reason->0, name)
        }),
{
    law_named_resources_are_governed(req, name);
    let source_id = req.server_id@;
    let a = "Resource '"@;
    let mid = "' not exposed on source '"@;
    lemma_part(a, name, mid);
    lemma_part_of_front(a + name + mid, name, source_id);
    lemma_part_of_front(a + name + mid + source_id, name, "'"@);
    lemma_part(a + name + mid, source_id, "'"@);
    lemma_part("Source '"@, source_id, "' not found in configuration"@);
    lemma_source_position(evaluator.config.sources@, source_id);
}

} // verus!
