//! What holds of every evaluation.

use vstd::prelude::*;

use crate::config::compile::{approval_possible, leads_to_approval, source_position};
use crate::governance::api::{
    GovernanceDecision, GovernanceEvaluateRequest, GovernanceEvaluateResponse, MessageType,
};
use crate::governance::engine::{ApprovalEngineError, ApprovalStartResult};
use crate::governance::evaluation::{
    after_engine, after_submission, tasks_after_submission, EvaluationView, GovernanceEvaluator,
    Pause,
};
use crate::governance::evaluator::{
    denied, empty_trace, forwarded, governed, governed_resource, hidden_reason, visible,
    CedarDecision, DenySource, EvalTrace,
};
use crate::governance::task::store::{TaskStoreConfig, Tasks};
use crate::governance::task::types::PrincipalView;
use crate::profile::Profile;
use crate::time::{Duration, Timestamp};
use crate::StreamDirection;

verus! {

/// Whether a response is of one piece: a gate is named exactly if it denies, a
/// task and a poll interval are named exactly if an approval is awaited, and a
/// denial has a reason.
pub open spec fn coherent(r: GovernanceEvaluateResponse<Seq<char>>) -> bool {
    &&& r.deny_source is Some <==> r.decision == GovernanceDecision::Deny
    &&& r.decision == GovernanceDecision::Deny ==> r.reason is Some
    &&& r.task_id is Some <==> r.decision == GovernanceDecision::PendingApproval
    &&& r.poll_interval_ms is Some <==> r.decision == GovernanceDecision::PendingApproval
    &&& !r.shutdown
}

/// Every response of an evaluation is coherent, whatever the engines and the
/// scheduler answer.
pub proof fn law_responses_are_coherent(
    evaluator: GovernanceEvaluator,
    tasks: Tasks,
    settings: TaskStoreConfig,
    req: GovernanceEvaluateRequest,
    principal: PrincipalView,
    at: Pause<Seq<char>>,
    decision: CedarDecision<Seq<char>>,
    took: Duration,
    started: Result<ApprovalStartResult<Seq<char>>, ApprovalEngineError<Seq<char>>>,
    submitted: Result<(), Seq<char>>,
    id: Seq<char>,
    now: Timestamp,
)
    ensures
        match evaluator.evaluated(tasks, settings, req, principal, id, now) {
            EvaluationView::Done(r, _) => coherent(r),
            _ => true,
        },
        match evaluator.after_cedar(tasks, settings, req, principal, at, decision, took, id, now) {
            EvaluationView::Done(r, _) => coherent(r),
            _ => true,
        },
        coherent(after_engine(tasks, at, started).0),
        coherent(after_submission(id, at, submitted).0),
{
}

/// Whether a trace tells what a response says: gate 4 has started exactly if an
/// approval is awaited and a task is named, and gate 1 blocks exactly if the
/// resource is denied as not visible, before any other gate.
pub open spec fn told(r: GovernanceEvaluateResponse<Seq<char>>, t: EvalTrace<Seq<char>>) -> bool {
    &&& r.task_id is Some <==> r.decision == GovernanceDecision::PendingApproval
    &&& t.gate4 == Some("started"@) <==> r.decision == GovernanceDecision::PendingApproval
    &&& t.gate4 is Some <==> r.decision == GovernanceDecision::PendingApproval
    &&& t.gate1 == Some("block"@) <==> r.deny_source == Some(DenySource::Visibility)
    &&& t.gate1 == Some("block"@) ==> r.decision == GovernanceDecision::Deny && t.gate2 is None
        && t.gate3 is None && t.gate4 is None
}

/// Whether an evaluation pauses between gate 1 and gate 4: the first has let the
/// message pass, and the last has not started.
pub open spec fn between_gates(at: Pause<Seq<char>>) -> bool {
    at.trace.gate1 == Some("pass"@) && at.trace.gate4 is None
}

/// Whether a step of an evaluation is in order: its trace tells its response, or
/// it pauses between the gates.
pub open spec fn traced(e: EvaluationView) -> bool {
    match e {
        EvaluationView::Done(r, t) => told(r, t),
        EvaluationView::AskCedar(_, at) => between_gates(at),
        EvaluationView::AskEngine(_, _, at) => between_gates(at),
        EvaluationView::Submit(_, at) => between_gates(at),
    }
}

/// Whether a step of an evaluation is in order and its response of one piece.
pub open spec fn orderly(e: EvaluationView) -> bool {
    traced(e) && match e {
        EvaluationView::Done(r, _) => coherent(r),
        _ => true,
    }
}

proof fn lemma_pass_is_not_block()
    ensures
        "pass"@ != "block"@,
{
    reveal_strlit("pass");
    reveal_strlit("block");
    assert("pass"@.len() != "block"@.len());
}

/// The first step of an evaluation is orderly.
pub proof fn lemma_evaluation_is_orderly(
    evaluator: GovernanceEvaluator,
    tasks: Tasks,
    settings: TaskStoreConfig,
    req: GovernanceEvaluateRequest,
    principal: PrincipalView,
    id: Seq<char>,
    now: Timestamp,
)
    ensures
        orderly(evaluator.evaluated(tasks, settings, req, principal, id, now)),
{
    lemma_pass_is_not_block();
}

/// The step after the answer of the Cedar engine is orderly.
pub proof fn lemma_cedar_step_is_orderly(
    evaluator: GovernanceEvaluator,
    tasks: Tasks,
    settings: TaskStoreConfig,
    req: GovernanceEvaluateRequest,
    principal: PrincipalView,
    at: Pause<Seq<char>>,
    decision: CedarDecision<Seq<char>>,
    took: Duration,
    id: Seq<char>,
    now: Timestamp,
)
    requires
        between_gates(at),
    ensures
        orderly(
            evaluator.after_cedar(tasks, settings, req, principal, at, decision, took, id, now),
        ),
{
    lemma_pass_is_not_block();
}

/// The last step after the answer of the approval engine is orderly.
pub proof fn lemma_engine_step_is_orderly(
    tasks: Tasks,
    at: Pause<Seq<char>>,
    started: Result<ApprovalStartResult<Seq<char>>, ApprovalEngineError<Seq<char>>>,
)
    requires
        between_gates(at),
    ensures
        told(after_engine(tasks, at, started).0, after_engine(tasks, at, started).1),
{
    lemma_pass_is_not_block();
}

/// The last step after the answer of the scheduler is orderly.
pub proof fn lemma_submission_step_is_orderly(
    id: Seq<char>,
    at: Pause<Seq<char>>,
    submitted: Result<(), Seq<char>>,
)
    requires
        between_gates(at),
    ensures
        told(after_submission(id, at, submitted).0, after_submission(id, at, submitted).1),
{
    lemma_pass_is_not_block();
}

/// The trace of every evaluation tells its response, whatever the engines and the
/// scheduler answer: each step is in order, and each step that goes on from a
/// pause of such a step is too.
pub proof fn law_traces_tell_the_response(
    evaluator: GovernanceEvaluator,
    tasks: Tasks,
    settings: TaskStoreConfig,
    req: GovernanceEvaluateRequest,
    principal: PrincipalView,
    at: Pause<Seq<char>>,
    decision: CedarDecision<Seq<char>>,
    took: Duration,
    started: Result<ApprovalStartResult<Seq<char>>, ApprovalEngineError<Seq<char>>>,
    submitted: Result<(), Seq<char>>,
    id: Seq<char>,
    now: Timestamp,
)
    ensures
        traced(evaluator.evaluated(tasks, settings, req, principal, id, now)),
        between_gates(at) ==> {
            &&& traced(
                evaluator.after_cedar(
                    tasks,
                    settings,
                    req,
                    principal,
                    at,
                    decision,
                    took,
                    id,
                    now,
                ),
            )
            &&& told(after_engine(tasks, at, started).0, after_engine(tasks, at, started).1)
            &&& told(after_submission(id, at, submitted).0, after_submission(id, at, submitted).1)
        },
{
    lemma_evaluation_is_orderly(evaluator, tasks, settings, req, principal, id, now);
    if between_gates(at) {
        lemma_cedar_step_is_orderly(
            evaluator,
            tasks,
            settings,
            req,
            principal,
            at,
            decision,
            took,
            id,
            now,
        );
        lemma_engine_step_is_orderly(tasks, at, started);
        lemma_submission_step_is_orderly(id, at, submitted);
    }
}

/// What gate 4 hands to the scheduler awaits a decision from then on: whatever
/// comes of the submission, the tasks stay as gate 4 left them, for the state
/// machine has no step from there to failure.
pub proof fn law_submission_leaves_the_tasks(
    evaluator: GovernanceEvaluator,
    tasks: Tasks,
    settings: TaskStoreConfig,
    req: GovernanceEvaluateRequest,
    principal: PrincipalView,
    at: Pause<Seq<char>>,
    decision: CedarDecision<Seq<char>>,
    took: Duration,
    submitted: Result<(), Seq<char>>,
    id: Seq<char>,
    now: Timestamp,
    later: Timestamp,
)
    ensures
        evaluator.evaluated(tasks, settings, req, principal, id, now) is Submit ==> {
            let after = evaluator.tasks_after_evaluation(tasks, settings, req, principal, id, now);
            &&& after.contains_key(id) && after[id].task.status is InputRequired
            &&& tasks_after_submission(after, id, submitted, later) == after
        },
        evaluator.after_cedar(tasks, settings, req, principal, at, decision, took, id, now)
            is Submit ==> {
            let after = evaluator.tasks_after_cedar(
                tasks,
                settings,
                req,
                principal,
                at,
                decision,
                id,
                now,
            );
            &&& after.contains_key(id) && after[id].task.status is InputRequired
            &&& tasks_after_submission(after, id, submitted, later) == after
        },
{
}

/// Only requests from the agent to the server with a governed method and a
/// resource are gated: every other message is forwarded, and no task is created.
pub proof fn law_other_messages_are_forwarded(
    evaluator: GovernanceEvaluator,
    tasks: Tasks,
    settings: TaskStoreConfig,
    req: GovernanceEvaluateRequest,
    principal: PrincipalView,
    id: Seq<char>,
    now: Timestamp,
)
    requires
        req.message_type != MessageType::Request || req.direction
            != StreamDirection::AgentToServer || !governed(req.method@) || governed_resource(
            req,
        ) is None,
    ensures
        evaluator.evaluated(tasks, settings, req, principal, id, now) == EvaluationView::Done(
            forwarded(None),
            empty_trace(),
        ),
        evaluator.tasks_after_evaluation(tasks, settings, req, principal, id, now) == tasks,
{
}

/// Gate 1 holds in every profile: a resource of an unknown source, or one that
/// its source does not expose, is denied, and no task is created.
pub proof fn law_hidden_resources_are_denied(
    evaluator: GovernanceEvaluator,
    tasks: Tasks,
    settings: TaskStoreConfig,
    req: GovernanceEvaluateRequest,
    principal: PrincipalView,
    id: Seq<char>,
    now: Timestamp,
)
    requires
        governed_resource(req) is Some,
        source_position(evaluator.config.sources@, req.server_id@)
            == evaluator.config.sources@.len() || !visible(
            evaluator.config,
            req.server_id@,
            governed_resource(req)->0,
        ),
    ensures
        evaluator.evaluated(tasks, settings, req, principal, id, now) == EvaluationView::Done(
            denied(
                hidden_reason(evaluator.config, req.server_id@, governed_resource(req)->0),
                None,
                DenySource::Visibility,
            ),
            EvalTrace { gate1: Some("block"@), ..empty_trace() },
        ),
        evaluator.tasks_after_evaluation(tasks, settings, req, principal, id, now) == tasks,
{
}

/// Gate 2 holds in every profile: what a rule denies is denied, and what a rule
/// forwards is forwarded without gates 3 and 4.
pub proof fn law_rules_decide_in_every_profile(
    evaluator: GovernanceEvaluator,
    tasks: Tasks,
    settings: TaskStoreConfig,
    req: GovernanceEvaluateRequest,
    principal: PrincipalView,
    id: Seq<char>,
    now: Timestamp,
)
    requires
        governed_resource(req) is Some,
        visible(evaluator.config, req.server_id@, governed_resource(req)->0),
    ensures
        ({
            let name = governed_resource(req)->0;
            let action = evaluator.config.governance.decides(name, req.server_id@).action;
            let r = evaluator.evaluated(tasks, settings, req, principal, id, now);
            &&& action is Deny ==> r is Done && r->Done_0.decision == GovernanceDecision::Deny
                && r->Done_0.deny_source == Some(DenySource::GovernanceRule)
            &&& action is Forward ==> r is Done && r->Done_0 == forwarded(None)
            &&& !(action is Approve) ==> evaluator.tasks_after_evaluation(
                tasks,
                settings,
                req,
                principal,
                id,
                now,
            ) == tasks
        }),
{
}

/// In development gates 3 and 4 hold nothing up: whatever goes beyond gate 2 is
/// forwarded, or goes to the Cedar engine and is then forwarded, and no task is
/// created.
pub proof fn law_development_waits_for_nobody(
    evaluator: GovernanceEvaluator,
    tasks: Tasks,
    settings: TaskStoreConfig,
    req: GovernanceEvaluateRequest,
    principal: PrincipalView,
    at: Pause<Seq<char>>,
    decision: CedarDecision<Seq<char>>,
    took: Duration,
    id: Seq<char>,
    now: Timestamp,
)
    requires
        evaluator.profile == Profile::Development,
    ensures
        match evaluator.evaluated(tasks, settings, req, principal, id, now) {
            EvaluationView::Done(r, _) => r.decision == GovernanceDecision::Forward || (r.decision
                == GovernanceDecision::Deny && r.deny_source != Some(DenySource::CedarPolicy)),
            EvaluationView::AskCedar(_, _) => true,
            _ => false,
        },
        match evaluator.after_cedar(tasks, settings, req, principal, at, decision, took, id, now) {
            EvaluationView::Done(r, _) => r.decision == GovernanceDecision::Forward,
            _ => false,
        },
        evaluator.tasks_after_evaluation(tasks, settings, req, principal, id, now) == tasks,
        evaluator.tasks_after_cedar(tasks, settings, req, principal, at, decision, id, now)
            == tasks,
{
}

/// In production nothing that a rule sends to gate 3 or gate 4 is forwarded: it
/// is denied, or it awaits an approval.
pub proof fn law_production_forwards_nothing_unapproved(
    evaluator: GovernanceEvaluator,
    tasks: Tasks,
    settings: TaskStoreConfig,
    req: GovernanceEvaluateRequest,
    principal: PrincipalView,
    at: Pause<Seq<char>>,
    decision: CedarDecision<Seq<char>>,
    took: Duration,
    started: Result<ApprovalStartResult<Seq<char>>, ApprovalEngineError<Seq<char>>>,
    submitted: Result<(), Seq<char>>,
    id: Seq<char>,
    now: Timestamp,
)
    requires
        evaluator.profile == Profile::Production,
        governed_resource(req) is Some,
        ({
            let action = evaluator.config.governance.decides(
                governed_resource(req)->0,
                req.server_id@,
            ).action;
            action is Policy || action is Approve
        }),
    ensures
        match evaluator.evaluated(tasks, settings, req, principal, id, now) {
            EvaluationView::Done(r, _) => r.decision != GovernanceDecision::Forward,
            _ => true,
        },
        match evaluator.after_cedar(tasks, settings, req, principal, at, decision, took, id, now) {
            EvaluationView::Done(r, _) => r.decision != GovernanceDecision::Forward,
            _ => true,
        },
        after_engine(tasks, at, started).0.decision != GovernanceDecision::Forward,
        after_submission(id, at, submitted).0.decision != GovernanceDecision::Forward,
{
}

/// Where the configuration can lead to no approval, every message is decided at
/// once: nobody is asked, nothing awaits an approval, and no task is created.
pub proof fn law_nothing_waits_without_approvals(
    evaluator: GovernanceEvaluator,
    tasks: Tasks,
    settings: TaskStoreConfig,
    req: GovernanceEvaluateRequest,
    principal: PrincipalView,
    id: Seq<char>,
    now: Timestamp,
)
    requires
        !approval_possible(evaluator.config),
    ensures
        match evaluator.evaluated(tasks, settings, req, principal, id, now) {
            EvaluationView::Done(r, _) => r.decision != GovernanceDecision::PendingApproval,
            _ => false,
        },
        evaluator.tasks_after_evaluation(tasks, settings, req, principal, id, now) == tasks,
{
    if governed_resource(req) is Some {
        let name = governed_resource(req)->0;
        let result = evaluator.config.governance.decides(name, req.server_id@);
        assert(!leads_to_approval(result.action));
    }
}

/// What the Cedar engine forbids in production is denied with its reason, and no
/// task is created.
pub proof fn law_forbidden_in_production_is_denied(
    evaluator: GovernanceEvaluator,
    tasks: Tasks,
    settings: TaskStoreConfig,
    req: GovernanceEvaluateRequest,
    principal: PrincipalView,
    at: Pause<Seq<char>>,
    reason: Seq<char>,
    took: Duration,
    id: Seq<char>,
    now: Timestamp,
)
    requires
        evaluator.profile == Profile::Production,
    ensures
        ({
            let decision = CedarDecision::Forbid { reason };
            let r = evaluator.after_cedar(
                tasks,
                settings,
                req,
                principal,
                at,
                decision,
                took,
                id,
                now,
            );
            &&& r is Done
            &&& r->Done_0 == denied(reason, at.policy_id, DenySource::CedarPolicy)
            &&& evaluator.tasks_after_cedar(
                tasks,
                settings,
                req,
                principal,
                at,
                decision,
                id,
                now,
            ) == tasks
        }),
{
}

} // verus!
