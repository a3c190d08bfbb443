//! The evaluator, which puts a message through the four gates.

use vstd::prelude::*;
use vstd::string::*;

use crate::config::schema::{Config, TimeoutAction};
use crate::governance::api::{
    GovernanceDecision, GovernanceEvaluateRequest, GovernanceEvaluateResponse,
};
use crate::governance::approval::types::{ApprovalRequest, ApprovalRequestView};
use crate::governance::engine::{
    open_task, posted_view, start_view, tasks_after_open, ApprovalEngineError, ApprovalStartResult,
};
use crate::governance::evaluation_laws::{
    between_gates, coherent, lemma_cedar_step_is_orderly, lemma_engine_step_is_orderly,
    lemma_evaluation_is_orderly, lemma_submission_step_is_orderly, orderly, told,
};
use crate::governance::evaluator::{
    call_for, cedar_question, cedar_request, denied, deny, effective_policy, forward, forwarded,
    gated, pass_gates, pending, tool_call, CedarDecision, CedarRequest, CedarRequestView,
    DenySource, EvalTrace, GateVerdict,
};
use crate::governance::task::life::{new_task, stepped, transition_error};
use crate::governance::task::maps::TaskEntry;
use crate::governance::task::status::TaskStatus;
use crate::governance::task::store::{
    clamped_ttl, create_error, ready_for, trails_consistent, TaskStore, TaskStoreConfig, Tasks,
};
use crate::governance::task::types::{
    Principal, PrincipalView, RequestView, TaskId, TaskView, ToolCallRequest,
};
use crate::profile::Profile;
use crate::text::opt_text;
use crate::time::{Duration, Timestamp, NANOS_PER_MILLI};

verus! {

/// Time limit in seconds of an approval that no engine starts.
pub const DEFAULT_APPROVAL_TTL_SECS: u64 = 300;

/// Poll interval in milliseconds of an approval that no engine starts.
pub const DEFAULT_POLL_INTERVAL_MS: u64 = 5000;

/// Where an evaluation stands while an answer from outside is awaited. `T` holds
/// a text.
#[derive(Debug)]
pub struct Pause<T = String> {
    /// Name of the resource.
    pub name: T,
    /// Cedar policy ID.
    pub policy_id: Option<T>,
    /// What happened so far.
    pub trace: EvalTrace<T>,
}

impl Pause {
    /// The pause with its strings taken as character sequences.
    pub open spec fn view(self) -> Pause<Seq<char>> {
        Pause { name: self.name@, policy_id: opt_text(self.policy_id), trace: self.trace@ }
    }
}

/// Whether the lists of the principals' tasks are as before, but for a task that
/// was added for a principal.
pub open spec fn listed_after(
    before: TaskStore,
    after: TaskStore,
    key: Seq<char>,
    id: Seq<char>,
) -> bool {
    forall|k: Seq<char>| #[trigger]
        after.index(k) == if k == key && after@.contains_key(id) && !before@.contains_key(id) {
            before.index(k).push(id)
        } else {
            before.index(k)
        }
}

/// What an evaluation leads to.
pub enum Evaluation {
    /// The message is answered.
    Done(GovernanceEvaluateResponse, EvalTrace),
    /// The Cedar engine is to be asked.
    AskCedar(CedarRequest, Pause),
    /// The approval engine is to start an approval.
    AskEngine(ToolCallRequest, Principal, Pause),
    /// The approval request is to be submitted to the scheduler.
    Submit(ApprovalRequest, Pause),
}

/// What an evaluation leads to.
pub enum EvaluationView {
    /// The message is answered.
    Done(GovernanceEvaluateResponse<Seq<char>>, EvalTrace<Seq<char>>),
    /// The Cedar engine is to be asked.
    AskCedar(CedarRequestView, Pause<Seq<char>>),
    /// The approval engine is to start an approval.
    AskEngine(RequestView, PrincipalView, Pause<Seq<char>>),
    /// The approval request is to be submitted to the scheduler.
    Submit(ApprovalRequestView, Pause<Seq<char>>),
}

impl Evaluation {
    /// The step with its strings taken as character sequences.
    pub open spec fn view(self) -> EvaluationView {
        match self {
            Evaluation::Done(r, t) => EvaluationView::Done(r@, t@),
            Evaluation::AskCedar(q, p) => EvaluationView::AskCedar(q@, p@),
            Evaluation::AskEngine(c, w, p) => EvaluationView::AskEngine(c@, w@, p@),
            Evaluation::Submit(a, p) => EvaluationView::Submit(a@, p@),
        }
    }
}

/// The evaluator. The engines and the scheduler stand outside; what is noted here
/// is whether there are any.
pub struct GovernanceEvaluator {
    /// The configuration.
    pub config: Config,
    /// Whether there is a Cedar engine.
    pub cedar_engine: bool,
    /// The principal for which messages are evaluated, if no other is given.
    pub principal: Principal,
    /// The profile.
    pub profile: Profile,
    /// Whether there is a scheduler.
    pub scheduler: bool,
    /// Whether there is an approval engine.
    pub approval_engine: bool,
}

/// A trace on which the start of an approval is noted.
pub open spec fn with_start(trace: EvalTrace<Seq<char>>) -> EvalTrace<Seq<char>> {
    EvalTrace { gate4: Some("started"@), ..trace }
}

/// The task of an approval that no engine starts.
pub open spec fn direct_task(
    settings: TaskStoreConfig,
    call: RequestView,
    principal: PrincipalView,
    id: Seq<char>,
    now: Timestamp,
) -> TaskView {
    new_task(
        id,
        call,
        call,
        principal,
        clamped_ttl(Some(Duration::of_secs(DEFAULT_APPROVAL_TTL_SECS as nat)), settings),
        TimeoutAction::Deny,
        now,
    )
}

impl GovernanceEvaluator {
    /// What gate 4 leads to.
    pub open spec fn gate4(
        self,
        tasks: Tasks,
        settings: TaskStoreConfig,
        call: RequestView,
        principal: PrincipalView,
        at: Pause<Seq<char>>,
        id: Seq<char>,
        now: Timestamp,
    ) -> EvaluationView {
        if self.profile == Profile::Development {
            EvaluationView::Done(
                forwarded(
                    Some(
                        "WOULD_REQUIRE_APPROVAL for '"@ + at.name
                            + "' — auto-forwarding in dev mode"@,
                    ),
                ),
                at.trace,
            )
        } else if self.approval_engine {
            EvaluationView::AskEngine(call, principal, at)
        } else {
            match create_error(tasks, settings, principal.key(), call.arguments) {
                Some(e) => EvaluationView::Done(
                    denied(
                        "Failed to create approval task: "@ + e.text(),
                        at.policy_id,
                        DenySource::GovernanceRule,
                    ),
                    at.trace,
                ),
                None => if self.scheduler {
                    EvaluationView::Submit(
                        ApprovalRequest {
                            task_id: id,
                            tool_name: at.name,
                            tool_arguments: call.arguments,
                            principal,
                            expires_at: direct_task(
                                settings,
                                call,
                                principal,
                                id,
                                now,
                            ).expires_at,
                            created_at: now,
                            correlation_id: id,
                            redact_fields: Seq::empty(),
                        },
                        at,
                    )
                } else {
                    EvaluationView::Done(
                        pending(
                            id,
                            at.policy_id,
                            DEFAULT_POLL_INTERVAL_MS,
                            Some(DEFAULT_APPROVAL_TTL_SECS),
                        ),
                        with_start(at.trace),
                    )
                },
            }
        }
    }

    /// Whether gate 4 opens tasks by itself.
    pub open spec fn opens_tasks(self) -> bool {
        self.profile != Profile::Development && !self.approval_engine
    }

    /// Whether gate 4 opens a task for a call.
    pub open spec fn opens(
        self,
        tasks: Tasks,
        settings: TaskStoreConfig,
        call: RequestView,
        principal: PrincipalView,
    ) -> bool {
        self.opens_tasks() && create_error(tasks, settings, principal.key(), call.arguments) is None
    }

    /// The tasks after gate 4.
    pub open spec fn tasks_after_gate4(
        self,
        tasks: Tasks,
        settings: TaskStoreConfig,
        call: RequestView,
        principal: PrincipalView,
        id: Seq<char>,
        now: Timestamp,
    ) -> Tasks {
        if self.opens(tasks, settings, call, principal) {
            tasks_after_open(tasks, direct_task(settings, call, principal, id, now), now)
        } else {
            tasks
        }
    }

    /// What gate 3 leads to before the Cedar engine is asked.
    pub open spec fn gate3(
        self,
        req: GovernanceEvaluateRequest,
        name: Seq<char>,
        policy_id: Option<Seq<char>>,
        principal: PrincipalView,
        trace: EvalTrace<Seq<char>>,
        now: Timestamp,
    ) -> EvaluationView {
        if !self.cedar_engine {
            EvaluationView::Done(
                if self.profile == Profile::Development {
                    forwarded(Some("No Cedar engine configured — forwarding in dev mode"@))
                } else {
                    denied("Cedar engine not configured"@, None, DenySource::CedarPolicy)
                },
                trace,
            )
        } else {
            let policy = effective_policy(policy_id);
            EvaluationView::AskCedar(
                cedar_question(req, name, policy, principal, now),
                Pause {
                    name,
                    policy_id: Some(policy),
                    trace: EvalTrace { gate3_policy_id: Some(policy), ..trace },
                },
            )
        }
    }

    /// The principal for which a message is evaluated.
    pub open spec fn acting(self, principal_override: Option<&Principal>) -> PrincipalView {
        match principal_override {
            Some(p) => p@,
            None => self.principal@,
        }
    }

    /// What the evaluation of a message leads to.
    pub open spec fn evaluated(
        self,
        tasks: Tasks,
        settings: TaskStoreConfig,
        req: GovernanceEvaluateRequest,
        principal: PrincipalView,
        id: Seq<char>,
        now: Timestamp,
    ) -> EvaluationView {
        let (verdict, trace) = gated(self.config, req);
        match verdict {
            GateVerdict::Answer(response) => EvaluationView::Done(response, trace),
            GateVerdict::Policy { name, policy_id } => self.gate3(
                req,
                name,
                policy_id,
                principal,
                trace,
                now,
            ),
            GateVerdict::Approve { name, policy_id } => self.gate4(
                tasks,
                settings,
                call_for(req, name),
                principal,
                Pause { name, policy_id, trace },
                id,
                now,
            ),
        }
    }

    /// The tasks after the evaluation of a message.
    pub open spec fn tasks_after_evaluation(
        self,
        tasks: Tasks,
        settings: TaskStoreConfig,
        req: GovernanceEvaluateRequest,
        principal: PrincipalView,
        id: Seq<char>,
        now: Timestamp,
    ) -> Tasks {
        match gated(self.config, req).0 {
            GateVerdict::Approve { name, .. } => self.tasks_after_gate4(
                tasks,
                settings,
                call_for(req, name),
                principal,
                id,
                now,
            ),
            _ => tasks,
        }
    }

    /// What the answer of the Cedar engine leads to.
    pub open spec fn after_cedar(
        self,
        tasks: Tasks,
        settings: TaskStoreConfig,
        req: GovernanceEvaluateRequest,
        principal: PrincipalView,
        at: Pause<Seq<char>>,
        decision: CedarDecision<Seq<char>>,
        took: Duration,
        id: Seq<char>,
        now: Timestamp,
    ) -> EvaluationView {
        match decision {
            CedarDecision::Permit => self.gate4(
                tasks,
                settings,
                call_for(req, at.name),
                principal,
                Pause {
                    trace: EvalTrace {
                        gate3: Some("allow"@),
                        gate3_duration: Some(took),
                        ..at.trace
                    },
                    ..at
                },
                id,
                now,
            ),
            CedarDecision::Forbid { reason } => EvaluationView::Done(
                if self.profile == Profile::Development {
                    forwarded(Some("WOULD_DENY: Cedar forbid — "@ + reason))
                } else {
                    denied(reason, at.policy_id, DenySource::CedarPolicy)
                },
                EvalTrace { gate3: Some("deny"@), gate3_duration: Some(took), ..at.trace },
            ),
        }
    }

    /// The tasks after the answer of the Cedar engine.
    pub open spec fn tasks_after_cedar(
        self,
        tasks: Tasks,
        settings: TaskStoreConfig,
        req: GovernanceEvaluateRequest,
        principal: PrincipalView,
        at: Pause<Seq<char>>,
        decision: CedarDecision<Seq<char>>,
        id: Seq<char>,
        now: Timestamp,
    ) -> Tasks {
        match decision {
            CedarDecision::Permit => self.tasks_after_gate4(
                tasks,
                settings,
                call_for(req, at.name),
                principal,
                id,
                now,
            ),
            CedarDecision::Forbid { .. } => tasks,
        }
    }
}

/// The milliseconds of an interval, modulo 2 to the power of 64.
pub open spec fn poll_millis(interval: Duration) -> u64 {
    ((interval.nanos / NANOS_PER_MILLI) % 0x1_0000_0000_0000_0000) as u64
}

/// What the answer of the approval engine leads to.
pub open spec fn after_engine(
    tasks: Tasks,
    at: Pause<Seq<char>>,
    result: Result<ApprovalStartResult<Seq<char>>, ApprovalEngineError<Seq<char>>>,
) -> (GovernanceEvaluateResponse<Seq<char>>, EvalTrace<Seq<char>>) {
    match result {
        Ok(start) => (
            pending(
                start.task_id,
                at.policy_id,
                poll_millis(start.poll_interval),
                if tasks.contains_key(start.task_id) {
                    Some(tasks[start.task_id].task.ttl.secs())
                } else {
                    None
                },
            ),
            with_start(at.trace),
        ),
        Err(e) => (
            denied(
                "Approval workflow failed: "@ + e.text(),
                at.policy_id,
                DenySource::GovernanceRule,
            ),
            at.trace,
        ),
    }
}

/// What the outcome of the submission to the scheduler leads to.
pub open spec fn after_submission(
    id: Seq<char>,
    at: Pause<Seq<char>>,
    submitted: Result<(), Seq<char>>,
) -> (GovernanceEvaluateResponse<Seq<char>>, EvalTrace<Seq<char>>) {
    match submitted {
        Ok(_) => (
            pending(
                id,
                at.policy_id,
                DEFAULT_POLL_INTERVAL_MS,
                Some(DEFAULT_APPROVAL_TTL_SECS),
            ),
            with_start(at.trace),
        ),
        Err(e) => (
            denied("Approval submission failed: "@ + e, at.policy_id, DenySource::GovernanceRule),
            at.trace,
        ),
    }
}

/// The tasks after the submission to the scheduler: where it failed, the task is
/// marked as failed if the state machine has that step.
pub open spec fn tasks_after_submission(
    tasks: Tasks,
    id: Seq<char>,
    submitted: Result<(), Seq<char>>,
    now: Timestamp,
) -> Tasks {
    match submitted {
        Err(e) => if tasks.contains_key(id) && transition_error(
            tasks[id].task,
            TaskStatus::Failed,
        ) is None {
            tasks.insert(
                id,
                TaskEntry {
                    task: stepped(
                        tasks[id].task,
                        TaskStatus::Failed,
                        Some("Scheduler submission failed: "@ + e),
                        now,
                    ),
                    terminal_at: Some(now),
                },
            )
        } else {
            tasks
        },
        Ok(_) => tasks,
    }
}

fn pend(
    task_id: String,
    policy_id: Option<String>,
    poll_interval_ms: u64,
    timeout_secs: Option<u64>,
) -> (r: GovernanceEvaluateResponse)
    ensures
        r@ == pending(task_id@, opt_text(policy_id), poll_interval_ms, timeout_secs),
{
    GovernanceEvaluateResponse {
        decision: GovernanceDecision::PendingApproval,
        task_id: Some(task_id),
        policy_id,
        reason: None,
        poll_interval_ms: Some(poll_interval_ms),
        timeout_secs,
        shutdown: false,
        deny_source: None,
    }
}

impl GovernanceEvaluator {
    /// Creates an evaluator without approval engine and scheduler.
    pub fn new(config: Config, cedar_engine: bool, principal: Principal, profile: Profile) -> (r:
        Self)
        ensures
            r == (GovernanceEvaluator {
                config,
                cedar_engine,
                principal,
                profile,
                scheduler: false,
                approval_engine: false,
            }),
    {
        GovernanceEvaluator {
            config,
            cedar_engine,
            principal,
            profile,
            scheduler: false,
            approval_engine: false,
        }
    }

    /// The evaluator with an approval engine, to which gate 4 then turns.
    pub fn with_approval_engine(self) -> (r: Self)
        ensures
            r == (GovernanceEvaluator { approval_engine: true, ..self }),
    {
        GovernanceEvaluator { approval_engine: true, ..self }
    }

    /// Notes that there is a scheduler. Returns whether there was none before.
    pub fn set_scheduler(&mut self) -> (r: bool)
        ensures
            r == !old(self).scheduler,
            *final(self) == (GovernanceEvaluator { scheduler: true, ..*old(self) }),
    {
        let first = !self.scheduler;
        self.scheduler = true;
        first
    }

    /// Gate 4.
    fn start_approval(
        &self,
        call: ToolCallRequest,
        principal: &Principal,
        at: Pause,
        store: &mut TaskStore,
        task_id: TaskId,
        now: Timestamp,
    ) -> (r: Evaluation)
        requires
            old(store).wf(),
            self.opens_tasks() ==> ready_for(
                old(store)@,
                old(store).settings(),
                principal@.key(),
                task_id@,
            ),
            call@.name == at@.name,
        ensures
            final(store).wf(),
            final(store).settings() == old(store).settings(),
            trails_consistent(old(store)@) ==> trails_consistent(final(store)@),
            listed_after(*old(store), *final(store), principal@.key(), task_id@),
            r@ == self.gate4(
                old(store)@,
                old(store).settings(),
                call@,
                principal@,
                at@,
                task_id@,
                now,
            ),
            final(store)@ == self.tasks_after_gate4(
                old(store)@,
                old(store).settings(),
                call@,
                principal@,
                task_id@,
                now,
            ),
    {
        if self.profile == Profile::Development {
            let reason = "WOULD_REQUIRE_APPROVAL for '".to_owned().concat(at.name.as_str()).concat(
                "' — auto-forwarding in dev mode",
            );
            return Evaluation::Done(forward(Some(reason)), at.trace);
        }
        if self.approval_engine {
            return Evaluation::AskEngine(call, principal.copy(), at);
        }
        let id = task_id.clone();
        let arguments = call.arguments.copy();
        let transformed = call.copy();
        let task = match open_task(
            store,
            task_id,
            call,
            transformed,
            principal.copy(),
            Duration::from_secs(DEFAULT_APPROVAL_TTL_SECS),
            TimeoutAction::Deny,
            now,
        ) {
            Ok(task) => task,
            Err(e) => {
                let reason = "Failed to create approval task: ".to_owned().concat(
                    e.message().as_str(),
                );
                return Evaluation::Done(
                    deny(reason, at.policy_id, DenySource::GovernanceRule),
                    at.trace,
                );
            },
        };
        if self.scheduler {
            let redact_fields: Vec<String> = Vec::new();
            assert(crate::text::texts(redact_fields@) =~= Seq::<Seq<char>>::empty());
            let request = ApprovalRequest {
                task_id: id.clone(),
                tool_name: at.name.clone(),
                tool_arguments: arguments,
                principal: principal.copy(),
                expires_at: task.expires_at,
                created_at: now,
                correlation_id: id,
                redact_fields,
            };
            return Evaluation::Submit(request, at);
        }
        let mut trace = at.trace;
        trace.gate4 = Some("started".to_owned());
        Evaluation::Done(
            pend(id, at.policy_id, DEFAULT_POLL_INTERVAL_MS, Some(DEFAULT_APPROVAL_TTL_SECS)),
            trace,
        )
    }

    /// Gate 3, up to the question for the Cedar engine.
    fn evaluate_cedar(
        &self,
        req: &GovernanceEvaluateRequest,
        name: String,
        policy_id: Option<String>,
        principal: &Principal,
        trace: EvalTrace,
        now: Timestamp,
    ) -> (r: Evaluation)
        ensures
            r@ == self.gate3(*req, name@, opt_text(policy_id), principal@, trace@, now),
    {
        if !self.cedar_engine {
            if self.profile == Profile::Development {
                return Evaluation::Done(
                    forward(
                        Some("No Cedar engine configured — forwarding in dev mode".to_owned()),
                    ),
                    trace,
                );
            }
            return Evaluation::Done(
                deny("Cedar engine not configured".to_owned(), None, DenySource::CedarPolicy),
                trace,
            );
        }
        let policy = match policy_id {
            Some(id) => id,
            None => "default".to_owned(),
        };
        let question = cedar_request(req, &name, &policy, principal, now);
        let mut trace = trace;
        trace.gate3_policy_id = Some(policy.clone());
        Evaluation::AskCedar(question, Pause { name, policy_id: Some(policy), trace })
    }

    /// Evaluates a message for the evaluator's own principal. The task ID, which
    /// must not be in use, is that of the task that gate 4 may create.
    pub fn evaluate(
        &self,
        req: &GovernanceEvaluateRequest,
        store: &mut TaskStore,
        task_id: TaskId,
        now: Timestamp,
    ) -> (r: Evaluation)
        requires
            old(store).wf(),
            self.opens_tasks() && gated(self.config, *req).0 is Approve ==> ready_for(
                old(store)@,
                old(store).settings(),
                self.principal@.key(),
                task_id@,
            ),
        ensures
            final(store).wf(),
            final(store).settings() == old(store).settings(),
            trails_consistent(old(store)@) ==> trails_consistent(final(store)@),
            listed_after(*old(store), *final(store), self.principal@.key(), task_id@),
            orderly(r@),
            r@ == self.evaluated(
                old(store)@,
                old(store).settings(),
                *req,
                self.principal@,
                task_id@,
                now,
            ),
            final(store)@ == self.tasks_after_evaluation(
                old(store)@,
                old(store).settings(),
                *req,
                self.principal@,
                task_id@,
                now,
            ),
    {
        self.evaluate_with_principal(req, None, store, task_id, now)
    }

    /// Evaluates a message for a principal; for the evaluator's own if none is
    /// given.
    pub fn evaluate_with_principal(
        &self,
        req: &GovernanceEvaluateRequest,
        principal_override: Option<&Principal>,
        store: &mut TaskStore,
        task_id: TaskId,
        now: Timestamp,
    ) -> (r: Evaluation)
        requires
            old(store).wf(),
            self.opens_tasks() && gated(self.config, *req).0 is Approve ==> ready_for(
                old(store)@,
                old(store).settings(),
                self.acting(principal_override).key(),
                task_id@,
            ),
        ensures
            final(store).wf(),
            final(store).settings() == old(store).settings(),
            trails_consistent(old(store)@) ==> trails_consistent(final(store)@),
            listed_after(
                *old(store),
                *final(store),
                self.acting(principal_override).key(),
                task_id@,
            ),
            orderly(r@),
            r@ == self.evaluated(
                old(store)@,
                old(store).settings(),
                *req,
                self.acting(principal_override),
                task_id@,
                now,
            ),
            final(store)@ == self.tasks_after_evaluation(
                old(store)@,
                old(store).settings(),
                *req,
                self.acting(principal_override),
                task_id@,
                now,
            ),
    {
        proof {
            lemma_evaluation_is_orderly(
                *self,
                store@,
                store.settings(),
                *req,
                self.acting(principal_override),
                task_id@,
                now,
            );
        }
        let principal = match principal_override {
            Some(p) => p,
            None => &self.principal,
        };
        let (verdict, trace) = pass_gates(&self.config, req);
        match verdict {
            GateVerdict::Answer(response) => Evaluation::Done(response, trace),
            GateVerdict::Policy { name, policy_id } => self.evaluate_cedar(
                req,
                name,
                policy_id,
                principal,
                trace,
                now,
            ),
            GateVerdict::Approve { name, policy_id } => {
                let call = tool_call(req, &name);
                self.start_approval(
                    call,
                    principal,
                    Pause { name, policy_id, trace },
                    store,
                    task_id,
                    now,
                )
            },
        }
    }

    /// Goes on with the answer of the Cedar engine: what is permitted goes to
    /// gate 4, what is forbidden is denied, or forwarded in development.
    pub fn resume_cedar(
        &self,
        req: &GovernanceEvaluateRequest,
        principal_override: Option<&Principal>,
        at: Pause,
        decision: CedarDecision,
        took: Duration,
        store: &mut TaskStore,
        task_id: TaskId,
        now: Timestamp,
    ) -> (r: Evaluation)
        requires
            old(store).wf(),
            self.opens_tasks() && decision is Permit ==> ready_for(
                old(store)@,
                old(store).settings(),
                self.acting(principal_override).key(),
                task_id@,
            ),
        ensures
            final(store).wf(),
            final(store).settings() == old(store).settings(),
            trails_consistent(old(store)@) ==> trails_consistent(final(store)@),
            listed_after(
                *old(store),
                *final(store),
                self.acting(principal_override).key(),
                task_id@,
            ),
            between_gates(at@) ==> orderly(r@),
            r@ == self.after_cedar(
                old(store)@,
                old(store).settings(),
                *req,
                self.acting(principal_override),
                at@,
                decision@,
                took,
                task_id@,
                now,
            ),
            final(store)@ == self.tasks_after_cedar(
                old(store)@,
                old(store).settings(),
                *req,
                self.acting(principal_override),
                at@,
                decision@,
                task_id@,
                now,
            ),
    {
        proof {
            if between_gates(at@) {
                lemma_cedar_step_is_orderly(
                    *self,
                    store@,
                    store.settings(),
                    *req,
                    self.acting(principal_override),
                    at@,
                    decision@,
                    took,
                    task_id@,
                    now,
                );
            }
        }
        let principal = match principal_override {
            Some(p) => p,
            None => &self.principal,
        };
        let mut at = at;
        at.trace.gate3_duration = Some(took);
        match decision {
            CedarDecision::Permit => {
                at.trace.gate3 = Some("allow".to_owned());
                let call = tool_call(req, &at.name);
                self.start_approval(call, principal, at, store, task_id, now)
            },
            CedarDecision::Forbid { reason } => {
                at.trace.gate3 = Some("deny".to_owned());
                if self.profile == Profile::Development {
                    let note = "WOULD_DENY: Cedar forbid — ".to_owned().concat(reason.as_str());
                    return Evaluation::Done(forward(Some(note)), at.trace);
                }
                Evaluation::Done(deny(reason, at.policy_id, DenySource::CedarPolicy), at.trace)
            },
        }
    }
}

/// Goes on with the answer of the approval engine.
pub fn resume_engine(
    at: Pause,
    result: Result<ApprovalStartResult, ApprovalEngineError>,
    store: &TaskStore,
) -> (r: (GovernanceEvaluateResponse, EvalTrace))
    ensures
        (r.0@, r.1@) == after_engine(store@, at@, start_view(result)),
        coherent(r.0@),
        between_gates(at@) ==> told(r.0@, r.1@),
{
    proof {
        if between_gates(at@) {
            lemma_engine_step_is_orderly(store@, at@, start_view(result));
        }
    }
    match result {
        Ok(start) => {
            let millis: u128 = start.poll_interval.as_millis() % 0x1_0000_0000_0000_0000;
            let timeout_secs = match store.get(&start.task_id) {
                Ok(task) => Some(task.ttl.as_secs()),
                Err(_) => None,
            };
            let mut trace = at.trace;
            trace.gate4 = Some("started".to_owned());
            (pend(start.task_id, at.policy_id, millis as u64, timeout_secs), trace)
        },
        Err(e) => {
            let reason = "Approval workflow failed: ".to_owned().concat(e.message().as_str());
            (deny(reason, at.policy_id, DenySource::GovernanceRule), at.trace)
        },
    }
}

/// Goes on with the outcome of the submission to the scheduler.
pub fn resume_submission(
    at: Pause,
    task_id: TaskId,
    submitted: Result<(), String>,
    store: &mut TaskStore,
    now: Timestamp,
) -> (r: (GovernanceEvaluateResponse, EvalTrace))
    requires
        old(store).wf(),
    ensures
        final(store).wf(),
        final(store).settings() == old(store).settings(),
        trails_consistent(old(store)@) ==> trails_consistent(final(store)@),
        forall|key: Seq<char>| #[trigger] final(store).index(key) == old(store).index(key),
        coherent(r.0@),
        between_gates(at@) ==> told(r.0@, r.1@),
        (r.0@, r.1@) == after_submission(task_id@, at@, posted_view(submitted)),
        final(store)@ == tasks_after_submission(
            old(store)@,
            task_id@,
            posted_view(submitted),
            now,
        ),
{
    proof {
        if between_gates(at@) {
            lemma_submission_step_is_orderly(task_id@, at@, posted_view(submitted));
        }
    }
    match submitted {
        Ok(_) => {
            let mut trace = at.trace;
            trace.gate4 = Some("started".to_owned());
            (
                pend(
                    task_id,
                    at.policy_id,
                    DEFAULT_POLL_INTERVAL_MS,
                    Some(DEFAULT_APPROVAL_TTL_SECS),
                ),
                trace,
            )
        },
        Err(e) => {
            let note = "Scheduler submission failed: ".to_owned().concat(e.as_str());
            let _ = store.transition(&task_id, TaskStatus::Failed, Some(note), now);
            let reason = "Approval submission failed: ".to_owned().concat(e.as_str());
            (deny(reason, at.policy_id, DenySource::GovernanceRule), at.trace)
        },
    }
}

} // verus!
