//! The service that transports talk to: heartbeats, the shutdown flag and the
//! state of approvals.

use vstd::prelude::*;
use vstd::string::*;

use crate::config::schema::copy_opt_text;
use crate::governance::api::{
    ApprovalOutcome, GovernanceDecision, GovernanceEvaluateResponse, TaskStatusResponse,
};
use crate::governance::evaluator::{forward, forwarded};
use crate::governance::task::maps::TaskEntry;
use crate::governance::task::status::TaskStatus;
use crate::governance::task::store::{decided_status, with_decision, TaskStore, Tasks};
use crate::governance::task::types::{ApprovalDecision, TaskView};
use crate::text::opt_text;
use crate::text_map::{distinct_keys, lemma_map_of, TextMap};
use crate::time::{Duration, Timestamp, NANOS_PER_SEC};

verus! {

/// Seconds without a heartbeat after which a shim is forgotten.
pub const STALE_SHIM_SECS: u64 = 15;

/// Heartbeat of a shim.
#[derive(Debug)]
pub struct HeartbeatRequest {
    /// MCP server identifier.
    pub server_id: String,
}

/// Answer to a heartbeat.
#[derive(Debug, Clone, Copy, PartialEq, Eq, Structural)]
pub struct HeartbeatResponse {
    /// Whether the shim must shut down.
    pub shutdown: bool,
}

/// State of the service: the shutdown flag, and when each shim was last heard of.
pub struct GovernanceServiceState {
    shutdown: bool,
    shims: TextMap<Timestamp>,
}

/// Whether a shim that was last heard of at a time is forgotten.
pub open spec fn stale(last_seen: Timestamp, now: Timestamp) -> bool {
    now.since(last_seen).nanos >= STALE_SHIM_SECS * NANOS_PER_SEC
}

/// The shims that are not forgotten.
pub open spec fn fresh_shims(shims: Map<Seq<char>, Timestamp>, now: Timestamp) -> Map<
    Seq<char>,
    Timestamp,
> {
    Map::new(
        |id: Seq<char>| shims.contains_key(id) && !stale(shims[id], now),
        |id: Seq<char>| shims[id],
    )
}

/// The response to a message: the evaluator's, or forwarding if there is no
/// evaluator, with the shutdown flag.
pub open spec fn stamped(
    answer: Option<GovernanceEvaluateResponse<Seq<char>>>,
    shutdown: bool,
) -> GovernanceEvaluateResponse<Seq<char>> {
    GovernanceEvaluateResponse {
        shutdown,
        ..match answer {
            Some(a) => a,
            None => forwarded(None),
        }
    }
}

/// The outcome of an approval and its reason: the decision on record, else what
/// a status that ends the wait tells.
pub open spec fn outcome_of(task: TaskView) -> (Option<ApprovalOutcome>, Option<Seq<char>>) {
    match task.approval {
        Some(approval) => match approval.decision {
            ApprovalDecision::Approved => (Some(ApprovalOutcome::Approved), None),
            ApprovalDecision::Rejected { reason } => (Some(ApprovalOutcome::Rejected), reason),
        },
        None => match task.status {
            TaskStatus::Expired => (Some(ApprovalOutcome::Expired), None),
            TaskStatus::Cancelled => (Some(ApprovalOutcome::Cancelled), None),
            _ => (None, None),
        },
    }
}

/// What a transport is told of a task; `None` if there is no such task.
pub open spec fn status_of(tasks: Tasks, id: Seq<char>) -> Option<TaskStatusResponse<Seq<char>>> {
    if tasks.contains_key(id) {
        let task = tasks[id].task;
        Some(
            TaskStatusResponse {
                task_id: id,
                status: task.status,
                decision: outcome_of(task).0,
                reason: outcome_of(task).1,
            },
        )
    } else {
        None
    }
}

/// What each gate said of a message, as it is noted for tracing. `T` holds a
/// text.
#[derive(Debug)]
pub struct GateOutcomes<T = String> {
    /// Gate 1.
    pub visibility: Option<T>,
    /// Gate 2.
    pub governance: Option<T>,
    /// Gate 3.
    pub cedar: Option<T>,
    /// Gate 4.
    pub approval: Option<T>,
    /// Cedar policy ID.
    pub governance_rule_id: Option<T>,
    /// Whether a policy was evaluated.
    pub policy_evaluated: bool,
}

impl GateOutcomes {
    /// The outcomes with their strings taken as character sequences.
    pub open spec fn view(self) -> GateOutcomes<Seq<char>> {
        GateOutcomes {
            visibility: opt_text(self.visibility),
            governance: opt_text(self.governance),
            cedar: opt_text(self.cedar),
            approval: opt_text(self.approval),
            governance_rule_id: opt_text(self.governance_rule_id),
            policy_evaluated: self.policy_evaluated,
        }
    }
}

/// What is noted of a response.
pub open spec fn outcomes_of(r: GovernanceEvaluateResponse<Seq<char>>) -> GateOutcomes<Seq<char>> {
    GateOutcomes {
        visibility: Some("pass"@),
        governance: Some(
            match r.decision {
                GovernanceDecision::Forward => "forward"@,
                GovernanceDecision::Deny => "deny"@,
                GovernanceDecision::PendingApproval => "approve"@,
            },
        ),
        cedar: match r.policy_id {
            Some(_) => Some(
                if r.decision == GovernanceDecision::Deny {
                    "deny"@
                } else {
                    "allow"@
                },
            ),
            None => None,
        },
        approval: match r.task_id {
            Some(_) => Some("started"@),
            None => None,
        },
        governance_rule_id: r.policy_id,
        policy_evaluated: r.policy_id is Some,
    }
}

/// Notes what each gate said of a message.
pub fn gate_outcomes(response: &GovernanceEvaluateResponse) -> (r: GateOutcomes)
    ensures
        r@ == outcomes_of(response@),
{
    GateOutcomes {
        visibility: Some("pass".to_owned()),
        governance: Some(
            match response.decision {
                GovernanceDecision::Forward => "forward".to_owned(),
                GovernanceDecision::Deny => "deny".to_owned(),
                GovernanceDecision::PendingApproval => "approve".to_owned(),
            },
        ),
        cedar: match &response.policy_id {
            Some(_) => Some(
                match response.decision {
                    GovernanceDecision::Deny => "deny".to_owned(),
                    _ => "allow".to_owned(),
                },
            ),
            None => None,
        },
        approval: match &response.task_id {
            Some(_) => Some("started".to_owned()),
            None => None,
        },
        governance_rule_id: copy_opt_text(&response.policy_id),
        policy_evaluated: response.policy_id.is_some(),
    }
}

/// Tells a transport the state of an approval task.
pub fn task_status(store: &TaskStore, task_id: &String) -> (r: Option<TaskStatusResponse>)
    ensures
        match r {
            Some(s) => status_of(store@, task_id@) == Some(s@),
            None => status_of(store@, task_id@) is None,
        },
{
    let task = match store.get(task_id) {
        Ok(task) => task,
        Err(_) => {
            return None;
        },
    };
    let (decision, reason) = match &task.approval {
        Some(approval) => match &approval.decision {
            ApprovalDecision::Approved => (Some(ApprovalOutcome::Approved), None),
            ApprovalDecision::Rejected { reason } => {
                (Some(ApprovalOutcome::Rejected), copy_opt_text(reason))
            },
        },
        None => match task.status {
            TaskStatus::Expired => (Some(ApprovalOutcome::Expired), None),
            TaskStatus::Cancelled => (Some(ApprovalOutcome::Cancelled), None),
            _ => (None, None),
        },
    };
    Some(
        TaskStatusResponse { task_id: task_id.clone(), status: task.status, decision, reason },
    )
}

impl GovernanceServiceState {
    /// Whether the service is shutting down.
    pub closed spec fn shutting_down(self) -> bool {
        self.shutdown
    }

    /// When each shim was last heard of.
    pub closed spec fn last_seen(self) -> Map<Seq<char>, Timestamp> {
        self.shims@
    }

    /// Creates the state of a service that has heard of no shim.
    pub fn new() -> (r: Self)
        ensures
            !r.shutting_down(),
            r.last_seen() == Map::<Seq<char>, Timestamp>::empty(),
    {
        GovernanceServiceState { shutdown: false, shims: TextMap::new() }
    }

    /// Returns whether the service is shutting down.
    pub fn is_shutdown(&self) -> (r: bool)
        ensures
            r == self.shutting_down(),
    {
        self.shutdown
    }

    /// Returns when each shim was last heard of.
    pub fn shims(&self) -> (r: &TextMap<Timestamp>)
        ensures
            r@ == self.last_seen(),
    {
        &self.shims
    }

    /// Begins the shutdown, of which every later response tells.
    pub fn trigger_shutdown(&mut self)
        ensures
            final(self).shutting_down(),
            final(self).last_seen() == old(self).last_seen(),
    {
        self.shutdown = true;
    }

    /// Forgets the shims that have not been heard of for a while. Returns how
    /// many were forgotten.
    pub fn cleanup_stale_shims(&mut self, now: Timestamp) -> (r: usize)
        ensures
            final(self).last_seen() == fresh_shims(old(self).last_seen(), now),
            final(self).shutting_down() == old(self).shutting_down(),
            r == old(self).last_seen().dom().len() - final(self).last_seen().dom().len(),
    {
        let before: usize = self.shims.len();
        let mut kept: TextMap<Timestamp> = TextMap::new();
        let mut i: usize = 0;
        proof {
            lemma_map_of(self.shims.items());
        }
        while i < self.shims.len()
            invariant
                i <= self.shims.items().len(),
                distinct_keys(self.shims.items()),
                forall|id: Seq<char>| #[trigger]
                    kept@.contains_key(id) <==> exists|j: int|
                        0 <= j < i && (#[trigger] self.shims.items()[j]).0 == id && !stale(
                            self.shims.items()[j].1,
                            now,
                        ),
                forall|id: Seq<char>| #[trigger]
                    kept@.contains_key(id) ==> self.shims@.contains_key(id) && kept@[id]
                        == self.shims@[id],
                forall|j: int|
                    0 <= j < self.shims.items().len() ==> self.shims@.contains_key(
                        (#[trigger] self.shims.items()[j]).0,
                    ) && self.shims@[self.shims.items()[j].0] == self.shims.items()[j].1,
            decreases self.shims.items().len() - i,
        {
            let seen: Timestamp = *self.shims.value_at(i);
            let fresh = now.elapsed_since(seen).nanos < STALE_SHIM_SECS as u128 * NANOS_PER_SEC;
            if fresh {
                kept.insert(self.shims.key_at(i).clone(), seen);
            }
            i = i + 1;
        }
        let after: usize = kept.len();
        proof {
            lemma_map_of(kept.items());
            assert forall|id: Seq<char>| #[trigger]
                fresh_shims(self.shims@, now).contains_key(id) implies kept@.contains_key(id) by {
                let j = choose|j: int|
                    0 <= j < self.shims.items().len() && (#[trigger] self.shims.items()[j]).0 == id;
                assert(self.shims@[id] == self.shims.items()[j].1);
            }
            assert(kept@ =~= fresh_shims(self.shims@, now));
            assert(kept@.dom().subset_of(self.shims@.dom()));
            vstd::set_lib::lemma_len_subset(kept@.dom(), self.shims@.dom());
        }
        self.shims = kept;
        before - after
    }

    /// Notes a heartbeat, forgets the shims that have not been heard of for a
    /// while, and answers with the shutdown flag.
    pub fn heartbeat(&mut self, request: HeartbeatRequest, now: Timestamp) -> (r: HeartbeatResponse)
        ensures
            r.shutdown == old(self).shutting_down(),
            final(self).shutting_down() == old(self).shutting_down(),
            final(self).last_seen() == fresh_shims(
                old(self).last_seen().insert(request.server_id@, now),
                now,
            ),
    {
        self.shims.insert(request.server_id, now);
        let _ = self.cleanup_stale_shims(now);
        HeartbeatResponse { shutdown: self.shutdown }
    }
}

/// Puts the shutdown flag, as it was when the message came in, on the evaluator's
/// response; without an evaluator (`None`) every message is forwarded.
pub fn respond(shutdown: bool, answer: Option<GovernanceEvaluateResponse>) -> (r:
    GovernanceEvaluateResponse)
    ensures
        r@ == stamped(
            match answer {
                Some(a) => Some(a@),
                None => None,
            },
            shutdown,
        ),
{
    let mut response = match answer {
        Some(a) => a,
        None => forward(None),
    };
    response.shutdown = shutdown;
    response
}

impl Default for GovernanceServiceState {
    fn default() -> (r: Self)
        ensures
            !r.shutting_down(),
            r.last_seen() == Map::<Seq<char>, Timestamp>::empty(),
    {
        GovernanceServiceState::new()
    }
}

/// A shim that sends a heartbeat is never forgotten by it.
pub proof fn law_heartbeat_keeps_its_sender(
    shims: Map<Seq<char>, Timestamp>,
    id: Seq<char>,
    now: Timestamp,
)
    ensures
        fresh_shims(shims.insert(id, now), now).contains_key(id),
        fresh_shims(shims.insert(id, now), now)[id] == now,
{
}

/// A decision that has been recorded on a task is what a transport is told of it.
pub proof fn law_decision_is_reported(
    tasks: Tasks,
    id: Seq<char>,
    decision: ApprovalDecision<Seq<char>>,
    decided_by: Seq<char>,
    valid_for: Duration,
    now: Timestamp,
    terminal_at: Option<Timestamp>,
)
    ensures
        ({
            let task = with_decision(tasks[id].task, decision, decided_by, valid_for, now);
            let r = status_of(tasks.insert(id, TaskEntry { task, terminal_at }), id);
            &&& r is Some
            &&& r->0.status == decided_status(decision)
            &&& match decision {
                ApprovalDecision::Approved => r->0.decision == Some(ApprovalOutcome::Approved)
                    && r->0.reason is None,
                ApprovalDecision::Rejected { reason } => r->0.decision == Some(
                    ApprovalOutcome::Rejected,
                ) && r->0.reason == reason,
            }
        }),
{
}

/// A response is passed on as it is, with the shutdown flag put on it; without an
/// evaluator the message is forwarded.
pub proof fn law_responses_are_passed_on(
    answer: GovernanceEvaluateResponse<Seq<char>>,
    shutdown: bool,
)
    ensures
        ({
            let told = stamped(Some(answer), shutdown);
            &&& told.decision == answer.decision
            &&& told.task_id == answer.task_id
            &&& told.policy_id == answer.policy_id
            &&& told.reason == answer.reason
            &&& told.poll_interval_ms == answer.poll_interval_ms
            &&& told.timeout_secs == answer.timeout_secs
            &&& told.deny_source == answer.deny_source
            &&& told.shutdown == shutdown
        }),
        stamped(None, shutdown).decision == GovernanceDecision::Forward,
        stamped(None, shutdown).shutdown == shutdown,
        stamped(None, shutdown).task_id is None,
{
}

/// A shim is forgotten exactly if it has not been heard of for fifteen seconds or
/// longer; of the others it is remembered when they were last heard of.
pub proof fn law_silent_shims_are_forgotten(
    shims: Map<Seq<char>, Timestamp>,
    id: Seq<char>,
    now: Timestamp,
)
    ensures
        fresh_shims(shims, now).contains_key(id) <==> shims.contains_key(id) && now.nanos
            - shims[id].nanos < 15_000_000_000,
        fresh_shims(shims, now).contains_key(id) ==> fresh_shims(shims, now)[id] == shims[id],
{
}

/// A transport is told a task's own status, and how it was decided: by the decision
/// on record, whatever the status; without one, that it expired or was cancelled;
/// else that nothing is decided yet. Of a task that is not there it is told nothing.
pub proof fn law_transports_are_told_the_state(tasks: Tasks, id: Seq<char>)
    ensures
        ({
            let told = status_of(tasks, id);
            let task = tasks[id].task;
            &&& told is Some <==> tasks.contains_key(id)
            &&& told is Some ==> {
                &&& told->0.task_id == id
                &&& told->0.status == task.status
                &&& task.approval is Some && task.approval->0.decision is Approved
                    ==> told->0.decision == Some(ApprovalOutcome::Approved) && told->0.reason
                    is None
                &&& task.approval is Some && task.approval->0.decision is Rejected
                    ==> told->0.decision == Some(ApprovalOutcome::Rejected) && told->0.reason
                    == task.approval->0.decision->reason
                &&& task.approval is None && task.status is Expired ==> told->0.decision == Some(
                    ApprovalOutcome::Expired,
                )
                &&& task.approval is None && task.status is Cancelled ==> told->0.decision
                    == Some(ApprovalOutcome::Cancelled)
                &&& task.approval is None && !(task.status is Expired) && !(task.status
                    is Cancelled) ==> told->0.decision is None && told->0.reason is None
            }
        }),
{
}

/// What is noted of a response: what gate 2 led to, what the policy engine said if a
/// policy is named, and that an approval was started if a task is.
pub proof fn law_outcomes_follow_the_response(r: GovernanceEvaluateResponse<Seq<char>>)
    ensures
        ({
            let noted = outcomes_of(r);
            &&& r.decision == GovernanceDecision::Forward ==> noted.governance == Some(
                "forward"@,
            )
            &&& r.decision == GovernanceDecision::Deny ==> noted.governance == Some("deny"@)
            &&& r.decision == GovernanceDecision::PendingApproval ==> noted.governance == Some(
                "approve"@,
            )
            &&& noted.cedar is Some <==> r.policy_id is Some
            &&& r.policy_id is Some && r.decision == GovernanceDecision::Deny ==> noted.cedar
                == Some("deny"@)
            &&& r.policy_id is Some && r.decision != GovernanceDecision::Deny ==> noted.cedar
                == Some("allow"@)
            &&& r.task_id is Some ==> noted.approval == Some("started"@)
            &&& r.task_id is None ==> noted.approval is None
            &&& noted.governance_rule_id == r.policy_id
            &&& noted.policy_evaluated <==> r.policy_id is Some
        }),
{
}

} // verus!
