//! The life of a task: creation, expiry and transitions.

use vstd::prelude::*;
use vstd::string::*;

use crate::config::schema::TimeoutAction;
use crate::governance::task::error::TaskError;
use crate::governance::task::helpers::{
    compute_poll_interval, depth_message, hash_request, poll_interval, request_hash, too_deep,
};
use crate::governance::task::status::TaskStatus;
use crate::governance::task::types::{
    trail, Principal, PrincipalView, RequestView, Task, TaskId, TaskTransition, TaskView,
    ToolCallRequest,
};
use crate::text::opt_text;
use crate::time::{Duration, Timestamp, NANOS_PER_MILLI};

verus! {

/// The longest time to live that is taken as it is, in milliseconds.
pub const MAX_TTL_MILLIS: u128 = 9_223_372_036_854_775_807;

/// The time to live in place of a longer one: thirty days, in seconds.
pub const CLAMPED_TTL_SECS: u64 = 2_592_000;

/// The time to live that is counted from a task's creation.
pub open spec fn counted_ttl(ttl: Duration) -> Duration {
    if ttl.nanos > MAX_TTL_MILLIS * NANOS_PER_MILLI {
        Duration::of_secs(CLAMPED_TTL_SECS as nat)
    } else {
        ttl
    }
}

/// A new task.
pub open spec fn new_task(
    id: Seq<char>,
    original: RequestView,
    transformed: RequestView,
    principal: PrincipalView,
    ttl: Duration,
    on_timeout: TimeoutAction,
    now: Timestamp,
) -> TaskView {
    Task {
        id,
        original_request: original,
        pre_approval_transformed: transformed,
        request_hash: request_hash(transformed),
        principal,
        created_at: now,
        ttl,
        expires_at: now.after(counted_ttl(ttl)),
        poll_interval: poll_interval(ttl),
        status: TaskStatus::Working,
        status_message: None,
        transitions: Seq::empty(),
        approval: None,
        result: None,
        failure: None,
        on_timeout,
    }
}

/// Why a task cannot go to a status: it is in a terminal state, or the state
/// machine has no such step.
pub open spec fn transition_error(task: TaskView, to: TaskStatus) -> Option<TaskError<Seq<char>>> {
    if task.status.terminal() {
        Some(TaskError::AlreadyTerminal { task_id: task.id, status: task.status })
    } else if !task.status.steps_to(to) {
        Some(TaskError::InvalidTransition { task_id: task.id, from: task.status, to })
    } else {
        None
    }
}

/// A task after a step to a status: the step is noted in the audit trail, and
/// the poll interval follows the time that is left.
pub open spec fn stepped(
    task: TaskView,
    to: TaskStatus,
    reason: Option<Seq<char>>,
    now: Timestamp,
) -> TaskView {
    Task {
        status: to,
        transitions: task.transitions.push(
            TaskTransition { from: task.status, to, at: now, reason },
        ),
        poll_interval: poll_interval(task.expires_at.since(now)),
        ..task
    }
}

impl Task {
    /// Creates a new task in the state Working. Fails where the arguments are
    /// nested too deeply to be hashed.
    pub fn new(
        id: TaskId,
        original_request: ToolCallRequest,
        pre_approval_transformed: ToolCallRequest,
        principal: Principal,
        ttl: Duration,
        on_timeout: TimeoutAction,
        now: Timestamp,
    ) -> (r: Result<Self, String>)
        ensures
            match r {
                Ok(t) => {
                    &&& !too_deep(pre_approval_transformed.arguments@, 0)
                    &&& t@ == new_task(
                        id@,
                        original_request@,
                        pre_approval_transformed@,
                        principal@,
                        ttl,
                        on_timeout,
                        now,
                    )
                },
                Err(e) => too_deep(pre_approval_transformed.arguments@, 0) && e@
                    == depth_message(),
            },
    {
        let counted = if ttl.nanos > MAX_TTL_MILLIS * NANOS_PER_MILLI {
            Duration::from_secs(CLAMPED_TTL_SECS)
        } else {
            ttl
        };
        let expires_at = now.plus(counted);
        let request_hash = match hash_request(&pre_approval_transformed) {
            Ok(h) => h,
            Err(e) => {
                return Err(e);
            },
        };
        let poll_interval = compute_poll_interval(ttl);
        let transitions: Vec<TaskTransition> = Vec::new();
        assert(trail(transitions@) =~= Seq::<TaskTransition<Seq<char>>>::empty());
        Ok(
            Task {
                id,
                original_request,
                pre_approval_transformed,
                request_hash,
                principal,
                created_at: now,
                ttl,
                expires_at,
                poll_interval,
                status: TaskStatus::Working,
                status_message: None,
                transitions,
                approval: None,
                result: None,
                failure: None,
                on_timeout,
            },
        )
    }

    /// Returns true if the task has expired.
    pub fn is_expired(&self, now: Timestamp) -> (r: bool)
        ensures
            r == (now.nanos > self.expires_at.nanos),
    {
        now.nanos > self.expires_at.nanos
    }

    /// Returns the remaining time to live.
    pub fn remaining_ttl(&self, now: Timestamp) -> (r: Duration)
        ensures
            r == self.expires_at.since(now),
    {
        self.expires_at.elapsed_since(now)
    }

    /// Transitions the task to a new status.
    pub fn transition(
        &mut self,
        new_status: TaskStatus,
        reason: Option<String>,
        now: Timestamp,
    ) -> (r: Result<(), TaskError>)
        ensures
            match r {
                Ok(_) => transition_error(old(self)@, new_status) is None && final(self)@
                    == stepped(old(self)@, new_status, opt_text(reason), now),
                Err(e) => transition_error(old(self)@, new_status) == Some(e@) && *final(self)
                    == *old(self),
            },
    {
        if self.status.is_terminal() {
            return Err(
                TaskError::AlreadyTerminal { task_id: self.id.clone(), status: self.status },
            );
        }
        if !self.status.can_transition_to(new_status) {
            return Err(
                TaskError::InvalidTransition {
                    task_id: self.id.clone(),
                    from: self.status,
                    to: new_status,
                },
            );
        }
        self.enter(new_status, reason, now);
        Ok(())
    }

    /// Enters a status, whether or not the state machine has such a step, and
    /// notes it in the audit trail.
    pub(crate) fn enter(&mut self, new_status: TaskStatus, reason: Option<String>, now: Timestamp)
        ensures
            final(self)@ == stepped(old(self)@, new_status, opt_text(reason), now),
    {
        let step = TaskTransition { from: self.status, to: new_status, at: now, reason };
        let ghost before = self.transitions@;
        self.transitions.push(step);
        assert(trail(self.transitions@) =~= trail(before).push(step@));
        self.status = new_status;
        self.poll_interval = compute_poll_interval(self.remaining_ttl(now));
    }

    /// Transitions with optimistic locking: only from the expected status.
    pub fn transition_if(
        &mut self,
        expected_status: TaskStatus,
        new_status: TaskStatus,
        reason: Option<String>,
        now: Timestamp,
    ) -> (r: Result<(), TaskError>)
        ensures
            match r {
                Ok(_) => guarded_error(old(self)@, expected_status, new_status) is None
                    && final(self)@ == stepped(old(self)@, new_status, opt_text(reason), now),
                Err(e) => guarded_error(old(self)@, expected_status, new_status) == Some(e@)
                    && *final(self) == *old(self),
            },
    {
        if self.status != expected_status {
            return Err(
                TaskError::ConcurrentModification {
                    task_id: self.id.clone(),
                    expected: expected_status,
                    actual: self.status,
                },
            );
        }
        self.transition(new_status, reason, now)
    }
}

/// Why a task cannot go from an expected status to another.
pub open spec fn guarded_error(task: TaskView, expected: TaskStatus, to: TaskStatus) -> Option<
    TaskError<Seq<char>>,
> {
    if task.status != expected {
        Some(
            TaskError::ConcurrentModification {
                task_id: task.id,
                expected,
                actual: task.status,
            },
        )
    } else {
        transition_error(task, to)
    }
}

/// Whether a change of status may stand in an audit trail: it is a step of the
/// state machine, the note of an execution after expiry, or the failure of a task
/// that awaited approval when the service shut down.
pub open spec fn traceable(from: TaskStatus, to: TaskStatus) -> bool {
    ||| from.steps_to(to)
    ||| from is Expired && to is Expired
    ||| from is InputRequired && to is Failed
}

/// Whether an audit trail tells a task's life: it begins in the state Working,
/// each entry begins where the one before ended and may stand in a trail, and the
/// last one ends in the task's status.
pub open spec fn consistent_trail(task: TaskView) -> bool {
    let steps = task.transitions;
    &&& forall|i: int|
        0 <= i < steps.len() ==> traceable((#[trigger] steps[i]).from, steps[i].to)
    &&& forall|i: int, j: int|
        0 <= i && j == i + 1 && j < steps.len() ==> (#[trigger] steps[i]).to == (
        #[trigger] steps[j]).from
    &&& if steps.len() == 0 {
        task.status is Working
    } else {
        steps[0].from is Working && steps.last().to == task.status
    }
}

/// A new task's audit trail is consistent.
pub proof fn law_new_task_is_consistent(
    id: Seq<char>,
    original: RequestView,
    transformed: RequestView,
    principal: PrincipalView,
    ttl: Duration,
    on_timeout: TimeoutAction,
    now: Timestamp,
)
    ensures
        consistent_trail(new_task(id, original, transformed, principal, ttl, on_timeout, now)),
{
}

/// A step that is allowed keeps the audit trail consistent.
pub proof fn law_step_keeps_trail(
    task: TaskView,
    to: TaskStatus,
    reason: Option<Seq<char>>,
    now: Timestamp,
)
    requires
        consistent_trail(task),
        transition_error(task, to) is None,
    ensures
        consistent_trail(stepped(task, to, reason, now)),
{
    lemma_traceable_step(task, to, reason, now);
}

/// A change of status that may stand in an audit trail keeps it consistent.
pub proof fn lemma_traceable_step(
    task: TaskView,
    to: TaskStatus,
    reason: Option<Seq<char>>,
    now: Timestamp,
)
    requires
        consistent_trail(task),
        traceable(task.status, to),
    ensures
        consistent_trail(stepped(task, to, reason, now)),
{
    let after = stepped(task, to, reason, now);
    let steps = after.transitions;
    assert forall|i: int| 0 <= i < steps.len() implies traceable(
        (#[trigger] steps[i]).from,
        steps[i].to,
    ) by {
        if i < task.transitions.len() {
            assert(steps[i] == task.transitions[i]);
        }
    }
    assert forall|i: int, j: int| 0 <= i && j == i + 1 && j < steps.len() implies (
    #[trigger] steps[i]).to == (#[trigger] steps[j]).from by {
        assert(steps[i] == task.transitions[i]);
        if j < task.transitions.len() {
            assert(steps[j] == task.transitions[j]);
        } else {
            assert(task.transitions[i] == task.transitions.last());
        }
    }
    if task.transitions.len() > 0 {
        assert(steps[0] == task.transitions[0]);
    }
}

/// Once a trail has come to the state Expired, it holds nothing but notes of
/// executions after expiry.
proof fn lemma_notes_after_expiry(task: TaskView, i: int, j: int)
    requires
        consistent_trail(task),
        0 <= i < j < task.transitions.len(),
        task.transitions[i].to is Expired,
    ensures
        task.transitions[j].from is Expired,
        task.transitions[j].to is Expired,
    decreases j - i,
{
    if i + 1 < j {
        lemma_notes_after_expiry(task, i, j - 1);
    }
    assert(task.transitions[j - 1].to == task.transitions[j].from);
    assert(traceable(task.transitions[j].from, task.transitions[j].to));
}

/// A task changes its status at most three times: the changes are the first
/// entries of its trail, and whatever follows them are notes of executions after
/// expiry. A task that has expired has changed its status at most twice.
pub proof fn law_status_changes_three_times(task: TaskView)
    requires
        consistent_trail(task),
    ensures
        forall|i: int|
            0 <= i < task.transitions.len() && (#[trigger] task.transitions[i]).from
                != task.transitions[i].to ==> i < if task.status is Expired {
                2int
            } else {
                3
            },
        !(task.status is Expired) ==> task.transitions.len() <= 3,
        forall|i: int|
            0 <= i < task.transitions.len() && (#[trigger] task.transitions[i]).from
                == task.transitions[i].to ==> task.transitions[i].from is Expired,
        task.transitions.len() > 2 && task.status is Expired ==> task.transitions.last().from
            is Expired,
{
    let steps = task.transitions;
    let n = steps.len() as int;
    if n > 0 {
        assert(traceable(steps[0].from, steps[0].to));
        if n > 1 {
            assert(steps[0].to == steps[1].from);
            assert(traceable(steps[1].from, steps[1].to));
        }
        if n > 2 {
            assert(steps[1].to == steps[2].from);
            assert(traceable(steps[2].from, steps[2].to));
        }
        if n > 3 {
            assert(steps[2].to == steps[3].from);
            assert(traceable(steps[3].from, steps[3].to));
        }
        assert forall|j: int| 2 <= j < n && (n > 3 || task.status is Expired) implies (
        #[trigger] steps[j]).from is Expired && steps[j].to is Expired by {
            if steps[0].to is Expired {
                lemma_notes_after_expiry(task, 0, j);
            } else if steps[1].to is Expired {
                lemma_notes_after_expiry(task, 1, j);
            }
        }
        assert forall|i: int|
            0 <= i < n && (#[trigger] steps[i]).from == steps[i].to implies steps[i].from
            is Expired by {
            assert(traceable(steps[i].from, steps[i].to));
        }
    }
}

/// A terminal task stays as it is: no transition succeeds.
pub proof fn law_terminal_tasks_are_immutable(task: TaskView, to: TaskStatus)
    requires
        task.status.terminal(),
    ensures
        transition_error(task, to) == Some(
            TaskError::<Seq<char>>::AlreadyTerminal { task_id: task.id, status: task.status },
        ),
{
}

} // verus!
