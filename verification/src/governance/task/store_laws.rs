//! What holds of the task store across its operations.

use vstd::prelude::*;

use crate::config::schema::TimeoutAction;
use crate::governance::task::error::TaskError;
use crate::governance::task::helpers::{
    request_hash, some_item_too_deep, some_member_too_deep, too_deep,
};
use crate::governance::task::life::{
    guarded_error, new_task, stepped, transition_error, MAX_TTL_MILLIS,
};
use crate::governance::task::maps::TaskEntry;
use crate::governance::task::status::TaskStatus;
use crate::governance::task::store::{
    cancel_error, cancelled, clamped_ttl, completed, create_error, entries_in_order,
    entry_after_expiry, entry_after_fail, expired_entry, expires, failed, grace_period, overdue_in,
    page, pending_in, pending_of, removable_in, status_error, tasks_after_fail, tasks_with,
    with_decision, TaskStore, TaskStoreConfig, Tasks,
};
use crate::governance::task::types::{
    ApprovalDecision, FailureInfo, PrincipalView, RequestView, TaskView, ToolCallResult,
};
use crate::json::JsonView;
use crate::time::{Duration, Timestamp};

verus! {

/// The limits on pending tasks hold in every state of a store, in all and for
/// each principal.
pub proof fn law_limits_hold(store: TaskStore, key: Seq<char>)
    requires
        store.wf(),
    ensures
        pending_in(store@).len() <= store.settings().max_pending_global,
        pending_of(store@, key).len() <= store.settings().max_pending_per_principal,
{
    store.lemma_wf();
}

/// One principal at its limit does not keep another from creating tasks while
/// the store has room.
pub proof fn law_principals_are_independent(
    tasks: Tasks,
    config: TaskStoreConfig,
    key: Seq<char>,
    arguments: JsonView,
)
    requires
        pending_in(tasks).len() < config.max_pending_global,
        pending_of(tasks, key).len() < config.max_pending_per_principal,
    ensures
        !(create_error(tasks, config, key, arguments) matches Some(TaskError::CapacityExceeded)),
        !(create_error(tasks, config, key, arguments) matches Some(TaskError::RateLimited { .. })),
{
}

/// No operation that changes a task's status does so once the task is terminal.
pub proof fn law_terminal_tasks_refuse(
    task: TaskView,
    expected: TaskStatus,
    to: TaskStatus,
)
    requires
        task.status.terminal(),
    ensures
        transition_error(task, to) is Some,
        guarded_error(task, expected, to) is Some,
        status_error(task, TaskStatus::InputRequired) is Some,
        status_error(task, TaskStatus::Executing) is Some,
        !(task.status is Cancelled) ==> cancel_error(task) is Some,
{
}

/// Expiry and shutdown leave terminal tasks as they are.
pub proof fn law_sweeps_spare_terminal_tasks(
    tasks: Tasks,
    id: Seq<char>,
    failure: FailureInfo<Seq<char>>,
    now: Timestamp,
)
    requires
        tasks.contains_key(id),
        tasks[id].task.status.terminal(),
    ensures
        tasks_with(tasks, tasks.dom(), entry_after_expiry(now))[id] == tasks[id],
        tasks_with(tasks, tasks.dom(), entry_after_fail(failure, now))[id] == tasks[id],
{
}

/// After overdue tasks have expired, none is left that could.
pub proof fn law_expiry_is_complete(tasks: Tasks, now: Timestamp)
    ensures
        overdue_in(tasks_with(tasks, tasks.dom(), entry_after_expiry(now)), now) == Set::<
            Seq<char>,
        >::empty(),
{
    let after = tasks_with(tasks, tasks.dom(), entry_after_expiry(now));
    assert forall|id: Seq<char>| !overdue_in(after, now).contains(id) by {
        if after.contains_key(id) {
            assert(after[id] == entry_after_expiry(now)(tasks[id]));
        }
    }
    assert(overdue_in(after, now) =~= Set::<Seq<char>>::empty());
}

/// A task never expires before its time, and never while it is being executed.
pub proof fn law_no_early_expiry(entry: TaskEntry<TaskView>, now: Timestamp)
    requires
        now.nanos <= entry.task.expires_at.nanos || entry.task.status is Executing,
    ensures
        entry_after_expiry(now)(entry) == entry,
{
}

/// After a shutdown no pending task is left: every task that was pending, one that
/// awaited approval too, has failed with the failure that was given.
pub proof fn law_shutdown_stops_work(
    tasks: Tasks,
    failure: FailureInfo<Seq<char>>,
    now: Timestamp,
)
    ensures
        ({
            let after = tasks_with(tasks, tasks.dom(), entry_after_fail(failure, now));
            &&& pending_in(after) == Set::<Seq<char>>::empty()
            &&& forall|id: Seq<char>| #[trigger]
                pending_in(tasks).contains(id) ==> after.contains_key(id)
                    && after[id].task.status is Failed && after[id].task.failure == Some(failure)
                    && after[id].terminal_at == Some(now)
        }),
{
    let after = tasks_with(tasks, tasks.dom(), entry_after_fail(failure, now));
    assert forall|id: Seq<char>| !pending_in(after).contains(id) by {
        if after.contains_key(id) {
            assert(after[id] == entry_after_fail(failure, now)(tasks[id]));
        }
    }
    assert(pending_in(after) =~= Set::<Seq<char>>::empty());
}

/// Cleaning up removes terminal tasks only.
pub proof fn law_cleanup_spares_pending_tasks(
    tasks: Tasks,
    grace: Duration,
    now: Timestamp,
    id: Seq<char>,
)
    requires
        entries_in_order(tasks),
        removable_in(tasks, grace, now).contains(id),
    ensures
        tasks[id].task.status.terminal(),
{
    assert(tasks.contains_key(id));
}

/// Whether two tasks are about the same work: the same calls with the same hash, of
/// the same principal, within the same time and with the same action on timeout.
pub open spec fn same_work(a: TaskView, b: TaskView) -> bool {
    &&& a.id == b.id
    &&& a.original_request == b.original_request
    &&& a.pre_approval_transformed == b.pre_approval_transformed
    &&& a.request_hash == b.request_hash
    &&& a.principal == b.principal
    &&& a.created_at == b.created_at
    &&& a.ttl == b.ttl
    &&& a.expires_at == b.expires_at
    &&& a.on_timeout == b.on_timeout
}

/// A step changes the status and nothing of the work; it is put at the end of the
/// trail with the time and the reason, and what was there before stays.
pub proof fn law_steps_are_noted(
    task: TaskView,
    to: TaskStatus,
    reason: Option<Seq<char>>,
    now: Timestamp,
)
    ensures
        ({
            let after = stepped(task, to, reason, now);
            &&& same_work(task, after)
            &&& after.status == to
            &&& after.approval == task.approval
            &&& after.result == task.result
            &&& after.failure == task.failure
            &&& after.transitions.len() == task.transitions.len() + 1
            &&& task.transitions.is_prefix_of(after.transitions)
            &&& after.transitions.last().from == task.status
            &&& after.transitions.last().to == to
            &&& after.transitions.last().at == now
            &&& after.transitions.last().reason == reason
        }),
{
    let after = stepped(task, to, reason, now);
    assert(after.transitions.drop_last() =~= task.transitions);
}

/// A new task is what was asked for: it holds both calls, the hash of the one that
/// is approved, and the principal, and it expires when its time to live has passed.
pub proof fn law_new_task_is_what_was_asked_for(
    id: Seq<char>,
    original: RequestView,
    transformed: RequestView,
    principal: PrincipalView,
    ttl: Duration,
    on_timeout: TimeoutAction,
    now: Timestamp,
)
    ensures
        ({
            let task = new_task(id, original, transformed, principal, ttl, on_timeout, now);
            &&& task.id == id
            &&& task.original_request == original
            &&& task.pre_approval_transformed == transformed
            &&& task.request_hash == request_hash(transformed)
            &&& task.principal == principal
            &&& task.created_at == now
            &&& task.ttl == ttl
            &&& task.on_timeout == on_timeout
            &&& task.status is Working
            &&& task.transitions.len() == 0
            &&& task.approval is None && task.result is None && task.failure is None
            &&& ttl.nanos <= MAX_TTL_MILLIS * 1_000_000 && now.nanos + ttl.nanos <= i128::MAX
                ==> task.expires_at.nanos == now.nanos + ttl.nanos
            &&& ttl.nanos > MAX_TTL_MILLIS * 1_000_000 && now.nanos + 2_592_000_000_000_000
                <= i128::MAX ==> task.expires_at.nanos == now.nanos + 2_592_000_000_000_000
        }),
{
}

/// The time to live of a new task is the one that is asked for, or the default, and
/// always within the limits.
pub proof fn law_lifetimes_are_within_limits(ttl: Option<Duration>, config: TaskStoreConfig)
    requires
        config.min_ttl.nanos <= config.max_ttl.nanos,
    ensures
        ({
            let given = clamped_ttl(ttl, config);
            let asked = if ttl is Some {
                ttl->0
            } else {
                config.default_ttl
            };
            &&& config.min_ttl.nanos <= given.nanos <= config.max_ttl.nanos
            &&& config.min_ttl.nanos <= asked.nanos <= config.max_ttl.nanos ==> given == asked
            &&& asked.nanos < config.min_ttl.nanos ==> given == config.min_ttl
            &&& asked.nanos > config.max_ttl.nanos ==> given == config.max_ttl
        }),
{
}

/// The pending tasks are those that are being processed, await a decision or are
/// being executed; those of a principal are the ones under its key.
pub proof fn law_pending_tasks_are_not_over(tasks: Tasks, key: Seq<char>, id: Seq<char>)
    ensures
        pending_in(tasks).contains(id) <==> tasks.contains_key(id) && (tasks[id].task.status
            is Working || tasks[id].task.status is InputRequired || tasks[id].task.status
            is Executing),
        pending_of(tasks, key).contains(id) <==> pending_in(tasks).contains(id)
            && tasks[id].task.principal.key() == key,
{
}

/// A task is refused exactly if the store is full, else if its principal is at its
/// limit, which it is then told with its key, else if the arguments are nested too
/// deeply.
pub proof fn law_creation_is_refused_at_the_limits(
    tasks: Tasks,
    config: TaskStoreConfig,
    key: Seq<char>,
    arguments: JsonView,
)
    ensures
        ({
            let error = create_error(tasks, config, key, arguments);
            let full = pending_in(tasks).len() >= config.max_pending_global;
            let busy = pending_of(tasks, key).len() >= config.max_pending_per_principal;
            &&& full <==> error == Some(TaskError::<Seq<char>>::CapacityExceeded)
            &&& !full && busy <==> error is Some && error->0 is RateLimited
            &&& error is Some && error->0 is RateLimited ==> error->0->principal == key
                && error->0->retry_after.nanos == 60_000_000_000
            &&& !full && !busy && too_deep(arguments, 0) <==> error is Some && error->0
                is Internal
            &&& error is None <==> !full && !busy && !too_deep(arguments, 0)
        }),
{
}

/// A decision is recorded as it was made: what was decided, by whom, when and how
/// long it holds. An approved task is then executed and a rejected one is over;
/// nothing of the work changes.
pub proof fn law_decision_is_recorded(
    task: TaskView,
    decision: ApprovalDecision<Seq<char>>,
    decided_by: Seq<char>,
    valid_for: Duration,
    now: Timestamp,
)
    ensures
        ({
            let after = with_decision(task, decision, decided_by, valid_for, now);
            &&& same_work(task, after)
            &&& after.approval is Some
            &&& after.approval->0.decision == decision
            &&& after.approval->0.decided_by == decided_by
            &&& after.approval->0.decided_at == now
            &&& valid_for.nanos <= MAX_TTL_MILLIS * 1_000_000 && now.nanos + valid_for.nanos
                <= i128::MAX ==> after.approval->0.approval_valid_until.nanos == now.nanos
                + valid_for.nanos
            &&& decision is Approved ==> after.status is Executing
            &&& decision is Rejected ==> after.status is Rejected
            &&& after.result == task.result && after.failure == task.failure
            &&& after.transitions.last().from == task.status
            &&& after.transitions.last().to == after.status
            &&& after.transitions.last().at == now
            &&& decision is Approved ==> after.transitions.last().reason == Some("Approved"@)
            &&& decision matches ApprovalDecision::Rejected { reason }
                ==> after.transitions.last().reason == match reason {
                Some(text) => Some(text),
                None => Some("Rejected"@),
            }
        }),
{
}

/// A task that ends holds why: the result if it completed, the failure if it
/// failed; one that was cancelled or expired holds neither of them anew. Nothing of
/// the work changes.
pub proof fn law_ends_are_recorded(
    entry: TaskEntry<TaskView>,
    result: ToolCallResult<JsonView>,
    failure: FailureInfo<Seq<char>>,
    now: Timestamp,
)
    ensures
        ({
            let task = entry.task;
            let done = completed(task, result, now);
            let broken = failed(task, failure, now);
            let gone = cancelled(task, now);
            let late = expired_entry(entry, now);
            &&& same_work(task, done) && same_work(task, broken) && same_work(task, gone)
                && same_work(task, late.task)
            &&& done.status is Completed && done.result == Some(result) && done.failure
                == task.failure && done.approval == task.approval
            &&& broken.status is Failed && broken.failure == Some(failure) && broken.result
                == task.result && broken.approval == task.approval
            &&& gone.status is Cancelled && gone.result == task.result && gone.failure
                == task.failure
            &&& late.task.status is Expired && late.terminal_at == Some(now) && late.task.result
                == task.result && late.task.failure == task.failure
            &&& done.transitions.last().at == now && done.transitions.last().from == task.status
            &&& broken.transitions.last().reason == Some(failure.reason)
        }),
{
}

/// How each status is entered: a task awaits a decision after it has been
/// processed, is executed, rejected or cancelled only while it awaits one,
/// completes only while it is executed, fails while it is processed or executed,
/// and expires while it is processed or awaits a decision. No task is processed
/// twice.
pub proof fn law_how_each_status_is_entered(from: TaskStatus)
    ensures
        !from.steps_to(TaskStatus::Working),
        from.steps_to(TaskStatus::InputRequired) <==> from is Working,
        from.steps_to(TaskStatus::Executing) <==> from is InputRequired,
        from.steps_to(TaskStatus::Rejected) <==> from is InputRequired,
        from.steps_to(TaskStatus::Cancelled) <==> from is InputRequired,
        from.steps_to(TaskStatus::Completed) <==> from is Executing,
        from.steps_to(TaskStatus::Failed) <==> from is Working || from is Executing,
        from.steps_to(TaskStatus::Expired) <==> from is Working || from is InputRequired,
        from.terminal() <==> !(from is Working) && !(from is InputRequired) && !(from
            is Executing),
{
}

/// A step is refused exactly if the task is over, the state machine has no such
/// step, or the status is not the expected one; the error tells which, with the
/// task and its status.
pub proof fn law_refused_steps_say_why(task: TaskView, expected: TaskStatus, to: TaskStatus)
    ensures
        transition_error(task, to) is None <==> task.status.steps_to(to),
        task.status.terminal() ==> transition_error(task, to) == Some(
            TaskError::<Seq<char>>::AlreadyTerminal { task_id: task.id, status: task.status },
        ),
        !task.status.terminal() && !task.status.steps_to(to) ==> transition_error(task, to)
            == Some(
            TaskError::<Seq<char>>::InvalidTransition {
                task_id: task.id,
                from: task.status,
                to,
            },
        ),
        guarded_error(task, expected, to) is None <==> task.status == expected
            && task.status.steps_to(to),
        task.status != expected ==> guarded_error(task, expected, to) == Some(
            TaskError::<Seq<char>>::ConcurrentModification {
                task_id: task.id,
                expected,
                actual: task.status,
            },
        ),
        status_error(task, expected) is None <==> task.status == expected,
        cancel_error(task) is None <==> task.status is InputRequired || task.status is Cancelled,
{
}

/// A sweep of overdue tasks changes no task but those whose time is over and that
/// are being processed or await a decision: these have expired, and nothing of
/// their work has changed. No task comes or goes.
pub proof fn law_sweep_expires_overdue_tasks(tasks: Tasks, now: Timestamp, id: Seq<char>)
    ensures
        ({
            let after = tasks_with(tasks, tasks.dom(), entry_after_expiry(now));
            let task = tasks[id].task;
            let over = now.nanos > task.expires_at.nanos && (task.status is Working || task.status
                is InputRequired);
            &&& after.contains_key(id) == tasks.contains_key(id)
            &&& overdue_in(tasks, now).contains(id) <==> tasks.contains_key(id) && over
            &&& tasks.contains_key(id) && over ==> {
                &&& after[id].task.status is Expired
                &&& after[id].terminal_at == Some(now)
                &&& same_work(task, after[id].task)
                &&& after[id].task.approval == task.approval
            }
            &&& tasks.contains_key(id) && !over ==> after[id] == tasks[id]
        }),
{
}

/// A task that is marked as failed has failed with that failure if it is being
/// processed or executed; one that awaits a decision only holds the failure, and
/// one that is over stays as it is. No other task changes.
pub proof fn law_failing_changes_one_task(
    tasks: Tasks,
    id: Seq<char>,
    failure: FailureInfo<Seq<char>>,
    now: Timestamp,
    other: Seq<char>,
)
    ensures
        ({
            let after = tasks_after_fail(tasks, id, failure, now);
            let task = tasks[id].task;
            &&& after.contains_key(other) == tasks.contains_key(other)
            &&& other != id && tasks.contains_key(other) ==> after[other] == tasks[other]
            &&& tasks.contains_key(id) ==> {
                &&& same_work(task, after[id].task)
                &&& task.status is Working || task.status is Executing ==> after[id].task.status
                    is Failed && after[id].task.failure == Some(failure) && after[id].terminal_at
                    == Some(now)
                &&& task.status is InputRequired ==> after[id].task.status is InputRequired
                    && after[id].task.failure == Some(failure)
                &&& task.status.terminal() ==> after[id] == tasks[id]
            }
        }),
{
}

/// Cleaning up removes exactly the tasks that have been over for longer than the
/// grace period.
pub proof fn law_cleanup_removes_what_is_long_over(
    tasks: Tasks,
    grace: Duration,
    now: Timestamp,
    id: Seq<char>,
)
    requires
        entries_in_order(tasks),
    ensures
        removable_in(tasks, grace, now).contains(id) <==> tasks.contains_key(id)
            && tasks[id].task.status.terminal() && now.nanos - tasks[id].terminal_at->0.nanos
            > grace.nanos,
        ({
            let after = tasks.remove_keys(removable_in(tasks, grace, now));
            after.contains_key(id) ==> tasks.contains_key(id) && after[id] == tasks[id]
        }),
{
    if tasks.contains_key(id) {
        assert(tasks[id].task.status.terminal() <==> tasks[id].terminal_at is Some);
    }
}

/// The grace period is the one that is configured, unless it is too long to be
/// counted.
pub proof fn law_grace_period_is_configured(config: TaskStoreConfig)
    requires
        config.terminal_grace_period.nanos <= MAX_TTL_MILLIS * 1_000_000,
    ensures
        grace_period(config) == config.terminal_grace_period,
{
}

/// A page holds the tasks from its offset on, at most as many as its limit, in
/// their order; and two pages that follow each other are one longer page.
pub proof fn law_pages_follow_each_other(
    tasks: Seq<TaskView>,
    offset: nat,
    limit: nat,
    more: nat,
    i: int,
)
    ensures
        page(tasks, offset, limit).len() == if offset >= tasks.len() {
            0
        } else if tasks.len() - offset < limit {
            tasks.len() - offset
        } else {
            limit as int
        },
        0 <= i < page(tasks, offset, limit).len() ==> page(tasks, offset, limit)[i]
            == tasks[offset + i],
        page(tasks, offset, limit) + page(tasks, offset + limit, more) == page(
            tasks,
            offset,
            limit + more,
        ),
{
    assert(page(tasks, offset, limit) + page(tasks, offset + limit, more) =~= page(
        tasks,
        offset,
        limit + more,
    ));
}

/// Arrays around nothing, nested to a depth.
pub open spec fn nested_arrays(n: nat) -> JsonView
    decreases n,
{
    if n == 0 {
        JsonView::Null
    } else {
        JsonView::Array(seq![nested_arrays((n - 1) as nat)])
    }
}

/// Objects around nothing, nested to a depth.
pub open spec fn nested_objects(n: nat, key: Seq<char>) -> JsonView
    decreases n,
{
    if n == 0 {
        JsonView::Null
    } else {
        JsonView::Object(seq![(key, nested_objects((n - 1) as nat, key))])
    }
}

/// Arguments may be nested to a depth of sixty-four, in arrays as in objects, and
/// no deeper; and what holds something too deep is itself too deep.
pub proof fn law_nesting_is_limited(n: nat, key: Seq<char>, items: Seq<JsonView>, i: int)
    ensures
        too_deep(nested_arrays(n), 0) <==> n > 64,
        too_deep(nested_objects(n, key), 0) <==> n > 64,
        0 <= i < items.len() && too_deep(items[i], 1) ==> too_deep(JsonView::Array(items), 0),
{
    lemma_nesting(n, key, 0);
    if 0 <= i < items.len() && too_deep(items[i], 1) {
        assert(some_item_too_deep(items, 1));
    }
}

proof fn lemma_nesting(n: nat, key: Seq<char>, depth: int)
    requires
        depth >= 0,
    ensures
        too_deep(nested_arrays(n), depth) <==> n + depth > 64,
        too_deep(nested_objects(n, key), depth) <==> n + depth > 64,
    decreases n,
{
    if n > 0 {
        lemma_nesting((n - 1) as nat, key, depth + 1);
        let items = seq![nested_arrays((n - 1) as nat)];
        let members = seq![(key, nested_objects((n - 1) as nat, key))];
        assert(items[0] == nested_arrays((n - 1) as nat));
        assert(members[0].1 == nested_objects((n - 1) as nat, key));
        assert(some_item_too_deep(items, depth + 1) <==> too_deep(items[0], depth + 1));
        assert(some_member_too_deep(members, depth + 1) <==> too_deep(members[0].1, depth + 1));
    }
}

} // verus!
