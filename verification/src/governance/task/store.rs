//! The store that holds the tasks.

use std::sync::Arc;
use vstd::prelude::*;
use vstd::string::*;

use crate::config::schema::TimeoutAction;
use crate::governance::task::error::TaskError;
use crate::governance::task::helpers::{depth_message, too_deep};
use crate::governance::task::life::{
    consistent_trail, guarded_error, law_new_task_is_consistent, law_step_keeps_trail,
    lemma_traceable_step, new_task, stepped, transition_error, MAX_TTL_MILLIS,
};
use crate::governance::task::maps::{
    get_principal, get_task, new_principal_map, new_task_map, principal_slots, put_principal,
    put_task, share, take_principal, take_task, task_count, task_entries, task_ids, PrincipalSlot,
    TaskEntry,
};
use crate::governance::task::status::TaskStatus;
use crate::governance::task::types::{
    trail, ApprovalDecision, ApprovalRecord, ApprovalView, FailureInfo, FailureStage, Principal,
    Task, TaskId, TaskTransition, TaskView, ToolCallRequest, ToolCallResult,
};
use crate::json::JsonView;
use crate::text::{opt_text, same_text, texts};
use crate::time::{Duration, Timestamp, NANOS_PER_MILLI};

verus! {

/// Seconds after which a principal that is over its limit may try again.
pub const RETRY_AFTER_SECS: u64 = 60;

/// Configuration of the task store.
#[derive(Debug, Clone, Copy, PartialEq, Eq, Structural)]
pub struct TaskStoreConfig {
    /// Time to live of a task for which none is given.
    pub default_ttl: Duration,
    /// Longest time to live.
    pub max_ttl: Duration,
    /// Shortest time to live.
    pub min_ttl: Duration,
    /// How often to clean up.
    pub cleanup_interval: Duration,
    /// Most pending tasks of one principal.
    pub max_pending_per_principal: usize,
    /// Most pending tasks in all.
    pub max_pending_global: usize,
    /// How long a terminal task is kept.
    pub terminal_grace_period: Duration,
}

/// The default configuration.
pub open spec fn default_settings() -> TaskStoreConfig {
    TaskStoreConfig {
        default_ttl: Duration::of_secs(600),
        max_ttl: Duration::of_secs(86400),
        min_ttl: Duration::of_secs(60),
        cleanup_interval: Duration::of_secs(60),
        max_pending_per_principal: 10,
        max_pending_global: 1000,
        terminal_grace_period: Duration::of_secs(3600),
    }
}

impl Default for TaskStoreConfig {
    fn default() -> (r: Self)
        ensures
            r == default_settings(),
            r.min_ttl.nanos <= r.max_ttl.nanos,
            r.default_ttl.nanos == 600_000_000_000,
            r.max_ttl.nanos == 86_400_000_000_000,
            r.min_ttl.nanos == 60_000_000_000,
            r.cleanup_interval.nanos == 60_000_000_000,
            r.max_pending_per_principal == 10,
            r.max_pending_global == 1000,
            r.terminal_grace_period.nanos == 3_600_000_000_000,
    {
        TaskStoreConfig {
            default_ttl: Duration::from_secs(600),
            max_ttl: Duration::from_secs(86400),
            min_ttl: Duration::from_secs(60),
            cleanup_interval: Duration::from_secs(60),
            max_pending_per_principal: 10,
            max_pending_global: 1000,
            terminal_grace_period: Duration::from_secs(3600),
        }
    }
}

/// The tasks in a store, by ID.
pub type Tasks = Map<Seq<char>, TaskEntry<TaskView>>;

/// The tasks in a map of entries.
pub open spec fn entry_views(entries: Map<Seq<char>, TaskEntry>) -> Tasks {
    Map::new(|id: Seq<char>| entries.contains_key(id), |id: Seq<char>| entries[id]@)
}

/// The IDs of the pending tasks: those that are not terminal.
pub open spec fn pending_in(tasks: Tasks) -> Set<Seq<char>> {
    tasks.dom().filter(|id: Seq<char>| !tasks[id].task.status.terminal())
}

/// The IDs of the pending tasks of a principal.
pub open spec fn pending_of(tasks: Tasks, key: Seq<char>) -> Set<Seq<char>> {
    tasks.dom().filter(
        |id: Seq<char>|
            !tasks[id].task.status.terminal() && tasks[id].task.principal.key() == key,
    )
}

/// Whether the entries of a store are in order: each task has the ID under which
/// it is kept, and the time at which it became terminal is noted exactly if it is
/// terminal.
pub open spec fn entries_in_order(tasks: Tasks) -> bool {
    &&& tasks.dom().finite()
    &&& forall|id: Seq<char>| #[trigger]
        tasks.contains_key(id) ==> {
            &&& tasks[id].task.id == id
            &&& tasks[id].task.status.terminal() <==> tasks[id].terminal_at is Some
        }
}

/// Whether the audit trail of every task tells its life.
pub open spec fn trails_consistent(tasks: Tasks) -> bool {
    forall|id: Seq<char>| #[trigger]
        tasks.contains_key(id) ==> consistent_trail(tasks[id].task)
}

/// When a task became terminal, if it became so now.
pub open spec fn end_time(task: TaskView, now: Timestamp) -> Option<Timestamp> {
    if task.status.terminal() {
        Some(now)
    } else {
        None
    }
}

/// Whether an operation on a pending task had its outcome: it fails with the
/// error that is given, or because there is no such task, and then nothing
/// changes; else the task takes the place of the one with its ID.
pub open spec fn updated(
    before: Tasks,
    after: Tasks,
    id: Seq<char>,
    error: Option<TaskError<Seq<char>>>,
    task: TaskView,
    now: Timestamp,
    r: Result<Arc<Task>, TaskError>,
) -> bool {
    match r {
        Ok(t) => {
            &&& before.contains_key(id)
            &&& error is None
            &&& (*t)@ == task
            &&& after == before.insert(id, TaskEntry { task, terminal_at: end_time(task, now) })
        },
        Err(e) => {
            &&& after == before
            &&& if before.contains_key(id) {
                error == Some(e@)
            } else {
                e@ == (TaskError::<Seq<char>>::NotFound { task_id: id })
            }
        },
    }
}

/// The list of IDs in a slot, if there is a slot.
pub open spec fn listed_ids(slots: Map<Seq<char>, PrincipalSlot>, key: Seq<char>) -> Seq<Seq<char>> {
    if slots.contains_key(key) {
        texts(slots[key].ids@)
    } else {
        Seq::empty()
    }
}

/// The count of pending tasks in a slot, if there is a slot.
pub open spec fn counted(slots: Map<Seq<char>, PrincipalSlot>, key: Seq<char>) -> nat {
    if slots.contains_key(key) {
        slots[key].pending as nat
    } else {
        0
    }
}

/// Whether what is known of the principals agrees with the tasks: the list of a
/// principal holds the IDs of its tasks, each once, and its count is that of its
/// pending tasks, which is within the limit.
pub open spec fn slots_in_order(
    tasks: Tasks,
    slots: Map<Seq<char>, PrincipalSlot>,
    limit: usize,
) -> bool {
    &&& forall|key: Seq<char>| #[trigger] slots.contains_key(key) ==> slots[key].ids@.len() > 0
    &&& forall|key: Seq<char>| #[trigger] listed_ids(slots, key).no_duplicates()
    &&& forall|key: Seq<char>, id: Seq<char>| #[trigger]
        listed_ids(slots, key).contains(id) <==> tasks.contains_key(id)
            && tasks[id].task.principal.key() == key
    &&& forall|key: Seq<char>|
        #![trigger counted(slots, key)]
        counted(slots, key) == pending_of(tasks, key).len() && counted(slots, key) <= limit
}

/// The task store.
pub struct TaskStore {
    tasks: dashmap::DashMap<String, TaskEntry>,
    principals: dashmap::DashMap<String, PrincipalSlot>,
    config: TaskStoreConfig,
    pending_count: usize,
}

impl TaskStore {
    /// The tasks, by ID.
    pub closed spec fn view(self) -> Tasks {
        entry_views(task_entries(self.tasks))
    }

    /// The IDs of a principal's tasks, in the order of their creation.
    pub closed spec fn index(self, key: Seq<char>) -> Seq<Seq<char>> {
        listed_ids(principal_slots(self.principals), key)
    }

    /// The configuration.
    pub closed spec fn settings(self) -> TaskStoreConfig {
        self.config
    }

    /// The store's invariant: entries are in order, the counts of pending tasks
    /// are right, in all and for each principal, and within their limits.
    pub closed spec fn wf(self) -> bool {
        &&& entries_in_order(self@)
        &&& self.pending_count == pending_in(self@).len()
        &&& self.pending_count <= self.config.max_pending_global
        &&& slots_in_order(
            self@,
            principal_slots(self.principals),
            self.config.max_pending_per_principal,
        )
    }

    /// What the invariant says of tasks and counts.
    pub proof fn lemma_wf(self)
        requires
            self.wf(),
        ensures
            entries_in_order(self@),
            pending_in(self@).len() <= self.settings().max_pending_global,
            forall|key: Seq<char>|
                #![trigger pending_of(self@, key)]
                pending_of(self@, key).len() <= self.settings().max_pending_per_principal,
            forall|key: Seq<char>| #[trigger] self.index(key).no_duplicates(),
            forall|key: Seq<char>, id: Seq<char>| #[trigger]
                self.index(key).contains(id) <==> self@.contains_key(id)
                    && self@[id].task.principal.key() == key,
    {
        assert forall|key: Seq<char>|
            #![trigger pending_of(self@, key)]
            pending_of(self@, key).len() <= self.settings().max_pending_per_principal by {
            assert(counted(principal_slots(self.principals), key) == pending_of(self@, key).len());
        }
        assert forall|key: Seq<char>| #[trigger] self.index(key).no_duplicates() by {
            assert(listed_ids(principal_slots(self.principals), key).no_duplicates());
        }
        assert forall|key: Seq<char>, id: Seq<char>| #[trigger]
            self.index(key).contains(id) <==> self@.contains_key(id)
                && self@[id].task.principal.key() == key by {
            assert(listed_ids(principal_slots(self.principals), key).contains(id)
                <==> self@.contains_key(id) && self@[id].task.principal.key() == key);
        }
    }

    /// Creates a new task store with the given configuration.
    pub fn new(config: TaskStoreConfig) -> (r: Self)
        ensures
            r.wf(),
            r@ == Tasks::empty(),
            r.settings() == config,
            forall|key: Seq<char>| #[trigger] r.index(key) == Seq::<Seq<char>>::empty(),
    {
        let r = TaskStore {
            tasks: new_task_map(),
            principals: new_principal_map(),
            config,
            pending_count: 0,
        };
        proof {
            assert(r@ =~= Tasks::empty());
            assert(pending_in(r@) =~= Set::<Seq<char>>::empty());
            assert forall|key: Seq<char>|
                #![trigger counted(principal_slots(r.principals), key)]
                counted(principal_slots(r.principals), key) == pending_of(r@, key).len() by {
                assert(pending_of(r@, key) =~= Set::<Seq<char>>::empty());
            }
        }
        r
    }

    /// Creates a new task store with the default configuration.
    pub fn with_defaults() -> (r: Self)
        ensures
            r.wf(),
            r@ == Tasks::empty(),
            r.settings() == default_settings(),
            r.settings().min_ttl.nanos <= r.settings().max_ttl.nanos,
            forall|key: Seq<char>| #[trigger] r.index(key) == Seq::<Seq<char>>::empty(),
    {
        TaskStore::new(TaskStoreConfig::default())
    }

    /// Returns the store configuration.
    pub fn config(&self) -> (r: &TaskStoreConfig)
        ensures
            *r == self.settings(),
    {
        &self.config
    }

    /// Returns the number of pending tasks.
    pub fn pending_count(&self) -> (r: usize)
        requires
            self.wf(),
        ensures
            r == pending_in(self@).len(),
    {
        self.pending_count
    }

    /// Returns the number of tasks, terminal ones among them.
    pub fn total_count(&self) -> (r: usize)
        ensures
            r == self@.dom().len(),
    {
        assert(self@.dom() =~= task_entries(self.tasks).dom());
        task_count(&self.tasks)
    }

    /// Whether some task of a principal is in the store.
    pub fn has_principal_entry(&self, key: &String) -> (r: bool)
        requires
            self.wf(),
        ensures
            r == (self.index(key@).len() > 0),
    {
        let found = get_principal(&self.principals, key).is_some();
        proof {
            if found {
                assert(principal_slots(self.principals)[key@].ids@.len() > 0);
            }
        }
        found
    }

    /// Gets a task by ID.
    pub fn get(&self, task_id: &TaskId) -> (r: Result<Arc<Task>, TaskError>)
        ensures
            match r {
                Ok(t) => self@.contains_key(task_id@) && (*t)@ == self@[task_id@].task,
                Err(e) => !self@.contains_key(task_id@) && e@ == (TaskError::<
                    Seq<char>,
                >::NotFound { task_id: task_id@ }),
            },
    {
        match get_task(&self.tasks, task_id) {
            Some(entry) => Ok(entry.task),
            None => Err(TaskError::NotFound { task_id: task_id.clone() }),
        }
    }
}

/// The pending tasks after the entry of a task has been replaced.
proof fn lemma_replaced(tasks: Tasks, id: Seq<char>, entry: TaskEntry<TaskView>)
    requires
        tasks.dom().finite(),
        tasks.contains_key(id),
        entry.task.principal == tasks[id].task.principal,
        tasks[id].task.status.terminal() ==> entry.task.status.terminal(),
    ensures
        ({
            let after = tasks.insert(id, entry);
            let key = entry.task.principal.key();
            let ended = !tasks[id].task.status.terminal() && entry.task.status.terminal();
            &&& after.dom() == tasks.dom()
            &&& pending_in(tasks).finite()
            &&& ended ==> pending_in(tasks).contains(id) && pending_in(after) == pending_in(
                tasks,
            ).remove(id)
            &&& !ended ==> pending_in(after) == pending_in(tasks)
            &&& forall|k: Seq<char>| #[trigger] pending_of(tasks, k).finite()
            &&& ended ==> pending_of(tasks, key).contains(id) && pending_of(after, key)
                == pending_of(tasks, key).remove(id)
            &&& forall|k: Seq<char>|
                k != key || !ended ==> #[trigger] pending_of(after, k) == pending_of(tasks, k)
        }),
{
    let after = tasks.insert(id, entry);
    let key = entry.task.principal.key();
    let ended = !tasks[id].task.status.terminal() && entry.task.status.terminal();
    assert(after.dom() =~= tasks.dom());
    if ended {
        assert(pending_in(after) =~= pending_in(tasks).remove(id));
        assert(pending_of(after, key) =~= pending_of(tasks, key).remove(id));
    } else {
        assert(pending_in(after) =~= pending_in(tasks));
    }
    assert forall|k: Seq<char>| k != key || !ended implies #[trigger] pending_of(after, k)
        == pending_of(tasks, k) by {
        assert(pending_of(after, k) =~= pending_of(tasks, k));
    }
}

impl TaskStore {
    /// The entry of a task.
    fn entry_of(&self, task_id: &String) -> (r: Result<TaskEntry, TaskError>)
        requires
            self.wf(),
        ensures
            match r {
                Ok(e) => {
                    &&& self@.contains_key(task_id@)
                    &&& e@ == self@[task_id@]
                    &&& e@.task.id == task_id@
                    &&& e@.task.status.terminal() <==> e@.terminal_at is Some
                    &&& trails_consistent(self@) ==> consistent_trail(e@.task)
                },
                Err(e) => !self@.contains_key(task_id@) && e@ == (TaskError::<
                    Seq<char>,
                >::NotFound { task_id: task_id@ }),
            },
    {
        match get_task(&self.tasks, task_id) {
            Some(entry) => {
                assert(self@.contains_key(task_id@));
                Ok(entry)
            },
            None => Err(TaskError::NotFound { task_id: task_id.clone() }),
        }
    }

    /// Puts a task in place of the one with its ID, and counts it off where it
    /// has become terminal.
    fn replace(
        &mut self,
        id: &String,
        task: Task,
        terminal_at: Option<Timestamp>,
        was_pending: bool,
    ) -> (r: Arc<Task>)
        requires
            old(self).wf(),
            old(self)@.contains_key(id@),
            was_pending == !old(self)@[id@].task.status.terminal(),
            task@.id == id@,
            task@.principal == old(self)@[id@].task.principal,
            task@.status.terminal() <==> terminal_at is Some,
            !was_pending ==> task@.status.terminal(),
        ensures
            final(self).wf(),
            final(self)@ == old(self)@.insert(id@, TaskEntry { task: task@, terminal_at }),
            final(self).settings() == old(self).settings(),
            forall|key: Seq<char>| #[trigger] final(self).index(key) == old(self).index(key),
            trails_consistent(old(self)@) && consistent_trail(task@) ==> trails_consistent(
                final(self)@,
            ),
            (*r)@ == task@,
    {
        let ghost before = self@;
        let ghost entry = TaskEntry { task: task@, terminal_at };
        let ghost slots = principal_slots(self.principals);
        let ghost key = task@.principal.key();
        let ghost view = task@;
        proof {
            lemma_replaced(before, id@, entry);
        }
        if was_pending && task.status.is_terminal() {
            proof {
                assert(counted(slots, key) == pending_of(before, key).len());
                assert(pending_of(before, key).len() > 0) by {
                    if pending_of(before, key).len() == 0 {
                        assert(pending_of(before, key) =~= Set::<Seq<char>>::empty());
                    }
                }
                assert(pending_in(before).len() > 0) by {
                    if pending_in(before).len() == 0 {
                        assert(pending_in(before) =~= Set::<Seq<char>>::empty());
                    }
                }
            }
            self.pending_count = self.pending_count - 1;
            let principal_key = task.principal.rate_limit_key();
            if let Some((ids, pending)) = get_principal(&self.principals, &principal_key) {
                put_principal(
                    &mut self.principals,
                    principal_key,
                    PrincipalSlot { ids, pending: pending - 1 },
                );
            }
        }
        let shared = Arc::new(task);
        put_task(
            &mut self.tasks,
            id.clone(),
            TaskEntry { task: share(&shared), terminal_at },
        );
        proof {
            assert(self@ =~= before.insert(id@, entry));
            let after = self@;
            let now_slots = principal_slots(self.principals);
            assert forall|k: Seq<char>| #[trigger] listed_ids(now_slots, k) == listed_ids(
                slots,
                k,
            ) by {
                assert(listed_ids(now_slots, k) =~= listed_ids(slots, k));
            }
            assert forall|k: Seq<char>| #[trigger] listed_ids(now_slots, k).no_duplicates() by {
                assert(listed_ids(slots, k).no_duplicates());
            }
            assert forall|k: Seq<char>, other: Seq<char>| #[trigger]
                listed_ids(now_slots, k).contains(other) <==> after.contains_key(other)
                    && after[other].task.principal.key() == k by {
                assert(listed_ids(slots, k).contains(other) <==> before.contains_key(other)
                    && before[other].task.principal.key() == k);
            }
            assert forall|k: Seq<char>|
                #![trigger counted(now_slots, k)]
                counted(now_slots, k) == pending_of(after, k).len() && counted(now_slots, k)
                    <= self.config.max_pending_per_principal by {
                assert(counted(slots, k) == pending_of(before, k).len());
                assert(pending_of(before, k).finite());
            }
            assert forall|k: Seq<char>| #[trigger] now_slots.contains_key(k) implies now_slots[k].ids@.len()
                > 0 by {
                assert(slots.contains_key(k));
                assert(texts(now_slots[k].ids@) == listed_ids(now_slots, k));
                assert(texts(slots[k].ids@) == listed_ids(slots, k));
                assert(texts(now_slots[k].ids@).len() == now_slots[k].ids@.len());
                assert(texts(slots[k].ids@).len() == slots[k].ids@.len());
            }
            assert forall|k: Seq<char>| #[trigger] self.index(k) == old(self).index(k) by {
                assert(listed_ids(now_slots, k) == listed_ids(slots, k));
            }
        }
        shared
    }
}

/// The status to which a decision leads.
pub open spec fn decided_status(decision: ApprovalDecision<Seq<char>>) -> TaskStatus {
    match decision {
        ApprovalDecision::Approved => TaskStatus::Executing,
        ApprovalDecision::Rejected { .. } => TaskStatus::Rejected,
    }
}

/// The reason that is noted for a decision.
pub open spec fn decided_reason(decision: ApprovalDecision<Seq<char>>) -> Seq<char> {
    match decision {
        ApprovalDecision::Approved => "Approved"@,
        ApprovalDecision::Rejected { reason } => match reason {
            Some(text) => text,
            None => "Rejected"@,
        },
    }
}

/// Until when an approval is valid; a length of time that is too long counts as
/// none.
pub open spec fn valid_until(now: Timestamp, valid_for: Duration) -> Timestamp {
    if valid_for.nanos > MAX_TTL_MILLIS * NANOS_PER_MILLI {
        now
    } else {
        now.after(valid_for)
    }
}

/// A task on which a decision has been recorded.
pub open spec fn with_decision(
    task: TaskView,
    decision: ApprovalDecision<Seq<char>>,
    decided_by: Seq<char>,
    valid_for: Duration,
    now: Timestamp,
) -> TaskView {
    stepped(
        Task {
            approval: Some(
                ApprovalRecord {
                    decision,
                    decided_by,
                    decided_at: now,
                    approval_valid_until: valid_until(now, valid_for),
                    metadata: None,
                },
            ),
            ..task
        },
        decided_status(decision),
        Some(decided_reason(decision)),
        now,
    )
}

/// Why an operation that needs a certain status cannot be done.
pub open spec fn status_error(task: TaskView, expected: TaskStatus) -> Option<
    TaskError<Seq<char>>,
> {
    if task.status != expected {
        Some(
            TaskError::ConcurrentModification {
                task_id: task.id,
                expected,
                actual: task.status,
            },
        )
    } else {
        None
    }
}

/// A task that has completed with a result.
pub open spec fn completed(
    task: TaskView,
    result: ToolCallResult<JsonView>,
    now: Timestamp,
) -> TaskView {
    stepped(
        Task { result: Some(result), ..task },
        TaskStatus::Completed,
        Some("Execution completed"@),
        now,
    )
}

/// Why a task cannot be cancelled.
pub open spec fn cancel_error(task: TaskView) -> Option<TaskError<Seq<char>>> {
    if task.status is InputRequired || task.status is Cancelled {
        None
    } else if task.status.terminal() {
        Some(TaskError::AlreadyTerminal { task_id: task.id, status: task.status })
    } else {
        Some(
            TaskError::InvalidTransition {
                task_id: task.id,
                from: task.status,
                to: TaskStatus::Cancelled,
            },
        )
    }
}

/// A task that the agent has cancelled.
pub open spec fn cancelled(task: TaskView, now: Timestamp) -> TaskView {
    stepped(task, TaskStatus::Cancelled, Some("Cancelled by agent"@), now)
}

/// A task with a failure recorded.
pub open spec fn with_failure(task: TaskView, failure: FailureInfo<Seq<char>>) -> TaskView {
    Task { failure: Some(failure), ..task }
}

/// A task that has failed.
pub open spec fn failed(task: TaskView, failure: FailureInfo<Seq<char>>, now: Timestamp) -> TaskView {
    stepped(with_failure(task, failure), TaskStatus::Failed, Some(failure.reason), now)
}

/// What becomes of the tasks when one is marked as failed. A task that awaits
/// approval keeps its status, for which the state machine has no such step, but
/// the failure is recorded on it.
pub open spec fn tasks_after_fail(
    tasks: Tasks,
    id: Seq<char>,
    failure: FailureInfo<Seq<char>>,
    now: Timestamp,
) -> Tasks {
    if !tasks.contains_key(id) || tasks[id].task.status.terminal() {
        tasks
    } else if tasks[id].task.status.steps_to(TaskStatus::Failed) {
        tasks.insert(
            id,
            TaskEntry { task: failed(tasks[id].task, failure, now), terminal_at: Some(now) },
        )
    } else {
        tasks.insert(
            id,
            TaskEntry { task: with_failure(tasks[id].task, failure), terminal_at: None },
        )
    }
}

/// A task on which an execution after expiry has been recorded.
pub open spec fn with_late_result(
    task: TaskView,
    result: ToolCallResult<JsonView>,
    approval: ApprovalView,
    now: Timestamp,
) -> TaskView {
    Task {
        result: Some(result),
        approval: Some(approval),
        transitions: task.transitions.push(
            TaskTransition {
                from: TaskStatus::Expired,
                to: TaskStatus::Expired,
                at: now,
                reason: Some("Auto-approved after expiration; executed successfully"@),
            },
        ),
        ..task
    }
}

/// A task on which a failed execution after expiry has been recorded.
pub open spec fn with_late_failure(
    task: TaskView,
    failure: FailureInfo<Seq<char>>,
    now: Timestamp,
) -> TaskView {
    Task {
        failure: Some(failure),
        transitions: task.transitions.push(
            TaskTransition {
                from: TaskStatus::Expired,
                to: TaskStatus::Expired,
                at: now,
                reason: Some("Auto-approved after expiration; execution failed"@),
            },
        ),
        ..task
    }
}

/// Whether the audit trail of a task ends with the note of an execution after
/// expiry.
pub open spec fn ran_late(task: TaskView) -> bool {
    task.transitions.len() > 0 && task.transitions.last().from is Expired
}

/// A change that leaves status and audit trail alone keeps the trail consistent.
proof fn lemma_trail_of(a: TaskView, b: TaskView)
    requires
        consistent_trail(a),
        a.status == b.status,
        a.transitions == b.transitions,
    ensures
        consistent_trail(b),
{
}

impl TaskStore {
    /// Transitions a task to a new status.
    pub fn transition(
        &mut self,
        task_id: &TaskId,
        new_status: TaskStatus,
        reason: Option<String>,
        now: Timestamp,
    ) -> (r: Result<Arc<Task>, TaskError>)
        requires
            old(self).wf(),
        ensures
            final(self).wf(),
            final(self).settings() == old(self).settings(),
            forall|key: Seq<char>| #[trigger] final(self).index(key) == old(self).index(key),
            trails_consistent(old(self)@) ==> trails_consistent(final(self)@),
            updated(
                old(self)@,
                final(self)@,
                task_id@,
                transition_error(old(self)@[task_id@].task, new_status),
                stepped(old(self)@[task_id@].task, new_status, opt_text(reason), now),
                now,
                r,
            ),
    {
        let entry = match self.entry_of(task_id) {
            Ok(entry) => entry,
            Err(e) => {
                return Err(e);
            },
        };
        let ghost before = self@[task_id@].task;
        let ghost note = opt_text(reason);
        let mut task = entry.task.copy();
        match task.transition(new_status, reason, now) {
            Ok(_) => {},
            Err(e) => {
                return Err(e);
            },
        }
        proof {
            if consistent_trail(before) {
                law_step_keeps_trail(before, new_status, note, now);
            }
        }
        let terminal_at = if task.status.is_terminal() {
            Some(now)
        } else {
            None
        };
        Ok(self.replace(task_id, task, terminal_at, true))
    }

    /// Transitions a task with optimistic locking.
    pub fn transition_if(
        &mut self,
        task_id: &TaskId,
        expected_status: TaskStatus,
        new_status: TaskStatus,
        reason: Option<String>,
        now: Timestamp,
    ) -> (r: Result<Arc<Task>, TaskError>)
        requires
            old(self).wf(),
        ensures
            final(self).wf(),
            final(self).settings() == old(self).settings(),
            forall|key: Seq<char>| #[trigger] final(self).index(key) == old(self).index(key),
            trails_consistent(old(self)@) ==> trails_consistent(final(self)@),
            updated(
                old(self)@,
                final(self)@,
                task_id@,
                guarded_error(old(self)@[task_id@].task, expected_status, new_status),
                stepped(old(self)@[task_id@].task, new_status, opt_text(reason), now),
                now,
                r,
            ),
    {
        let entry = match self.entry_of(task_id) {
            Ok(entry) => entry,
            Err(e) => {
                return Err(e);
            },
        };
        let ghost before = self@[task_id@].task;
        let ghost note = opt_text(reason);
        let mut task = entry.task.copy();
        match task.transition_if(expected_status, new_status, reason, now) {
            Ok(_) => {},
            Err(e) => {
                return Err(e);
            },
        }
        proof {
            if consistent_trail(before) {
                law_step_keeps_trail(before, new_status, note, now);
            }
        }
        let terminal_at = if task.status.is_terminal() {
            Some(now)
        } else {
            None
        };
        Ok(self.replace(task_id, task, terminal_at, true))
    }

    /// Records an approval decision on a task that awaits one.
    pub fn record_approval(
        &mut self,
        task_id: &TaskId,
        decision: ApprovalDecision,
        decided_by: String,
        approval_valid_for: Duration,
        now: Timestamp,
    ) -> (r: Result<Arc<Task>, TaskError>)
        requires
            old(self).wf(),
        ensures
            final(self).wf(),
            final(self).settings() == old(self).settings(),
            forall|key: Seq<char>| #[trigger] final(self).index(key) == old(self).index(key),
            trails_consistent(old(self)@) ==> trails_consistent(final(self)@),
            updated(
                old(self)@,
                final(self)@,
                task_id@,
                status_error(old(self)@[task_id@].task, TaskStatus::InputRequired),
                with_decision(
                    old(self)@[task_id@].task,
                    decision@,
                    decided_by@,
                    approval_valid_for,
                    now,
                ),
                now,
                r,
            ),
    {
        let entry = match self.entry_of(task_id) {
            Ok(entry) => entry,
            Err(e) => {
                return Err(e);
            },
        };
        if entry.task.status != TaskStatus::InputRequired {
            return Err(
                TaskError::ConcurrentModification {
                    task_id: task_id.clone(),
                    expected: TaskStatus::InputRequired,
                    actual: entry.task.status,
                },
            );
        }
        let ghost before = self@[task_id@].task;
        let approval_valid_until = if approval_valid_for.nanos > MAX_TTL_MILLIS * NANOS_PER_MILLI {
            now
        } else {
            now.plus(approval_valid_for)
        };
        let (new_status, reason) = match &decision {
            ApprovalDecision::Approved => (TaskStatus::Executing, "Approved".to_owned()),
            ApprovalDecision::Rejected { reason } => (
                TaskStatus::Rejected,
                match reason {
                    Some(text) => text.clone(),
                    None => "Rejected".to_owned(),
                },
            ),
        };
        let mut task = entry.task.copy();
        task.approval = Some(
            ApprovalRecord {
                decision,
                decided_by,
                decided_at: now,
                approval_valid_until,
                metadata: None,
            },
        );
        let ghost approved = task@;
        let ghost note = Some(reason@);
        match task.transition(new_status, Some(reason), now) {
            Ok(_) => {},
            Err(e) => {
                return Err(e);
            },
        }
        proof {
            if consistent_trail(before) {
                lemma_trail_of(before, approved);
                law_step_keeps_trail(approved, new_status, note, now);
            }
        }
        let terminal_at = if task.status.is_terminal() {
            Some(now)
        } else {
            None
        };
        Ok(self.replace(task_id, task, terminal_at, true))
    }

    /// Marks a task as completed with a result.
    pub fn complete(&mut self, task_id: &TaskId, result: ToolCallResult, now: Timestamp) -> (r:
        Result<Arc<Task>, TaskError>)
        requires
            old(self).wf(),
        ensures
            final(self).wf(),
            final(self).settings() == old(self).settings(),
            forall|key: Seq<char>| #[trigger] final(self).index(key) == old(self).index(key),
            trails_consistent(old(self)@) ==> trails_consistent(final(self)@),
            updated(
                old(self)@,
                final(self)@,
                task_id@,
                status_error(old(self)@[task_id@].task, TaskStatus::Executing),
                completed(old(self)@[task_id@].task, result@, now),
                now,
                r,
            ),
    {
        let entry = match self.entry_of(task_id) {
            Ok(entry) => entry,
            Err(e) => {
                return Err(e);
            },
        };
        if entry.task.status != TaskStatus::Executing {
            return Err(
                TaskError::ConcurrentModification {
                    task_id: task_id.clone(),
                    expected: TaskStatus::Executing,
                    actual: entry.task.status,
                },
            );
        }
        let ghost before = self@[task_id@].task;
        let mut task = entry.task.copy();
        task.result = Some(result);
        let ghost answered = task@;
        match task.transition(
            TaskStatus::Completed,
            Some("Execution completed".to_owned()),
            now,
        ) {
            Ok(_) => {},
            Err(e) => {
                return Err(e);
            },
        }
        proof {
            if consistent_trail(before) {
                lemma_trail_of(before, answered);
                law_step_keeps_trail(
                    answered,
                    TaskStatus::Completed,
                    Some("Execution completed"@),
                    now,
                );
            }
        }
        Ok(self.replace(task_id, task, Some(now), true))
    }

    /// Records an execution on a task that had expired and was approved by its
    /// timeout action. The status does not change.
    pub fn record_auto_approve_result(
        &mut self,
        task_id: &TaskId,
        result: ToolCallResult,
        approval: ApprovalRecord,
        now: Timestamp,
    ) -> (r: Result<(), TaskError>)
        requires
            old(self).wf(),
        ensures
            final(self).wf(),
            final(self).settings() == old(self).settings(),
            forall|key: Seq<char>| #[trigger] final(self).index(key) == old(self).index(key),
            trails_consistent(old(self)@) && old(self)@[task_id@].task.status is Expired
                ==> trails_consistent(final(self)@),
            match r {
                Ok(_) => {
                    &&& old(self)@.contains_key(task_id@)
                    &&& final(self)@ == old(self)@.insert(
                        task_id@,
                        TaskEntry {
                            task: with_late_result(
                                old(self)@[task_id@].task,
                                result@,
                                approval@,
                                now,
                            ),
                            terminal_at: old(self)@[task_id@].terminal_at,
                        },
                    )
                },
                Err(e) => {
                    &&& !old(self)@.contains_key(task_id@)
                    &&& final(self)@ == old(self)@
                    &&& e@ == (TaskError::<Seq<char>>::NotFound { task_id: task_id@ })
                },
            },
    {
        let entry = match self.entry_of(task_id) {
            Ok(entry) => entry,
            Err(e) => {
                return Err(e);
            },
        };
        let ghost before = self@[task_id@].task;
        let mut task = entry.task.copy();
        let pending = !task.status.is_terminal();
        task.result = Some(result);
        task.approval = Some(approval);
        let step = TaskTransition {
            from: TaskStatus::Expired,
            to: TaskStatus::Expired,
            at: now,
            reason: Some("Auto-approved after expiration; executed successfully".to_owned()),
        };
        let ghost steps = task.transitions@;
        task.transitions.push(step);
        proof {
            assert(trail(task.transitions@) =~= trail(steps).push(step@));
            if consistent_trail(before) && before.status is Expired {
                assert(task@.transitions.drop_last() =~= before.transitions);
                lemma_late_trail(before, task@);
            }
        }
        self.replace(task_id, task, entry.terminal_at, pending);
        Ok(())
    }

    /// Records a failed execution on a task that had expired and was approved by
    /// its timeout action. The status does not change.
    pub fn record_auto_approve_failure(
        &mut self,
        task_id: &TaskId,
        failure: FailureInfo,
        now: Timestamp,
    ) -> (r: Result<(), TaskError>)
        requires
            old(self).wf(),
        ensures
            final(self).wf(),
            final(self).settings() == old(self).settings(),
            forall|key: Seq<char>| #[trigger] final(self).index(key) == old(self).index(key),
            trails_consistent(old(self)@) && old(self)@[task_id@].task.status is Expired
                ==> trails_consistent(final(self)@),
            match r {
                Ok(_) => {
                    &&& old(self)@.contains_key(task_id@)
                    &&& final(self)@ == old(self)@.insert(
                        task_id@,
                        TaskEntry {
                            task: with_late_failure(old(self)@[task_id@].task, failure@, now),
                            terminal_at: old(self)@[task_id@].terminal_at,
                        },
                    )
                },
                Err(e) => {
                    &&& !old(self)@.contains_key(task_id@)
                    &&& final(self)@ == old(self)@
                    &&& e@ == (TaskError::<Seq<char>>::NotFound { task_id: task_id@ })
                },
            },
    {
        let entry = match self.entry_of(task_id) {
            Ok(entry) => entry,
            Err(e) => {
                return Err(e);
            },
        };
        let ghost before = self@[task_id@].task;
        let mut task = entry.task.copy();
        let pending = !task.status.is_terminal();
        task.failure = Some(failure);
        let step = TaskTransition {
            from: TaskStatus::Expired,
            to: TaskStatus::Expired,
            at: now,
            reason: Some("Auto-approved after expiration; execution failed".to_owned()),
        };
        let ghost steps = task.transitions@;
        task.transitions.push(step);
        proof {
            assert(trail(task.transitions@) =~= trail(steps).push(step@));
            if consistent_trail(before) && before.status is Expired {
                assert(task@.transitions.drop_last() =~= before.transitions);
                lemma_late_trail(before, task@);
            }
        }
        self.replace(task_id, task, entry.terminal_at, pending);
        Ok(())
    }

    /// Marks a task as failed.
    pub fn fail(&mut self, task_id: &TaskId, failure: FailureInfo, now: Timestamp) -> (r: Result<
        Arc<Task>,
        TaskError,
    >)
        requires
            old(self).wf(),
        ensures
            final(self).wf(),
            final(self).settings() == old(self).settings(),
            forall|key: Seq<char>| #[trigger] final(self).index(key) == old(self).index(key),
            trails_consistent(old(self)@) ==> trails_consistent(final(self)@),
            final(self)@ == tasks_after_fail(old(self)@, task_id@, failure@, now),
            match r {
                Ok(t) => {
                    &&& old(self)@.contains_key(task_id@)
                    &&& transition_error(old(self)@[task_id@].task, TaskStatus::Failed) is None
                    &&& (*t)@ == failed(old(self)@[task_id@].task, failure@, now)
                },
                Err(e) => if old(self)@.contains_key(task_id@) {
                    transition_error(old(self)@[task_id@].task, TaskStatus::Failed) == Some(e@)
                } else {
                    e@ == (TaskError::<Seq<char>>::NotFound { task_id: task_id@ })
                },
            },
    {
        let entry = match self.entry_of(task_id) {
            Ok(entry) => entry,
            Err(e) => {
                return Err(e);
            },
        };
        if entry.task.status.is_terminal() {
            return Err(
                TaskError::AlreadyTerminal { task_id: task_id.clone(), status: entry.task.status },
            );
        }
        let ghost before = self@[task_id@].task;
        let ghost info = failure@;
        let mut task = entry.task.copy();
        let reason = failure.reason.clone();
        task.failure = Some(failure);
        let ghost noted = task@;
        proof {
            assert(noted == with_failure(before, info));
            if consistent_trail(before) {
                lemma_trail_of(before, noted);
            }
        }
        match task.transition(TaskStatus::Failed, Some(reason), now) {
            Ok(_) => {
                proof {
                    if consistent_trail(before) {
                        law_step_keeps_trail(noted, TaskStatus::Failed, Some(info.reason), now);
                    }
                }
                Ok(self.replace(task_id, task, Some(now), true))
            },
            Err(e) => {
                self.replace(task_id, task, None, true);
                Err(e)
            },
        }
    }

    /// Cancels a task that awaits approval. Cancelling a cancelled task again
    /// succeeds and changes nothing.
    pub fn cancel(&mut self, task_id: &TaskId, now: Timestamp) -> (r: Result<Arc<Task>, TaskError>)
        requires
            old(self).wf(),
        ensures
            final(self).wf(),
            final(self).settings() == old(self).settings(),
            forall|key: Seq<char>| #[trigger] final(self).index(key) == old(self).index(key),
            trails_consistent(old(self)@) ==> trails_consistent(final(self)@),
            old(self)@.contains_key(task_id@) && old(self)@[task_id@].task.status is Cancelled
                ==> r is Ok && final(self)@ == old(self)@ && (*r->Ok_0)@
                == old(self)@[task_id@].task,
            !(old(self)@.contains_key(task_id@) && old(self)@[task_id@].task.status is Cancelled)
                ==> updated(
                old(self)@,
                final(self)@,
                task_id@,
                cancel_error(old(self)@[task_id@].task),
                cancelled(old(self)@[task_id@].task, now),
                now,
                r,
            ),
    {
        let entry = match self.entry_of(task_id) {
            Ok(entry) => entry,
            Err(e) => {
                return Err(e);
            },
        };
        let ghost before = self@[task_id@].task;
        if entry.task.status != TaskStatus::InputRequired {
            if entry.task.status.is_terminal() {
                if entry.task.status == TaskStatus::Cancelled {
                    return Ok(entry.task);
                }
                return Err(
                    TaskError::AlreadyTerminal {
                        task_id: task_id.clone(),
                        status: entry.task.status,
                    },
                );
            }
            return Err(
                TaskError::InvalidTransition {
                    task_id: task_id.clone(),
                    from: entry.task.status,
                    to: TaskStatus::Cancelled,
                },
            );
        }
        let mut task = entry.task.copy();
        match task.transition(
            TaskStatus::Cancelled,
            Some("Cancelled by agent".to_owned()),
            now,
        ) {
            Ok(_) => {},
            Err(e) => {
                return Err(e);
            },
        }
        proof {
            if consistent_trail(before) {
                law_step_keeps_trail(
                    before,
                    TaskStatus::Cancelled,
                    Some("Cancelled by agent"@),
                    now,
                );
            }
        }
        Ok(self.replace(task_id, task, Some(now), true))
    }
}

/// The note of an execution after expiry keeps an expired task's trail
/// consistent.
proof fn lemma_late_trail(before: TaskView, after: TaskView)
    requires
        consistent_trail(before),
        before.status is Expired,
        after.status is Expired,
        after.transitions.len() == before.transitions.len() + 1,
        after.transitions.drop_last() == before.transitions,
        after.transitions.last().from is Expired,
        after.transitions.last().to is Expired,
    ensures
        consistent_trail(after),
{
    let steps = after.transitions;
    let n = before.transitions.len();
    assert forall|i: int| 0 <= i < n implies steps[i] == before.transitions[i] by {
        assert(steps.drop_last()[i] == steps[i]);
    }
    assert forall|i: int, j: int| 0 <= i && j == i + 1 && j < steps.len() implies (
    #[trigger] steps[i]).to == (#[trigger] steps[j]).from by {
        if j < n {
            assert(before.transitions[i].to == before.transitions[j].from);
        } else {
            assert(before.transitions[i] == before.transitions.last());
        }
    }
}

/// The time to live of a new task: the one that is asked for, or the default,
/// within the limits.
pub open spec fn clamped_ttl(ttl: Option<Duration>, config: TaskStoreConfig) -> Duration {
    let asked = match ttl {
        Some(t) => t,
        None => config.default_ttl,
    };
    if asked.nanos < config.min_ttl.nanos {
        config.min_ttl
    } else if asked.nanos > config.max_ttl.nanos {
        config.max_ttl
    } else {
        asked
    }
}

/// Whether the limits leave room for another pending task of a principal.
pub open spec fn has_room(tasks: Tasks, config: TaskStoreConfig, key: Seq<char>) -> bool {
    &&& pending_in(tasks).len() < config.max_pending_global
    &&& pending_of(tasks, key).len() < config.max_pending_per_principal
}

/// Whether a new task of a principal may be asked for under an ID: where there is
/// room for it, the bounds of the time to live are in order and the ID is not in
/// use.
pub open spec fn ready_for(
    tasks: Tasks,
    config: TaskStoreConfig,
    key: Seq<char>,
    id: Seq<char>,
) -> bool {
    has_room(tasks, config, key) ==> config.min_ttl.nanos <= config.max_ttl.nanos
        && !tasks.contains_key(id)
}

/// Why a task cannot be created: the store is full, the principal is over its
/// limit, or the arguments are nested too deeply to be hashed.
pub open spec fn create_error(
    tasks: Tasks,
    config: TaskStoreConfig,
    key: Seq<char>,
    arguments: JsonView,
) -> Option<TaskError<Seq<char>>> {
    if pending_in(tasks).len() >= config.max_pending_global {
        Some(TaskError::CapacityExceeded)
    } else if pending_of(tasks, key).len() >= config.max_pending_per_principal {
        Some(
            TaskError::RateLimited {
                principal: key,
                retry_after: Duration::of_secs(RETRY_AFTER_SECS as nat),
            },
        )
    } else if too_deep(arguments, 0) {
        Some(TaskError::Internal { details: depth_message() })
    } else {
        None
    }
}

/// The pending tasks after a new task has been added.
proof fn lemma_added(tasks: Tasks, id: Seq<char>, entry: TaskEntry<TaskView>)
    requires
        tasks.dom().finite(),
        !tasks.contains_key(id),
        !entry.task.status.terminal(),
    ensures
        ({
            let after = tasks.insert(id, entry);
            let key = entry.task.principal.key();
            &&& pending_in(tasks).finite()
            &&& !pending_in(tasks).contains(id)
            &&& pending_in(after) == pending_in(tasks).insert(id)
            &&& pending_of(tasks, key).finite()
            &&& !pending_of(tasks, key).contains(id)
            &&& pending_of(after, key) == pending_of(tasks, key).insert(id)
            &&& forall|k: Seq<char>|
                k != key ==> #[trigger] pending_of(after, k) == pending_of(tasks, k)
        }),
{
    let after = tasks.insert(id, entry);
    let key = entry.task.principal.key();
    assert(pending_in(after) =~= pending_in(tasks).insert(id));
    assert(pending_of(after, key) =~= pending_of(tasks, key).insert(id));
    assert forall|k: Seq<char>| k != key implies #[trigger] pending_of(after, k) == pending_of(
        tasks,
        k,
    ) by {
        assert(pending_of(after, k) =~= pending_of(tasks, k));
    }
}

impl TaskStore {
    /// Creates and inserts a new task, within the limits on pending tasks. The
    /// ID must not be in use.
    pub fn create(
        &mut self,
        task_id: TaskId,
        original_request: ToolCallRequest,
        pre_approval_transformed: ToolCallRequest,
        principal: Principal,
        ttl: Option<Duration>,
        on_timeout: TimeoutAction,
        now: Timestamp,
    ) -> (r: Result<Arc<Task>, TaskError>)
        requires
            old(self).wf(),
            ready_for(old(self)@, old(self).settings(), principal@.key(), task_id@),
        ensures
            final(self).wf(),
            final(self).settings() == old(self).settings(),
            trails_consistent(old(self)@) ==> trails_consistent(final(self)@),
            match r {
                Ok(t) => {
                    let task = new_task(
                        task_id@,
                        original_request@,
                        pre_approval_transformed@,
                        principal@,
                        clamped_ttl(ttl, old(self).settings()),
                        on_timeout,
                        now,
                    );
                    let key = principal@.key();
                    &&& create_error(
                        old(self)@,
                        old(self).settings(),
                        key,
                        pre_approval_transformed.arguments@,
                    ) is None
                    &&& (*t)@ == task
                    &&& final(self)@ == old(self)@.insert(
                        task_id@,
                        TaskEntry { task, terminal_at: None },
                    )
                    &&& final(self).index(key) == old(self).index(key).push(task_id@)
                    &&& forall|k: Seq<char>|
                        k != key ==> #[trigger] final(self).index(k) == old(self).index(k)
                },
                Err(e) => {
                    &&& create_error(
                        old(self)@,
                        old(self).settings(),
                        principal@.key(),
                        pre_approval_transformed.arguments@,
                    ) == Some(e@)
                    &&& *final(self) == *old(self)
                },
            },
    {
        if self.pending_count >= self.config.max_pending_global {
            return Err(TaskError::CapacityExceeded);
        }
        let principal_key = principal.rate_limit_key();
        let ghost key = principal@.key();
        let ghost before = self@;
        let ghost slots = principal_slots(self.principals);
        assert(counted(slots, key) == pending_of(before, key).len());
        let (ids, pending) = match get_principal(&self.principals, &principal_key) {
            Some(slot) => slot,
            None => (Vec::new(), 0),
        };
        assert(texts(ids@) =~= listed_ids(slots, key));
        if pending >= self.config.max_pending_per_principal {
            return Err(
                TaskError::RateLimited {
                    principal: principal_key,
                    retry_after: Duration::from_secs(RETRY_AFTER_SECS),
                },
            );
        }
        let asked = match ttl {
            Some(t) => t,
            None => self.config.default_ttl,
        };
        let ttl_within = if asked.nanos < self.config.min_ttl.nanos {
            self.config.min_ttl
        } else if asked.nanos > self.config.max_ttl.nanos {
            self.config.max_ttl
        } else {
            asked
        };
        let ghost fresh = new_task(
            task_id@,
            original_request@,
            pre_approval_transformed@,
            principal@,
            ttl_within,
            on_timeout,
            now,
        );
        let task = match Task::new(
            task_id.clone(),
            original_request,
            pre_approval_transformed,
            principal,
            ttl_within,
            on_timeout,
            now,
        ) {
            Ok(t) => t,
            Err(e) => {
                return Err(TaskError::Internal { details: e });
            },
        };
        let ghost entry = TaskEntry { task: fresh, terminal_at: None::<Timestamp> };
        proof {
            lemma_added(before, task_id@, entry);
            law_new_task_is_consistent(
                task_id@,
                fresh.original_request,
                fresh.pre_approval_transformed,
                fresh.principal,
                ttl_within,
                on_timeout,
                now,
            );
        }
        self.pending_count = self.pending_count + 1;
        let mut ids = ids;
        let ghost old_ids = ids@;
        ids.push(task_id.clone());
        assert(texts(ids@) =~= texts(old_ids).push(task_id@));
        put_principal(
            &mut self.principals,
            principal_key,
            PrincipalSlot { ids, pending: pending + 1 },
        );
        let shared = Arc::new(task);
        let ghost id = task_id@;
        put_task(
            &mut self.tasks,
            task_id,
            TaskEntry { task: share(&shared), terminal_at: None },
        );
        proof {
            assert(self@ =~= before.insert(id, entry));
            let after = self@;
            let now_slots = principal_slots(self.principals);
            assert(listed_ids(now_slots, key) =~= listed_ids(slots, key).push(id));
            assert forall|k: Seq<char>| k != key implies #[trigger] listed_ids(now_slots, k)
                == listed_ids(slots, k) by {
                assert(listed_ids(now_slots, k) =~= listed_ids(slots, k));
            }
            assert(!listed_ids(slots, key).contains(id));
            assert forall|k: Seq<char>| #[trigger] listed_ids(now_slots, k).no_duplicates() by {
                assert(listed_ids(slots, k).no_duplicates());
                if k == key {
                    lemma_push_keeps_distinct(listed_ids(slots, key), id);
                }
            }
            assert forall|k: Seq<char>, other: Seq<char>| #[trigger]
                listed_ids(now_slots, k).contains(other) <==> after.contains_key(other)
                    && after[other].task.principal.key() == k by {
                assert(listed_ids(slots, k).contains(other) <==> before.contains_key(other)
                    && before[other].task.principal.key() == k);
                if k == key {
                    lemma_push_contains(listed_ids(slots, key), id, other);
                }
            }
            assert forall|k: Seq<char>|
                #![trigger counted(now_slots, k)]
                counted(now_slots, k) == pending_of(after, k).len() && counted(now_slots, k)
                    <= self.config.max_pending_per_principal by {
                assert(counted(slots, k) == pending_of(before, k).len());
            }
            assert forall|k: Seq<char>| #[trigger]
                self.index(k) == listed_ids(now_slots, k) by {}
        }
        Ok(shared)
    }
}

/// A sequence without repetitions has none after a new item has been added.
proof fn lemma_push_keeps_distinct(s: Seq<Seq<char>>, x: Seq<char>)
    requires
        s.no_duplicates(),
        !s.contains(x),
    ensures
        s.push(x).no_duplicates(),
{
    let t = s.push(x);
    assert forall|i: int, j: int| 0 <= i < t.len() && 0 <= j < t.len() && i != j implies t[i]
        != t[j] by {
        if i < s.len() && j < s.len() {
        } else if i < s.len() {
            assert(s.contains(s[i]));
        } else {
            assert(s.contains(s[j]));
        }
    }
}

/// What a sequence contains after an item has been added.
proof fn lemma_push_contains(s: Seq<Seq<char>>, x: Seq<char>, y: Seq<char>)
    ensures
        s.push(x).contains(y) <==> s.contains(y) || y == x,
{
    if s.contains(y) {
        let i = choose|i: int| 0 <= i < s.len() && s[i] == y;
        assert(s.push(x)[i] == y);
    }
    if y == x {
        assert(s.push(x)[s.len() as int] == y);
    }
}

/// Whether a task is overdue and can expire: it is pending, its time has passed,
/// and it is not being executed.
pub open spec fn expires(entry: TaskEntry<TaskView>, now: Timestamp) -> bool {
    now.nanos > entry.task.expires_at.nanos && entry.task.status.steps_to(TaskStatus::Expired)
}

/// The entry of a task that has expired.
pub open spec fn expired_entry(entry: TaskEntry<TaskView>, now: Timestamp) -> TaskEntry<TaskView> {
    TaskEntry {
        task: stepped(entry.task, TaskStatus::Expired, Some("TTL exceeded"@), now),
        terminal_at: Some(now),
    }
}

/// The tasks of which those in a set have been seen to.
pub open spec fn tasks_with(
    tasks: Tasks,
    done: Set<Seq<char>>,
    change: spec_fn(TaskEntry<TaskView>) -> TaskEntry<TaskView>,
) -> Tasks {
    Map::new(
        |id: Seq<char>| tasks.contains_key(id),
        |id: Seq<char>|
            if done.contains(id) {
                change(tasks[id])
            } else {
                tasks[id]
            },
    )
}

/// What becomes of an entry when overdue tasks expire.
pub open spec fn entry_after_expiry(now: Timestamp) -> spec_fn(TaskEntry<TaskView>) -> TaskEntry<
    TaskView,
> {
    |entry: TaskEntry<TaskView>|
        if expires(entry, now) {
            expired_entry(entry, now)
        } else {
            entry
        }
}

/// The IDs of the tasks that are overdue and can expire.
pub open spec fn overdue_in(tasks: Tasks, now: Timestamp) -> Set<Seq<char>> {
    tasks.dom().filter(|id: Seq<char>| expires(tasks[id], now))
}

/// What becomes of an entry when all pending tasks are marked as failed.
pub open spec fn entry_after_fail(
    failure: FailureInfo<Seq<char>>,
    now: Timestamp,
) -> spec_fn(TaskEntry<TaskView>) -> TaskEntry<TaskView> {
    |entry: TaskEntry<TaskView>|
        if entry.task.status.terminal() {
            entry
        } else {
            TaskEntry { task: failed(entry.task, failure, now), terminal_at: Some(now) }
        }
}

/// The part of a set that has been seen to grows by an item that is in it.
proof fn lemma_grow(all: Set<Seq<char>>, done: Set<Seq<char>>, id: Seq<char>)
    requires
        all.finite(),
        !done.contains(id),
    ensures
        all.intersect(done).finite(),
        all.contains(id) ==> all.intersect(done.insert(id)).len() == all.intersect(done).len() + 1,
        !all.contains(id) ==> all.intersect(done.insert(id)) == all.intersect(done),
{
    if all.contains(id) {
        assert(all.intersect(done.insert(id)) =~= all.intersect(done).insert(id));
    } else {
        assert(all.intersect(done.insert(id)) =~= all.intersect(done));
    }
}

/// The first items of a sequence without repetitions, as a set.
proof fn lemma_prefix_set(s: Seq<Seq<char>>, i: int)
    requires
        s.no_duplicates(),
        0 <= i < s.len(),
    ensures
        !s.take(i).to_set().contains(s[i]),
        s.take(i + 1).to_set() == s.take(i).to_set().insert(s[i]),
{
    assert(!s.take(i).contains(s[i])) by {
        if s.take(i).contains(s[i]) {
            let j = choose|j: int| 0 <= j < i && s.take(i)[j] == s[i];
            assert(s[j] == s[i]);
        }
    }
    assert forall|x: Seq<char>| s.take(i + 1).to_set().contains(x) == s.take(i).to_set().insert(
        s[i],
    ).contains(x) by {
        if s.take(i + 1).contains(x) {
            let longer = s.take(i + 1);
            let j = choose|j: int| 0 <= j < longer.len() && longer[j] == x;
            if j < i {
                assert(s.take(i)[j] == x);
            }
        }
        if s.take(i).contains(x) {
            let j = choose|j: int| 0 <= j < i && s.take(i)[j] == x;
            assert(s.take(i + 1)[j] == x);
        }
        assert(s.take(i + 1)[i] == s[i]);
    }
    assert(s.take(i + 1).to_set() =~= s.take(i).to_set().insert(s[i]));
}

/// After one more item has been seen to.
proof fn lemma_tasks_with(
    tasks: Tasks,
    done: Set<Seq<char>>,
    id: Seq<char>,
    change: spec_fn(TaskEntry<TaskView>) -> TaskEntry<TaskView>,
)
    requires
        tasks.contains_key(id),
        !done.contains(id),
    ensures
        tasks_with(tasks, done, change).contains_key(id),
        tasks_with(tasks, done, change)[id] == tasks[id],
        tasks_with(tasks, done.insert(id), change) == tasks_with(tasks, done, change).insert(
            id,
            change(tasks[id]),
        ),
{
    assert(tasks_with(tasks, done.insert(id), change) =~= tasks_with(tasks, done, change).insert(
        id,
        change(tasks[id]),
    ));
}

impl TaskStore {
    /// Expires the pending tasks whose time has passed, except those that are
    /// being executed. Returns the number of tasks that expired.
    pub fn expire_overdue(&mut self, now: Timestamp) -> (r: usize)
        requires
            old(self).wf(),
        ensures
            final(self).wf(),
            final(self).settings() == old(self).settings(),
            forall|key: Seq<char>| #[trigger] final(self).index(key) == old(self).index(key),
            trails_consistent(old(self)@) ==> trails_consistent(final(self)@),
            final(self)@ == tasks_with(old(self)@, old(self)@.dom(), entry_after_expiry(now)),
            r == overdue_in(old(self)@, now).len(),
    {
        let ids = task_ids(&self.tasks);
        let ghost all = texts(ids@);
        let ghost before = self@;
        let ghost change = entry_after_expiry(now);
        let mut expired: usize = 0;
        let mut i: usize = 0;
        proof {
            assert(all.take(0).to_set() =~= Set::<Seq<char>>::empty());
            assert(self@ =~= tasks_with(before, all.take(0).to_set(), change));
            assert(overdue_in(before, now).intersect(all.take(0).to_set()) =~= Set::<
                Seq<char>,
            >::empty());
            assert forall|id: Seq<char>| all.contains(id) <==> #[trigger] before.contains_key(id) by {
                assert(all.contains(id) <==> task_entries(self.tasks).contains_key(id));
            }
        }
        while i < ids.len()
            invariant
                old(self).wf(),
                before == old(self)@,
                all == texts(ids@),
                all.no_duplicates(),
                forall|id: Seq<char>| all.contains(id) <==> #[trigger] before.contains_key(id),
                change == entry_after_expiry(now),
                i <= ids@.len(),
                expired <= i,
                self.wf(),
                self.settings() == old(self).settings(),
                forall|key: Seq<char>| #[trigger] self.index(key) == old(self).index(key),
                trails_consistent(before) ==> trails_consistent(self@),
                self@ == tasks_with(before, all.take(i as int).to_set(), change),
                expired == overdue_in(before, now).intersect(all.take(i as int).to_set()).len(),
            decreases ids@.len() - i,
        {
            let id = &ids[i];
            let ghost done = all.take(i as int).to_set();
            proof {
                assert(all[i as int] == id@);
                assert(all.contains(id@));
                assert(before.contains_key(id@));
                lemma_prefix_set(all, i as int);
                lemma_tasks_with(before, done, id@, change);
                lemma_grow(overdue_in(before, now), done, id@);
                assert(self@.contains_key(id@));
            }
            if let Ok(entry) = self.entry_of(id) {
                let ghost was = entry@;
                if now.nanos > entry.task.expires_at.nanos && !entry.task.status.is_terminal()
                    && entry.task.status.can_transition_to(TaskStatus::Expired) {
                    let mut task = entry.task.copy();
                    let ghost view = task@;
                    let step = task.transition(
                        TaskStatus::Expired,
                        Some("TTL exceeded".to_owned()),
                        now,
                    );
                    proof {
                        if consistent_trail(view) {
                            law_step_keeps_trail(
                                view,
                                TaskStatus::Expired,
                                Some("TTL exceeded"@),
                                now,
                            );
                        }
                    }
                    self.replace(id, task, Some(now), true);
                    expired = expired + 1;
                } else {
                    assert(change(before[id@]) == before[id@]);
                    assert(self@.insert(id@, before[id@]) =~= self@);
                }
            }
            i = i + 1;
        }
        proof {
            assert(all.take(i as int) =~= all);
            assert(all.to_set() =~= before.dom()) by {
                assert forall|id: Seq<char>| all.to_set().contains(id) == before.dom().contains(
                    id,
                ) by {
                    assert(all.contains(id) <==> before.contains_key(id));
                }
            }
            assert(overdue_in(before, now).intersect(before.dom()) =~= overdue_in(before, now));
        }
        expired
    }

    /// Marks all pending tasks as failed because the service shuts down, those that
    /// await approval too. Returns the number of tasks that were pending.
    pub fn fail_all_pending(&mut self, reason: &str, now: Timestamp) -> (r: usize)
        requires
            old(self).wf(),
        ensures
            final(self).wf(),
            final(self).settings() == old(self).settings(),
            forall|key: Seq<char>| #[trigger] final(self).index(key) == old(self).index(key),
            trails_consistent(old(self)@) ==> trails_consistent(final(self)@),
            final(self)@ == tasks_with(
                old(self)@,
                old(self)@.dom(),
                entry_after_fail(
                    (FailureInfo::<Seq<char>> {
                        stage: FailureStage::ServiceShutdown,
                        reason: reason@,
                        retriable: true,
                    }),
                    now,
                ),
            ),
            r == pending_in(old(self)@).len(),
    {
        let ids = task_ids(&self.tasks);
        let ghost all = texts(ids@);
        let ghost before = self@;
        let ghost failure = FailureInfo::<Seq<char>> {
            stage: FailureStage::ServiceShutdown,
            reason: reason@,
            retriable: true,
        };
        let ghost change = entry_after_fail(failure, now);
        let mut count: usize = 0;
        let mut i: usize = 0;
        proof {
            assert(all.take(0).to_set() =~= Set::<Seq<char>>::empty());
            assert(self@ =~= tasks_with(before, all.take(0).to_set(), change));
            assert(pending_in(before).intersect(all.take(0).to_set()) =~= Set::<
                Seq<char>,
            >::empty());
            assert forall|id: Seq<char>| all.contains(id) <==> #[trigger] before.contains_key(id) by {
                assert(all.contains(id) <==> task_entries(self.tasks).contains_key(id));
            }
        }
        while i < ids.len()
            invariant
                old(self).wf(),
                before == old(self)@,
                all == texts(ids@),
                all.no_duplicates(),
                forall|id: Seq<char>| all.contains(id) <==> #[trigger] before.contains_key(id),
                failure == (FailureInfo::<Seq<char>> {
                    stage: FailureStage::ServiceShutdown,
                    reason: reason@,
                    retriable: true,
                }),
                change == entry_after_fail(failure, now),
                i <= ids@.len(),
                count <= i,
                self.wf(),
                self.settings() == old(self).settings(),
                forall|key: Seq<char>| #[trigger] self.index(key) == old(self).index(key),
                trails_consistent(before) ==> trails_consistent(self@),
                self@ == tasks_with(before, all.take(i as int).to_set(), change),
                count == pending_in(before).intersect(all.take(i as int).to_set()).len(),
            decreases ids@.len() - i,
        {
            let id = &ids[i];
            let ghost done = all.take(i as int).to_set();
            let ghost current = self@;
            proof {
                assert(all[i as int] == id@);
                assert(all.contains(id@));
                assert(before.contains_key(id@));
                lemma_prefix_set(all, i as int);
                lemma_tasks_with(before, done, id@, change);
                lemma_grow(pending_in(before), done, id@);
                assert(self@.contains_key(id@));
            }
            if let Ok(entry) = self.entry_of(id) {
                if !entry.task.status.is_terminal() {
                    let mut task = entry.task.copy();
                    let ghost view = task@;
                    task.failure = Some(
                        FailureInfo {
                            stage: FailureStage::ServiceShutdown,
                            reason: reason.to_owned(),
                            retriable: true,
                        },
                    );
                    let ghost noted = task@;
                    task.enter(TaskStatus::Failed, Some(reason.to_owned()), now);
                    proof {
                        assert(noted == with_failure(view, failure));
                        if consistent_trail(view) {
                            lemma_trail_of(view, noted);
                            lemma_traceable_step(noted, TaskStatus::Failed, Some(reason@), now);
                        }
                    }
                    self.replace(id, task, Some(now), true);
                    count = count + 1;
                } else {
                    assert(current.insert(id@, before[id@]) =~= current);
                }
            }
            i = i + 1;
        }
        proof {
            assert(all.take(i as int) =~= all);
            assert(all.to_set() =~= before.dom()) by {
                assert forall|id: Seq<char>| all.to_set().contains(id) == before.dom().contains(
                    id,
                ) by {
                    assert(all.contains(id) <==> before.contains_key(id));
                }
            }
            assert(pending_in(before).intersect(before.dom()) =~= pending_in(before));
        }
        count
    }
}

/// A sequence without the items of a set.
pub open spec fn without(s: Seq<Seq<char>>, gone: Set<Seq<char>>) -> Seq<Seq<char>>
    decreases s.len(),
{
    if s.len() == 0 {
        s
    } else if gone.contains(s.last()) {
        without(s.drop_last(), gone)
    } else {
        without(s.drop_last(), gone).push(s.last())
    }
}

/// What is left of a sequence: the items that are not in the set, each as often
/// as before.
pub proof fn lemma_without(s: Seq<Seq<char>>, gone: Set<Seq<char>>)
    ensures
        forall|x: Seq<char>| #[trigger]
            without(s, gone).contains(x) <==> s.contains(x) && !gone.contains(x),
        s.no_duplicates() ==> without(s, gone).no_duplicates(),
    decreases s.len(),
{
    if s.len() > 0 {
        let front = s.drop_last();
        let last = s.last();
        lemma_without(front, gone);
        assert(s =~= front.push(last));
        assert forall|x: Seq<char>| #[trigger]
            without(s, gone).contains(x) <==> s.contains(x) && !gone.contains(x) by {
            lemma_push_contains(front, last, x);
            lemma_push_contains(without(front, gone), last, x);
            assert(without(front, gone).contains(x) <==> front.contains(x) && !gone.contains(x));
        }
        if s.no_duplicates() {
            assert forall|i: int, j: int|
                0 <= i < front.len() && 0 <= j < front.len() && i != j implies front[i]
                != front[j] by {
                assert(s[i] != s[j]);
            }
            assert(!front.contains(last)) by {
                if front.contains(last) {
                    let k = choose|k: int| 0 <= k < front.len() && front[k] == last;
                    assert(s[k] == s[s.len() - 1]);
                }
            }
            if !gone.contains(last) {
                assert(without(front, gone).contains(last) <==> front.contains(last)
                    && !gone.contains(last));
                lemma_push_keeps_distinct(without(front, gone), last);
            }
        }
    }
}

/// Taking out one more item.
proof fn lemma_without_more(s: Seq<Seq<char>>, gone: Set<Seq<char>>, id: Seq<char>)
    ensures
        without(without(s, gone), set![id]) == without(s, gone.insert(id)),
    decreases s.len(),
{
    if s.len() > 0 {
        let front = s.drop_last();
        let last = s.last();
        lemma_without_more(front, gone, id);
        if !gone.contains(last) {
            let kept = without(front, gone).push(last);
            assert(kept.drop_last() =~= without(front, gone));
            assert(kept.last() == last);
        }
    }
}

/// Taking out what is not there.
proof fn lemma_without_absent(s: Seq<Seq<char>>, gone: Set<Seq<char>>)
    requires
        forall|x: Seq<char>| gone.contains(x) ==> !s.contains(x),
    ensures
        without(s, gone) == s,
    decreases s.len(),
{
    if s.len() > 0 {
        let front = s.drop_last();
        assert(s =~= front.push(s.last()));
        assert(s.contains(s.last()));
        assert forall|x: Seq<char>| gone.contains(x) implies !front.contains(x) by {
            lemma_push_contains(front, s.last(), x);
        }
        lemma_without_absent(front, gone);
    }
}

/// Strings without those that have a given text.
fn without_id(ids: &Vec<String>, id: &String) -> (r: Vec<String>)
    ensures
        texts(r@) == without(texts(ids@), set![id@]),
{
    let mut out: Vec<String> = Vec::new();
    let mut i: usize = 0;
    let ghost all = texts(ids@);
    assert(texts(out@) =~= without(all.take(0), set![id@]));
    while i < ids.len()
        invariant
            all == texts(ids@),
            i <= ids@.len(),
            texts(out@) == without(all.take(i as int), set![id@]),
        decreases ids@.len() - i,
    {
        let ghost kept = out@;
        if !same_text(ids[i].as_str(), id.as_str()) {
            out.push(ids[i].clone());
            assert(texts(out@) =~= texts(kept).push(ids@[i as int]@));
        }
        i = i + 1;
        assert(all.take(i as int).drop_last() =~= all.take(i as int - 1));
        assert(all.take(i as int).last() == ids@[i as int - 1]@);
    }
    assert(all.take(i as int) =~= all);
    out
}

/// How long a terminal task is kept; a length of time that is too long counts as
/// none.
pub open spec fn grace_period(config: TaskStoreConfig) -> Duration {
    if config.terminal_grace_period.nanos > MAX_TTL_MILLIS * NANOS_PER_MILLI {
        Duration { nanos: 0 }
    } else {
        config.terminal_grace_period
    }
}

/// Whether a task has been terminal for longer than the grace period.
pub open spec fn removable(entry: TaskEntry<TaskView>, grace: Duration, now: Timestamp) -> bool {
    match entry.terminal_at {
        Some(at) => now.since(at).nanos > grace.nanos,
        None => false,
    }
}

/// The IDs of the tasks that have been terminal for longer than the grace period.
pub open spec fn removable_in(tasks: Tasks, grace: Duration, now: Timestamp) -> Set<Seq<char>> {
    tasks.dom().filter(|id: Seq<char>| removable(tasks[id], grace, now))
}

/// The pending tasks after a terminal task has been removed.
proof fn lemma_removed(tasks: Tasks, id: Seq<char>)
    requires
        tasks.contains_key(id),
        tasks[id].task.status.terminal(),
    ensures
        pending_in(tasks.remove(id)) == pending_in(tasks),
        forall|k: Seq<char>| #[trigger]
            pending_of(tasks.remove(id), k) == pending_of(tasks, k),
{
    let after = tasks.remove(id);
    assert(pending_in(after) =~= pending_in(tasks));
    assert forall|k: Seq<char>| #[trigger] pending_of(after, k) == pending_of(tasks, k) by {
        assert(pending_of(after, k) =~= pending_of(tasks, k));
    }
}

impl TaskStore {
    /// Removes a terminal task.
    fn remove(&mut self, id: &String, entry: &TaskEntry)
        requires
            old(self).wf(),
            old(self)@.contains_key(id@),
            old(self)@[id@] == entry@,
            entry@.task.status.terminal(),
        ensures
            final(self).wf(),
            final(self).settings() == old(self).settings(),
            final(self)@ == old(self)@.remove(id@),
            forall|key: Seq<char>| #[trigger]
                final(self).index(key) == without(old(self).index(key), set![id@]),
    {
        let ghost before = self@;
        let ghost slots = principal_slots(self.principals);
        let principal_key = entry.task.principal.rate_limit_key();
        let ghost key = principal_key@;
        proof {
            lemma_removed(before, id@);
            assert(listed_ids(slots, key).contains(id@) <==> before.contains_key(id@)
                && before[id@].task.principal.key() == key);
            lemma_without(listed_ids(slots, key), set![id@]);
        }
        if let Some((ids, pending)) = get_principal(&self.principals, &principal_key) {
            let left = without_id(&ids, id);
            assert(texts(left@).len() == left@.len());
            if left.len() > 0 {
                put_principal(
                    &mut self.principals,
                    principal_key,
                    PrincipalSlot { ids: left, pending },
                );
            } else {
                proof {
                    assert(counted(slots, key) == pending_of(before, key).len());
                    assert forall|x: Seq<char>| !pending_of(before, key).contains(x) by {
                        if pending_of(before, key).contains(x) {
                            assert(listed_ids(slots, key).contains(x) <==> before.contains_key(x)
                                && before[x].task.principal.key() == key);
                            assert(without(listed_ids(slots, key), set![id@]).contains(x)
                                <==> listed_ids(slots, key).contains(x) && !set![id@].contains(x));
                            assert(x != id@);
                            assert(texts(left@).contains(x));
                        }
                    }
                    assert(pending_of(before, key) =~= Set::<Seq<char>>::empty());
                }
                take_principal(&mut self.principals, &principal_key);
            }
        }
        take_task(&mut self.tasks, id);
        proof {
            let after = self@;
            assert(after =~= before.remove(id@));
            let now_slots = principal_slots(self.principals);
            assert forall|k: Seq<char>| #[trigger]
                listed_ids(now_slots, k) == without(listed_ids(slots, k), set![id@]) by {
                if k == key {
                    assert(listed_ids(now_slots, k) =~= without(listed_ids(slots, k), set![id@]));
                } else {
                    assert(listed_ids(now_slots, k) =~= listed_ids(slots, k));
                    assert(listed_ids(slots, k).contains(id@) <==> before.contains_key(id@)
                        && before[id@].task.principal.key() == k);
                    lemma_without_absent(listed_ids(slots, k), set![id@]);
                }
            }
            assert forall|k: Seq<char>| #[trigger] listed_ids(now_slots, k).no_duplicates() by {
                assert(listed_ids(slots, k).no_duplicates());
                lemma_without(listed_ids(slots, k), set![id@]);
            }
            assert forall|k: Seq<char>, other: Seq<char>| #[trigger]
                listed_ids(now_slots, k).contains(other) <==> after.contains_key(other)
                    && after[other].task.principal.key() == k by {
                assert(listed_ids(slots, k).contains(other) <==> before.contains_key(other)
                    && before[other].task.principal.key() == k);
                lemma_without(listed_ids(slots, k), set![id@]);
                assert(without(listed_ids(slots, k), set![id@]).contains(other) <==> listed_ids(
                    slots,
                    k,
                ).contains(other) && !set![id@].contains(other));
            }
            assert forall|k: Seq<char>|
                #![trigger counted(now_slots, k)]
                counted(now_slots, k) == pending_of(after, k).len() && counted(now_slots, k)
                    <= self.config.max_pending_per_principal by {
                assert(counted(slots, k) == pending_of(before, k).len());
            }
            assert forall|id: Seq<char>| #[trigger] after.contains_key(id) implies {
                &&& after[id].task.id == id
                &&& after[id].task.status.terminal() <==> after[id].terminal_at is Some
            } by {
                assert(before.contains_key(id));
            }
        }
    }

    /// Removes the tasks that have been terminal for longer than the grace
    /// period. Returns the number of tasks removed.
    pub fn cleanup_terminal(&mut self, now: Timestamp) -> (r: usize)
        requires
            old(self).wf(),
        ensures
            final(self).wf(),
            final(self).settings() == old(self).settings(),
            final(self)@ == old(self)@.remove_keys(
                removable_in(old(self)@, grace_period(old(self).settings()), now),
            ),
            forall|key: Seq<char>| #[trigger]
                final(self).index(key) == without(
                    old(self).index(key),
                    removable_in(old(self)@, grace_period(old(self).settings()), now),
                ),
            trails_consistent(old(self)@) ==> trails_consistent(final(self)@),
            r == removable_in(old(self)@, grace_period(old(self).settings()), now).len(),
    {
        let ids = task_ids(&self.tasks);
        let ghost all = texts(ids@);
        let ghost before = self@;
        let grace = if self.config.terminal_grace_period.nanos > MAX_TTL_MILLIS * NANOS_PER_MILLI {
            Duration { nanos: 0 }
        } else {
            self.config.terminal_grace_period
        };
        let ghost gone = removable_in(before, grace, now);
        let mut count: usize = 0;
        let mut i: usize = 0;
        proof {
            assert(all.take(0).to_set() =~= Set::<Seq<char>>::empty());
            assert(gone.intersect(all.take(0).to_set()) =~= Set::<Seq<char>>::empty());
            assert(self@ =~= before.remove_keys(gone.intersect(all.take(0).to_set())));
            assert forall|key: Seq<char>| #[trigger]
                self.index(key) == without(
                    old(self).index(key),
                    gone.intersect(all.take(0).to_set()),
                ) by {
                lemma_without_absent(
                    old(self).index(key),
                    gone.intersect(all.take(0).to_set()),
                );
            }
            assert forall|id: Seq<char>| all.contains(id) <==> #[trigger] before.contains_key(id) by {
                assert(all.contains(id) <==> task_entries(self.tasks).contains_key(id));
            }
        }
        while i < ids.len()
            invariant
                old(self).wf(),
                before == old(self)@,
                all == texts(ids@),
                all.no_duplicates(),
                forall|id: Seq<char>| all.contains(id) <==> #[trigger] before.contains_key(id),
                grace == grace_period(old(self).settings()),
                gone == removable_in(before, grace, now),
                i <= ids@.len(),
                count <= i,
                self.wf(),
                self.settings() == old(self).settings(),
                forall|key: Seq<char>| #[trigger]
                    self.index(key) == without(
                        old(self).index(key),
                        gone.intersect(all.take(i as int).to_set()),
                    ),
                self@ == before.remove_keys(gone.intersect(all.take(i as int).to_set())),
                count == gone.intersect(all.take(i as int).to_set()).len(),
            decreases ids@.len() - i,
        {
            let id = &ids[i];
            let ghost done = all.take(i as int).to_set();
            let ghost current = self@;
            proof {
                assert(all[i as int] == id@);
                assert(all.contains(id@));
                assert(before.contains_key(id@));
                lemma_prefix_set(all, i as int);
                lemma_grow(gone, done, id@);
                assert(!gone.intersect(done).contains(id@));
                assert(self@.contains_key(id@));
                assert(self@[id@] == before[id@]);
            }
            if let Ok(entry) = self.entry_of(id) {
                let expired = match entry.terminal_at {
                    Some(at) => now.elapsed_since(at).nanos > grace.nanos,
                    None => false,
                };
                if expired {
                    assert(gone.contains(id@));
                    self.remove(id, &entry);
                    count = count + 1;
                    proof {
                        let next = gone.intersect(done.insert(id@));
                        assert(next =~= gone.intersect(done).insert(id@));
                        assert(self@ =~= before.remove_keys(next));
                        assert forall|key: Seq<char>| #[trigger]
                            self.index(key) == without(old(self).index(key), next) by {
                            lemma_without_more(
                                old(self).index(key),
                                gone.intersect(done),
                                id@,
                            );
                        }
                    }
                } else {
                    assert(!gone.contains(id@));
                }
            }
            i = i + 1;
        }
        proof {
            assert(all.take(i as int) =~= all);
            assert(gone.intersect(all.to_set()) =~= gone) by {
                assert forall|id: Seq<char>| gone.contains(id) implies all.to_set().contains(id) by {
                    assert(all.contains(id) <==> before.contains_key(id));
                }
            }
            if trails_consistent(before) {
                assert forall|id: Seq<char>| #[trigger] self@.contains_key(id) implies consistent_trail(
                    self@[id].task,
                ) by {
                    assert(before.contains_key(id));
                }
            }
        }
        count
    }
}

/// Tasks from the newest to the oldest with one more put behind all those that
/// are not older.
pub open spec fn insert_by_age(sorted: Seq<TaskView>, task: TaskView) -> Seq<TaskView>
    decreases sorted.len(),
{
    if sorted.len() == 0 || sorted.last().created_at.nanos >= task.created_at.nanos {
        sorted.push(task)
    } else {
        insert_by_age(sorted.drop_last(), task).push(sorted.last())
    }
}

/// Tasks from the newest to the oldest; tasks of the same age stay in their
/// order.
pub open spec fn newest_first(tasks: Seq<TaskView>) -> Seq<TaskView>
    decreases tasks.len(),
{
    if tasks.len() == 0 {
        tasks
    } else {
        insert_by_age(newest_first(tasks.drop_last()), tasks.last())
    }
}

/// A page of a list: at most `limit` items from position `offset` on.
pub open spec fn page(tasks: Seq<TaskView>, offset: nat, limit: nat) -> Seq<TaskView> {
    if offset >= tasks.len() {
        Seq::empty()
    } else if tasks.len() - offset <= limit {
        tasks.subrange(offset as int, tasks.len() as int)
    } else {
        tasks.subrange(offset as int, (offset + limit) as int)
    }
}

/// The tasks with the given IDs.
pub open spec fn tasks_at(tasks: Tasks, ids: Seq<Seq<char>>) -> Seq<TaskView> {
    Seq::new(ids.len(), |i: int| tasks[ids[i]].task)
}

/// The views of a sequence of tasks.
pub open spec fn shared_views(tasks: Seq<Arc<Task>>) -> Seq<TaskView> {
    Seq::new(tasks.len(), |i: int| (*tasks[i])@)
}

/// Whether tasks stand from the newest to the oldest.
pub open spec fn by_age(tasks: Seq<TaskView>) -> bool {
    forall|i: int, j: int|
        0 <= i < j < tasks.len() ==> (#[trigger] tasks[i]).created_at.nanos >= (
        #[trigger] tasks[j]).created_at.nanos
}

/// Where a task is put among others that stand from the newest to the oldest.
proof fn lemma_insert_by_age(sorted: Seq<TaskView>, task: TaskView, pos: int)
    requires
        0 <= pos <= sorted.len(),
        pos == 0 || sorted[pos - 1].created_at.nanos >= task.created_at.nanos,
        forall|j: int|
            pos <= j < sorted.len() ==> (#[trigger] sorted[j]).created_at.nanos
                < task.created_at.nanos,
    ensures
        insert_by_age(sorted, task) == sorted.insert(pos, task),
    decreases sorted.len(),
{
    if pos == sorted.len() {
        assert(sorted.insert(pos, task) =~= sorted.push(task));
    } else {
        assert(sorted.last().created_at.nanos < task.created_at.nanos);
        lemma_insert_by_age(sorted.drop_last(), task, pos);
        assert(sorted.drop_last().insert(pos, task).push(sorted.last()) =~= sorted.insert(
            pos,
            task,
        ));
    }
}

/// A list of tasks is ordered from the newest to the oldest and holds the tasks
/// that it is made of.
pub proof fn law_newest_first(tasks: Seq<TaskView>)
    ensures
        by_age(newest_first(tasks)),
        newest_first(tasks).len() == tasks.len(),
        newest_first(tasks).to_multiset() == tasks.to_multiset(),
    decreases tasks.len(),
{
    if tasks.len() > 0 {
        let front = tasks.drop_last();
        let task = tasks.last();
        law_newest_first(front);
        let sorted = newest_first(front);
        let pos = lemma_age_position(sorted, task);
        let after = sorted.insert(pos, task);
        assert forall|i: int, j: int| 0 <= i < j < after.len() implies (
        #[trigger] after[i]).created_at.nanos >= (#[trigger] after[j]).created_at.nanos by {
            let pi = if i < pos {
                i
            } else {
                i - 1
            };
            let pj = if j < pos {
                j
            } else {
                j - 1
            };
            if i == pos {
                assert(after[j] == sorted[pj]);
            } else if j == pos {
                assert(after[i] == sorted[pi]);
                if pi < pos - 1 {
                    assert(sorted[pi].created_at.nanos >= sorted[pos - 1].created_at.nanos);
                }
            } else {
                assert(after[i] == sorted[pi] && after[j] == sorted[pj]);
            }
        }
        broadcast use vstd::seq_lib::group_to_multiset_ensures;

        assert(after.to_multiset() == sorted.to_multiset().insert(task));
        assert(tasks == front.push(task));
    }
}

/// The place of a task among others that stand from the newest to the oldest.
proof fn lemma_age_position(sorted: Seq<TaskView>, task: TaskView) -> (pos: int)
    requires
        by_age(sorted),
    ensures
        0 <= pos <= sorted.len(),
        pos == 0 || sorted[pos - 1].created_at.nanos >= task.created_at.nanos,
        forall|j: int|
            pos <= j < sorted.len() ==> (#[trigger] sorted[j]).created_at.nanos
                < task.created_at.nanos,
        insert_by_age(sorted, task) == sorted.insert(pos, task),
    decreases sorted.len(),
{
    if sorted.len() == 0 || sorted.last().created_at.nanos >= task.created_at.nanos {
        lemma_insert_by_age(sorted, task, sorted.len() as int);
        sorted.len() as int
    } else {
        let front = sorted.drop_last();
        assert forall|i: int, j: int| 0 <= i < j < front.len() implies (
        #[trigger] front[i]).created_at.nanos >= (#[trigger] front[j]).created_at.nanos by {
            assert(front[i] == sorted[i] && front[j] == sorted[j]);
        }
        let pos = lemma_age_position(front, task);
        if pos > 0 {
            assert(front[pos - 1] == sorted[pos - 1]);
        }
        assert forall|j: int| pos <= j < sorted.len() implies (
        #[trigger] sorted[j]).created_at.nanos < task.created_at.nanos by {
            if j < front.len() {
                assert(front[j] == sorted[j]);
            }
        }
        lemma_insert_by_age(sorted, task, pos);
        pos
    }
}

/// Puts a task into a list that stands from the newest to the oldest.
fn add_by_age(list: &mut Vec<Arc<Task>>, task: Arc<Task>)
    requires
        by_age(shared_views(old(list)@)),
    ensures
        shared_views(final(list)@) == insert_by_age(shared_views(old(list)@), (*task)@),
{
    let ghost sorted = shared_views(list@);
    let mut pos: usize = list.len();
    while pos > 0 && list[pos - 1].created_at.nanos < task.created_at.nanos
        invariant
            *list == *old(list),
            sorted == shared_views(list@),
            pos <= list@.len(),
            forall|j: int|
                pos <= j < sorted.len() ==> (#[trigger] sorted[j]).created_at.nanos
                    < task.created_at.nanos,
        decreases pos,
    {
        assert(sorted[pos as int - 1].created_at == (*list@[pos as int - 1]).created_at);
        pos = pos - 1;
    }
    proof {
        if pos > 0 {
            assert(sorted[pos as int - 1].created_at == (*list@[pos as int - 1]).created_at);
        }
        lemma_insert_by_age(sorted, (*task)@, pos as int);
    }
    let ghost view = (*task)@;
    list.insert(pos, task);
    assert(shared_views(list@) =~= sorted.insert(pos as int, view));
}

/// What a caller that waits for a task is told.
pub enum WaitStep {
    /// The wait is over.
    Over(Result<Arc<Task>, TaskError>),
    /// Wait this long for news of the task, then ask again.
    Wait(Duration),
}

impl TaskStore {
    /// Lists the tasks of a principal from the newest to the oldest, a page at a
    /// time.
    pub fn list_for_principal(&self, principal: &Principal, offset: usize, limit: usize) -> (r: Vec<
        Arc<Task>,
    >)
        requires
            self.wf(),
        ensures
            shared_views(r@) == page(
                newest_first(tasks_at(self@, self.index(principal@.key()))),
                offset as nat,
                limit as nat,
            ),
    {
        let key = principal.rate_limit_key();
        let ghost ids_listed = self.index(key@);
        let mut sorted: Vec<Arc<Task>> = Vec::new();
        let ids = match get_principal(&self.principals, &key) {
            Some((ids, _)) => ids,
            None => Vec::new(),
        };
        assert(texts(ids@) =~= ids_listed);
        let ghost all = tasks_at(self@, ids_listed);
        assert(shared_views(sorted@) =~= newest_first(all.take(0)));
        let mut i: usize = 0;
        while i < ids.len()
            invariant
                self.wf(),
                ids_listed == self.index(principal@.key()),
                texts(ids@) == ids_listed,
                all == tasks_at(self@, ids_listed),
                i <= ids@.len(),
                shared_views(sorted@) == newest_first(all.take(i as int)),
            decreases ids@.len() - i,
        {
            proof {
                self.lemma_wf();
                assert(ids_listed[i as int] == ids@[i as int]@);
                assert(ids_listed.contains(ids@[i as int]@));
                assert(self.index(principal@.key()).contains(ids@[i as int]@));
                law_newest_first(all.take(i as int));
                let longer = all.take(i as int + 1);
                assert(longer.drop_last() =~= all.take(i as int));
                assert(longer.last() == all[i as int]);
            }
            match self.get(&ids[i]) {
                Ok(task) => {
                    add_by_age(&mut sorted, task);
                },
                Err(_) => {},
            }
            i = i + 1;
        }
        assert(all.take(i as int) =~= all);
        let ghost whole = shared_views(sorted@);
        let mut out: Vec<Arc<Task>> = Vec::new();
        let mut k: usize = offset;
        assert(shared_views(out@) =~= page(whole, offset as nat, 0));
        while k < sorted.len() && out.len() < limit
            invariant
                whole == shared_views(sorted@),
                offset <= k,
                offset < sorted@.len() ==> k <= sorted@.len(),
                out@.len() == k - offset,
                out@.len() <= limit,
                shared_views(out@) == page(whole, offset as nat, (k - offset) as nat),
            decreases sorted@.len() - k,
        {
            let ghost before = shared_views(out@);
            out.push(share(&sorted[k]));
            k = k + 1;
            proof {
                assert(shared_views(out@) =~= before.push(whole[k as int - 1]));
                assert(page(whole, offset as nat, (k - offset) as nat) =~= before.push(
                    whole[k as int - 1],
                ));
            }
        }
        assert(shared_views(out@) =~= page(whole, offset as nat, limit as nat));
        out
    }

    /// What a caller that waits for a task's end until a deadline is told:
    /// the task, once it is terminal; that there is no such task; that the result
    /// is not ready, once the deadline has passed or the last wait has run out;
    /// or how long to wait.
    pub fn wait_step(
        &self,
        task_id: &TaskId,
        now: Timestamp,
        deadline: Timestamp,
        wait_ran_out: bool,
    ) -> (r: WaitStep)
        ensures
            match r {
                WaitStep::Over(Ok(t)) => {
                    &&& self@.contains_key(task_id@)
                    &&& self@[task_id@].task.status.terminal()
                    &&& (*t)@ == self@[task_id@].task
                },
                WaitStep::Over(Err(e)) => if self@.contains_key(task_id@) {
                    &&& !self@[task_id@].task.status.terminal()
                    &&& wait_ran_out || now.nanos >= deadline.nanos
                    &&& e@ == (TaskError::<Seq<char>>::ResultNotReady { task_id: task_id@ })
                } else {
                    e@ == (TaskError::<Seq<char>>::NotFound { task_id: task_id@ })
                },
                WaitStep::Wait(d) => {
                    &&& self@.contains_key(task_id@)
                    &&& !self@[task_id@].task.status.terminal()
                    &&& !wait_ran_out && now.nanos < deadline.nanos
                    &&& d == deadline.since(now)
                },
            },
    {
        match self.get(task_id) {
            Ok(task) => {
                if task.status.is_terminal() {
                    WaitStep::Over(Ok(task))
                } else if wait_ran_out || now.nanos >= deadline.nanos {
                    WaitStep::Over(Err(TaskError::ResultNotReady { task_id: task_id.clone() }))
                } else {
                    WaitStep::Wait(deadline.elapsed_since(now))
                }
            },
            Err(e) => WaitStep::Over(Err(e)),
        }
    }
}

} // verus!
