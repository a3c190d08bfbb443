//! The concurrent maps in which the store keeps its tasks and what it knows of
//! each principal.

use std::sync::Arc;
use vstd::prelude::*;

use crate::governance::task::types::{Task, TaskView};
use crate::text::texts;
use crate::time::Timestamp;

verus! {

/// `dashmap::DashMap`, a concurrent hash map.
#[verifier::external_type_specification]
#[verifier::external_body]
#[verifier::reject_recursive_types(K)]
#[verifier::reject_recursive_types(V)]
#[verifier::reject_recursive_types(S)]
pub struct ExDashMap<K, V, S>(dashmap::DashMap<K, V, S>);

/// A task in the store. `X` holds the task.
#[derive(Debug)]
pub struct TaskEntry<X = Arc<Task>> {
    /// The task.
    pub task: X,
    /// When the task became terminal.
    pub terminal_at: Option<Timestamp>,
}

impl TaskEntry {
    /// The entry with its task taken by its view.
    pub open spec fn view(self) -> TaskEntry<TaskView> {
        TaskEntry { task: (*self.task)@, terminal_at: self.terminal_at }
    }
}

/// What the store knows of a principal.
#[derive(Debug)]
pub struct PrincipalSlot {
    /// The IDs of the principal's tasks, in the order of their creation.
    pub ids: Vec<String>,
    /// The number of the principal's tasks that are pending.
    pub pending: usize,
}

/// What a map of tasks holds.
pub uninterp spec fn task_entries(map: dashmap::DashMap<String, TaskEntry>) -> Map<
    Seq<char>,
    TaskEntry,
>;

/// What a map of principals holds.
pub uninterp spec fn principal_slots(map: dashmap::DashMap<String, PrincipalSlot>) -> Map<
    Seq<char>,
    PrincipalSlot,
>;

/// `Arc::clone` gives another pointer to the same task.
#[verifier::external_body]
pub(crate) fn share(task: &Arc<Task>) -> (r: Arc<Task>)
    ensures
        r == *task,
{
    task.clone()
}

/// `DashMap::new` makes a map that holds nothing.
#[verifier::external_body]
pub(crate) fn new_task_map() -> (r: dashmap::DashMap<String, TaskEntry>)
    ensures
        task_entries(r).dom() == Set::<Seq<char>>::empty(),
{
    dashmap::DashMap::new()
}

/// `DashMap::len` counts the entries.
#[verifier::external_body]
pub(crate) fn task_count(map: &dashmap::DashMap<String, TaskEntry>) -> (r: usize)
    ensures
        r == task_entries(*map).dom().len(),
{
    map.len()
}

/// `DashMap::get` finds the entry of a key; the task is shared, not copied.
#[verifier::external_body]
pub(crate) fn get_task(map: &dashmap::DashMap<String, TaskEntry>, id: &String) -> (r: Option<
    TaskEntry,
>)
    ensures
        match r {
            Some(e) => task_entries(*map).contains_key(id@) && e == task_entries(*map)[id@],
            None => !task_entries(*map).contains_key(id@),
        },
{
    map.get(id).map(|e| TaskEntry { task: e.task.clone(), terminal_at: e.terminal_at })
}

/// `DashMap::insert` gives a key an entry, in place of the one it had.
#[verifier::external_body]
pub(crate) fn put_task(map: &mut dashmap::DashMap<String, TaskEntry>, id: String, entry: TaskEntry)
    ensures
        task_entries(*final(map)) == task_entries(*old(map)).insert(id@, entry),
{
    map.insert(id, entry);
}

/// `DashMap::remove` takes a key's entry out of the map.
#[verifier::external_body]
pub(crate) fn take_task(map: &mut dashmap::DashMap<String, TaskEntry>, id: &String)
    ensures
        task_entries(*final(map)) == task_entries(*old(map)).remove(id@),
{
    map.remove(id);
}

/// `DashMap::iter` yields each key once, in an order that is left open.
#[verifier::external_body]
pub(crate) fn task_ids(map: &dashmap::DashMap<String, TaskEntry>) -> (r: Vec<String>)
    ensures
        texts(r@).no_duplicates(),
        forall|id: Seq<char>|
            texts(r@).contains(id) <==> #[trigger] task_entries(*map).contains_key(id),
{
    map.iter().map(|e| e.key().clone()).collect()
}

/// `DashMap::new` makes a map that holds nothing.
#[verifier::external_body]
pub(crate) fn new_principal_map() -> (r: dashmap::DashMap<String, PrincipalSlot>)
    ensures
        principal_slots(r).dom() == Set::<Seq<char>>::empty(),
{
    dashmap::DashMap::new()
}

/// `DashMap::get` finds the slot of a key, of which copies of the fields are
/// handed out.
#[verifier::external_body]
pub(crate) fn get_principal(
    map: &dashmap::DashMap<String, PrincipalSlot>,
    key: &String,
) -> (r: Option<(Vec<String>, usize)>)
    ensures
        match r {
            Some((ids, pending)) => {
                &&& principal_slots(*map).contains_key(key@)
                &&& texts(ids@) == texts(principal_slots(*map)[key@].ids@)
                &&& pending == principal_slots(*map)[key@].pending
            },
            None => !principal_slots(*map).contains_key(key@),
        },
{
    map.get(key).map(|e| (e.ids.clone(), e.pending))
}

/// `DashMap::insert` gives a key a slot, in place of the one it had.
#[verifier::external_body]
pub(crate) fn put_principal(
    map: &mut dashmap::DashMap<String, PrincipalSlot>,
    key: String,
    slot: PrincipalSlot,
)
    ensures
        principal_slots(*final(map)) == principal_slots(*old(map)).insert(key@, slot),
{
    map.insert(key, slot);
}

/// `DashMap::remove` takes a key's slot out of the map.
#[verifier::external_body]
pub(crate) fn take_principal(map: &mut dashmap::DashMap<String, PrincipalSlot>, key: &String)
    ensures
        principal_slots(*final(map)) == principal_slots(*old(map)).remove(key@),
{
    map.remove(key);
}

} // verus!
