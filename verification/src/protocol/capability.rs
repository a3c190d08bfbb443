//! Capabilities that are found in, written into and taken out of the answer to
//! `initialize`.

use vstd::prelude::*;
use vstd::string::*;

use crate::governance::approval::redact::value_at;
use crate::json::{
    drop_member, lemma_member_position, lemma_member_views, lemma_position_is, lemma_set_member,
    lemma_without_key, member_position, member_views, parted, position_of, put_member, set_member,
    without_key, Json, JsonView,
};

verus! {

/// What the handshake with the upstream server has told.
#[derive(Debug, Clone, Copy, PartialEq, Eq, Structural)]
pub struct CapabilityCache {
    /// Whether upstream supports tasks.
    pub supports_tasks: bool,
    /// Whether upstream supports notifications about tasks.
    pub supports_task_sse: bool,
    /// Whether the handshake has been completed.
    pub initialized: bool,
}

impl CapabilityCache {
    /// Creates a cache that knows of nothing.
    pub fn new() -> (r: Self)
        ensures
            r == (CapabilityCache {
                supports_tasks: false,
                supports_task_sse: false,
                initialized: false,
            }),
    {
        CapabilityCache { supports_tasks: false, supports_task_sse: false, initialized: false }
    }

    /// Notes whether upstream supports tasks; the handshake is then complete.
    pub fn set_upstream_supports_tasks(&mut self, supports: bool)
        ensures
            *final(self) == (CapabilityCache {
                supports_tasks: supports,
                initialized: true,
                ..*old(self)
            }),
    {
        self.supports_tasks = supports;
        self.initialized = true;
    }

    /// Notes whether upstream supports notifications about tasks.
    pub fn set_upstream_supports_task_sse(&mut self, supports: bool)
        ensures
            *final(self) == (CapabilityCache { supports_task_sse: supports, ..*old(self) }),
    {
        self.supports_task_sse = supports;
    }

    /// Returns whether upstream supports tasks.
    pub fn upstream_supports_tasks(&self) -> (r: bool)
        ensures
            r == self.supports_tasks,
    {
        self.supports_tasks
    }

    /// Returns whether upstream supports notifications about tasks.
    pub fn upstream_supports_task_sse(&self) -> (r: bool)
        ensures
            r == self.supports_task_sse,
    {
        self.supports_task_sse
    }

    /// Returns whether the handshake has been completed.
    pub fn has_initialized(&self) -> (r: bool)
        ensures
            r == self.initialized,
    {
        self.initialized
    }

    /// Forgets everything, as when the upstream server is connected again.
    pub fn invalidate(&mut self)
        ensures
            *final(self) == (CapabilityCache {
                supports_tasks: false,
                supports_task_sse: false,
                initialized: false,
            }),
    {
        self.supports_tasks = false;
        self.supports_task_sse = false;
        self.initialized = false;
    }
}

impl Default for CapabilityCache {
    fn default() -> (r: Self)
        ensures
            r == (CapabilityCache {
                supports_tasks: false,
                supports_task_sse: false,
                initialized: false,
            }),
    {
        CapabilityCache::new()
    }
}

/// The path to the capability of tasks.
pub open spec fn task_path() -> Seq<Seq<char>> {
    seq!["capabilities"@, "tasks"@, "requests"@, "tools/call"@]
}

/// The path to the capability of notifications about tasks.
pub open spec fn sse_path() -> Seq<Seq<char>> {
    seq!["capabilities"@, "notifications"@, "tasks"@, "status"@]
}

/// Whether `true` stands at the end of a path.
pub open spec fn flagged(value: JsonView, path: Seq<Seq<char>>) -> bool
    decreases path.len(),
{
    if path.len() == 0 {
        value == JsonView::Bool(true)
    } else {
        match value.member(path[0]) {
            Some(child) => flagged(child, path.skip(1)),
            None => false,
        }
    }
}

/// A value with `true` at the end of a path. Missing objects on the way are
/// added; where something on the way is no object, it is left alone.
pub open spec fn with_flag(value: JsonView, path: Seq<Seq<char>>) -> JsonView
    decreases path.len(),
{
    match value {
        JsonView::Object(members) => if path.len() == 0 {
            value
        } else if path.len() == 1 {
            JsonView::Object(set_member(members, path[0], JsonView::Bool(true)))
        } else {
            let child = match value.member(path[0]) {
                Some(c) => c,
                None => JsonView::Object(Seq::empty()),
            };
            JsonView::Object(set_member(members, path[0], with_flag(child, path.skip(1))))
        },
        _ => value,
    }
}

/// Whether a path can be followed or added: everything on the way that is there
/// is an object.
pub open spec fn passable(value: JsonView, path: Seq<Seq<char>>) -> bool
    decreases path.len(),
{
    path.len() == 0 || (value is Object && (path.len() == 1 || match value.member(path[0]) {
        Some(child) => passable(child, path.skip(1)),
        None => true,
    }))
}

/// A value without what stands at the end of a path; objects on the way that are
/// then empty are taken out too.
pub open spec fn without_flag(value: JsonView, path: Seq<Seq<char>>) -> JsonView
    decreases path.len(),
{
    match value {
        JsonView::Object(members) => if path.len() == 0 {
            value
        } else if path.len() == 1 {
            JsonView::Object(without_key(members, path[0]))
        } else {
            match value.member(path[0]) {
                Some(JsonView::Object(inner)) => {
                    let child = without_flag(JsonView::Object(inner), path.skip(1));
                    if child == JsonView::Object(Seq::empty()) {
                        JsonView::Object(without_key(members, path[0]))
                    } else {
                        JsonView::Object(set_member(members, path[0], child))
                    }
                },
                _ => value,
            }
        },
        _ => value,
    }
}

/// An answer to `initialize` without the capability of notifications about
/// tasks. The object of the capabilities stays, though it may be empty.
pub open spec fn without_sse(result: JsonView) -> JsonView {
    match (result, result.member("capabilities"@)) {
        (JsonView::Object(members), Some(JsonView::Object(inner))) => JsonView::Object(
            set_member(
                members,
                "capabilities"@,
                without_flag(JsonView::Object(inner), sse_path().skip(1)),
            ),
        ),
        _ => result,
    }
}

/// Whether `true` stands at the end of a path.
fn has_flag(value: &Json, path: &Vec<&str>, at: usize) -> (r: bool)
    requires
        at <= path@.len(),
    ensures
        r == flagged(value@, slices(path@).skip(at as int)),
    decreases path@.len() - at,
{
    let ghost rest = slices(path@).skip(at as int);
    if at == path.len() {
        return value.is_true();
    }
    assert(rest[0] == path@[at as int]@);
    assert(rest.skip(1) =~= slices(path@).skip(at + 1));
    match value.get(path[at]) {
        Some(child) => has_flag(child, path, at + 1),
        None => false,
    }
}

/// The views of a list of string slices.
pub open spec fn slices(path: Seq<&str>) -> Seq<Seq<char>> {
    Seq::new(path.len(), |i: int| path[i]@)
}

/// The value at a position is taken out of a list of members, and a null value
/// stands in its place.
fn take_value(members: &mut Vec<(String, Json)>, i: usize) -> (r: (String, Json))
    requires
        i < old(members)@.len(),
    ensures
        r == old(members)@[i as int],
        final(members)@.len() == old(members)@.len(),
        forall|j: int| 0 <= j < old(members)@.len() && j != i ==> final(members)@[j] == old(
            members,
        )@[j],
{
    let mut taken: (String, Json) = ("".to_owned(), Json::Null);
    members.set_and_swap(i, &mut taken);
    taken
}

/// Puts `true` at the end of a path.
fn put_flag(value: Json, path: &Vec<&str>, at: usize) -> (r: Json)
    requires
        at < path@.len(),
    ensures
        r@ == with_flag(value@, slices(path@).skip(at as int)),
    decreases path@.len() - at,
{
    let ghost rest = slices(path@).skip(at as int);
    assert(rest[0] == path@[at as int]@);
    match value {
        Json::Object(members) => {
            let mut members = members;
            let ghost before = member_views(members@);
            if path.len() - at == 1 {
                put_member(&mut members, path[at], Json::Bool(true));
                return Json::Object(members);
            }
            assert(rest.skip(1) =~= slices(path@).skip(at + 1));
            proof {
                lemma_member_views(members@);
                lemma_member_position(before, rest[0]);
            }
            match position_of(&members, path[at]) {
                Some(i) => {
                    let (key, child) = take_value(&mut members, i);
                    let changed = put_flag(child, path, at + 1);
                    members.set(i, (key, changed));
                    proof {
                        lemma_member_views(members@);
                        assert(member_views(members@) =~= set_member(before, rest[0], changed@));
                    }
                },
                None => {
                    let empty: Vec<(String, Json)> = Vec::new();
                    proof {
                        lemma_member_views(empty@);
                        assert(member_views(empty@) =~= Seq::<(Seq<char>, JsonView)>::empty());
                    }
                    let child = put_flag(Json::Object(empty), path, at + 1);
                    put_member(&mut members, path[at], child);
                },
            }
            Json::Object(members)
        },
        other => other,
    }
}

/// Takes out what stands at the end of a path.
fn drop_flag(value: Json, path: &Vec<&str>, at: usize) -> (r: Json)
    requires
        at < path@.len(),
    ensures
        r@ == without_flag(value@, slices(path@).skip(at as int)),
    decreases path@.len() - at,
{
    let ghost rest = slices(path@).skip(at as int);
    assert(rest[0] == path@[at as int]@);
    match value {
        Json::Object(members) => {
            let mut members = members;
            let ghost before = member_views(members@);
            if path.len() - at == 1 {
                drop_member(&mut members, path[at]);
                return Json::Object(members);
            }
            assert(rest.skip(1) =~= slices(path@).skip(at + 1));
            proof {
                lemma_member_views(members@);
                lemma_member_position(before, rest[0]);
            }
            match position_of(&members, path[at]) {
                Some(i) => {
                    let (key, child) = take_value(&mut members, i);
                    let ghost inner = child@;
                    let is_object = match &child {
                        Json::Object(_) => true,
                        _ => false,
                    };
                    let changed = drop_flag(child, path, at + 1);
                    let emptied = is_object && is_empty_object(&changed);
                    let ghost shown = changed@;
                    members.set(i, (key, changed));
                    proof {
                        lemma_member_views(members@);
                        assert(member_views(members@) =~= set_member(before, rest[0], shown));
                        if !(inner is Object) {
                            assert(set_member(before, rest[0], shown) =~= before);
                        }
                        if emptied {
                            lemma_set_keeps_without(before, rest[0], shown);
                        }
                    }
                    if emptied {
                        drop_member(&mut members, path[at]);
                    }
                },
                None => {},
            }
            Json::Object(members)
        },
        other => other,
    }
}

/// Whether a value is an object without members.
fn is_empty_object(value: &Json) -> (r: bool)
    ensures
        r == (value@ == JsonView::Object(Seq::empty())),
{
    match value {
        Json::Object(members) => {
            proof {
                lemma_member_views(members@);
                if members@.len() == 0 {
                    assert(member_views(members@) =~= Seq::<(Seq<char>, JsonView)>::empty());
                }
            }
            members.len() == 0
        },
        _ => false,
    }
}

/// What has been set goes when its key is taken out.
proof fn lemma_set_keeps_without(
    members: Seq<(Seq<char>, JsonView)>,
    key: Seq<char>,
    value: JsonView,
)
    requires
        member_position(members, key) < members.len(),
    ensures
        without_key(set_member(members, key, value), key) == without_key(members, key),
{
    lemma_member_position(members, key);
    let n = member_position(members, key) as int;
    lemma_update_without(members, key, value, n);
}

proof fn lemma_update_without(
    members: Seq<(Seq<char>, JsonView)>,
    key: Seq<char>,
    value: JsonView,
    n: int,
)
    requires
        0 <= n < members.len(),
        members[n].0 == key,
    ensures
        without_key(members.update(n, (key, value)), key) == without_key(members, key),
    decreases members.len(),
{
    let after = members.update(n, (key, value));
    if n == members.len() - 1 {
        assert(after.drop_last() =~= members.drop_last());
    } else {
        lemma_update_without(members.drop_last(), key, value, n);
        assert(after.drop_last() =~= members.drop_last().update(n, (key, value)));
    }
}

/// Whether an answer to `initialize` tells that upstream supports tasks.
pub fn extract_upstream_task_support(result: &Json) -> (r: bool)
    ensures
        r == flagged(result@, task_path()),
{
    let path: Vec<&str> = vec!["capabilities", "tasks", "requests", "tools/call"];
    assert(slices(path@).skip(0) =~= task_path());
    has_flag(result, &path, 0)
}

/// Whether an answer to `initialize` tells that upstream supports notifications
/// about tasks.
pub fn extract_upstream_sse_support(result: &Json) -> (r: bool)
    ensures
        r == flagged(result@, sse_path()),
{
    let path: Vec<&str> = vec!["capabilities", "notifications", "tasks", "status"];
    assert(slices(path@).skip(0) =~= sse_path());
    has_flag(result, &path, 0)
}

/// Writes the capability of tasks into an answer to `initialize`.
pub fn inject_task_capability(result: &mut Json)
    ensures
        final(result)@ == with_flag(old(result)@, task_path()),
{
    let path: Vec<&str> = vec!["capabilities", "tasks", "requests", "tools/call"];
    assert(slices(path@).skip(0) =~= task_path());
    let mut taken = Json::Null;
    std::mem::swap(result, &mut taken);
    *result = put_flag(taken, &path, 0);
}

/// Writes the capability of notifications about tasks into an answer to
/// `initialize`.
pub fn inject_sse_capability(result: &mut Json)
    ensures
        final(result)@ == with_flag(old(result)@, sse_path()),
{
    let path: Vec<&str> = vec!["capabilities", "notifications", "tasks", "status"];
    assert(slices(path@).skip(0) =~= sse_path());
    let mut taken = Json::Null;
    std::mem::swap(result, &mut taken);
    *result = put_flag(taken, &path, 0);
}

/// Takes the capability of notifications about tasks out of an answer to
/// `initialize`.
pub fn strip_sse_capability(result: &mut Json)
    ensures
        final(result)@ == without_sse(old(result)@),
{
    let mut taken = Json::Null;
    std::mem::swap(result, &mut taken);
    *result = strip_sse(taken);
}

fn strip_sse(result: Json) -> (r: Json)
    ensures
        r@ == without_sse(result@),
{
    let path: Vec<&str> = vec!["notifications", "tasks", "status"];
    assert(slices(path@).skip(0) =~= sse_path().skip(1));
    match result {
        Json::Object(members) => {
            let mut members = members;
            let ghost before = member_views(members@);
            proof {
                lemma_member_views(members@);
                lemma_member_position(before, "capabilities"@);
            }
            match position_of(&members, "capabilities") {
                Some(i) => {
                    let (key, child) = take_value(&mut members, i);
                    let ghost inner = child@;
                    let changed = drop_flag(child, &path, 0);
                    let ghost shown = changed@;
                    members.set(i, (key, changed));
                    proof {
                        lemma_member_views(members@);
                        assert(member_views(members@) =~= set_member(
                            before,
                            "capabilities"@,
                            shown,
                        ));
                        if !(inner is Object) {
                            assert(set_member(before, "capabilities"@, shown) =~= before);
                        }
                    }
                },
                None => {},
            }
            Json::Object(members)
        },
        other => other,
    }
}

/// A flag that has been put is found.
proof fn lemma_put_flag_is_found(value: JsonView, path: Seq<Seq<char>>)
    requires
        path.len() > 0,
        passable(value, path),
    ensures
        flagged(with_flag(value, path), path),
    decreases path.len(),
{
    let members = value->Object_0;
    if path.len() == 1 {
        lemma_set_member(members, path[0], JsonView::Bool(true), path[0]);
        assert(flagged(JsonView::Bool(true), path.skip(1)));
    } else {
        let child = match value.member(path[0]) {
            Some(c) => c,
            None => JsonView::Object(Seq::empty()),
        };
        lemma_set_member(members, path[0], with_flag(child, path.skip(1)), path[0]);
        if value.member(path[0]) is None {
            assert(child.member(path.skip(1)[0]) is None);
        }
        lemma_put_flag_is_found(child, path.skip(1));
    }
}

/// Putting a flag changes no flag at the end of a path that parts from its own.
proof fn lemma_put_flag_elsewhere(value: JsonView, path: Seq<Seq<char>>, other: Seq<Seq<char>>)
    requires
        parted(path, other),
    ensures
        flagged(with_flag(value, path), other) == flagged(value, other),
    decreases path.len(),
{
    match value {
        JsonView::Object(members) => {
            if path.len() == 1 {
                lemma_set_member(members, path[0], JsonView::Bool(true), other[0]);
                assert(!parted(path.skip(1), other.skip(1)));
            } else {
                let child = match value.member(path[0]) {
                    Some(c) => c,
                    None => JsonView::Object(Seq::empty()),
                };
                lemma_set_member(members, path[0], with_flag(child, path.skip(1)), other[0]);
                if path[0] == other[0] {
                    lemma_put_flag_elsewhere(child, path.skip(1), other.skip(1));
                    if value.member(path[0]) is None {
                        assert(child.member(other.skip(1)[0]) is None);
                        assert(!flagged(child, other.skip(1)));
                    }
                }
            }
        },
        _ => {},
    }
}

/// A flag that has been taken out is not found.
proof fn lemma_dropped_flag_is_gone(value: JsonView, path: Seq<Seq<char>>)
    requires
        path.len() > 0,
    ensures
        !flagged(without_flag(value, path), path),
    decreases path.len(),
{
    match value {
        JsonView::Object(members) => {
            lemma_without_key(members, path[0], path[0]);
            if path.len() > 1 {
                match value.member(path[0]) {
                    Some(JsonView::Object(inner)) => {
                        let child = without_flag(JsonView::Object(inner), path.skip(1));
                        lemma_set_member(members, path[0], child, path[0]);
                        lemma_dropped_flag_is_gone(JsonView::Object(inner), path.skip(1));
                    },
                    Some(c) => {
                        assert(c.member(path.skip(1)[0]) is None);
                        assert(!flagged(c, path.skip(1)));
                    },
                    None => {},
                }
            }
        },
        _ => {},
    }
}

/// Taking out a flag changes no flag at the end of a path that parts from its
/// own.
proof fn lemma_dropped_flag_elsewhere(value: JsonView, path: Seq<Seq<char>>, other: Seq<Seq<char>>)
    requires
        parted(path, other),
    ensures
        flagged(without_flag(value, path), other) == flagged(value, other),
    decreases path.len(),
{
    match value {
        JsonView::Object(members) => {
            lemma_without_key(members, path[0], other[0]);
            if path.len() == 1 {
                assert(!parted(path.skip(1), other.skip(1)));
            } else {
                match value.member(path[0]) {
                    Some(JsonView::Object(inner)) => {
                        let child = without_flag(JsonView::Object(inner), path.skip(1));
                        lemma_set_member(members, path[0], child, other[0]);
                        if path[0] == other[0] {
                            lemma_dropped_flag_elsewhere(
                                JsonView::Object(inner),
                                path.skip(1),
                                other.skip(1),
                            );
                            if child == JsonView::Object(Seq::empty()) {
                                assert(child.member(other.skip(1)[0]) is None);
                                assert(!flagged(child, other.skip(1)));
                            }
                        }
                    },
                    _ => {},
                }
            }
        },
        _ => {},
    }
}

proof fn lemma_paths_part()
    ensures
        parted(task_path(), sse_path()),
        parted(sse_path(), task_path()),
        parted(sse_path().skip(1), task_path().skip(1)),
{
    reveal_strlit("capabilities");
    reveal_strlit("tasks");
    reveal_strlit("notifications");
    assert("tasks"@.len() != "notifications"@.len());
    assert(task_path().skip(1)[0] == "tasks"@);
    assert(sse_path().skip(1)[0] == "notifications"@);
    assert(parted(task_path().skip(1), sse_path().skip(1)));
    assert(parted(sse_path().skip(1), task_path().skip(1)));
}

/// A capability that has been written is found again, unless something on the
/// way to it is no object; and the other capability is as before.
pub proof fn law_written_capability_is_found(result: JsonView)
    ensures
        passable(result, task_path()) ==> flagged(with_flag(result, task_path()), task_path()),
        passable(result, sse_path()) ==> flagged(with_flag(result, sse_path()), sse_path()),
        flagged(with_flag(result, task_path()), sse_path()) == flagged(result, sse_path()),
        flagged(with_flag(result, sse_path()), task_path()) == flagged(result, task_path()),
{
    lemma_paths_part();
    if passable(result, task_path()) {
        lemma_put_flag_is_found(result, task_path());
    }
    if passable(result, sse_path()) {
        lemma_put_flag_is_found(result, sse_path());
    }
    lemma_put_flag_elsewhere(result, task_path(), sse_path());
    lemma_put_flag_elsewhere(result, sse_path(), task_path());
}

/// The capability of notifications is never found after it has been taken out,
/// and the capability of tasks is as before.
pub proof fn law_stripped_capability_is_gone(result: JsonView)
    ensures
        !flagged(without_sse(result), sse_path()),
        flagged(without_sse(result), task_path()) == flagged(result, task_path()),
{
    lemma_paths_part();
    let key = "capabilities"@;
    assert(sse_path()[0] == key && task_path()[0] == key);
    match (result, result.member(key)) {
        (JsonView::Object(members), Some(JsonView::Object(inner))) => {
            let child = without_flag(JsonView::Object(inner), sse_path().skip(1));
            lemma_set_member(members, key, child, key);
            lemma_dropped_flag_is_gone(JsonView::Object(inner), sse_path().skip(1));
            lemma_dropped_flag_elsewhere(
                JsonView::Object(inner),
                sse_path().skip(1),
                task_path().skip(1),
            );
        },
        (JsonView::Object(members), Some(c)) => {
            assert(c.member(sse_path().skip(1)[0]) is None);
            assert(!flagged(c, sse_path().skip(1)));
        },
        _ => {},
    }
}

/// What has been set and then taken out leaves what taking it out alone leaves.
proof fn lemma_set_then_dropped(
    members: Seq<(Seq<char>, JsonView)>,
    key: Seq<char>,
    value: JsonView,
)
    ensures
        without_key(set_member(members, key, value), key) == without_key(members, key),
    decreases members.len(),
{
    lemma_member_position(members, key);
    let n = member_position(members, key) as int;
    let after = set_member(members, key, value);
    if n == members.len() {
        assert(after.drop_last() =~= members);
    } else {
        let rest = members.drop_last();
        if n == rest.len() {
            assert(after.drop_last() =~= rest);
        } else {
            assert forall|j: int| 0 <= j < n implies (#[trigger] rest[j]).0 != key by {
                assert(members[j].0 != key);
            }
            lemma_position_is(rest, key, n);
            assert(after.drop_last() =~= set_member(rest, key, value));
            lemma_set_then_dropped(rest, key, value);
        }
    }
}

/// Where a key does not stand, taking it out changes nothing.
proof fn lemma_nothing_to_drop(members: Seq<(Seq<char>, JsonView)>, key: Seq<char>)
    requires
        member_position(members, key) == members.len(),
    ensures
        without_key(members, key) == members,
    decreases members.len(),
{
    lemma_member_position(members, key);
    if members.len() > 0 {
        let rest = members.drop_last();
        assert(members.last().0 != key) by {
            assert(members[members.len() - 1].0 != key);
        }
        assert forall|j: int| 0 <= j < rest.len() implies (#[trigger] rest[j]).0 != key by {
            assert(members[j].0 != key);
        }
        lemma_position_is(rest, key, rest.len() as int);
        lemma_nothing_to_drop(rest, key);
        assert(rest.push(members.last()) =~= members);
    }
}

/// A member that is set twice is as it was set the second time.
proof fn lemma_set_twice(
    members: Seq<(Seq<char>, JsonView)>,
    key: Seq<char>,
    first: JsonView,
    second: JsonView,
)
    ensures
        set_member(set_member(members, key, first), key, second) == set_member(
            members,
            key,
            second,
        ),
{
    let n = member_position(members, key) as int;
    let once = set_member(members, key, first);
    lemma_member_position(members, key);
    assert forall|j: int| 0 <= j < n implies (#[trigger] once[j]).0 != key by {
        assert(members[j].0 != key);
    }
    lemma_position_is(once, key, n);
    assert(set_member(once, key, second) =~= set_member(members, key, second));
}

/// A flag that is put in and then taken out leaves what taking it out alone
/// leaves.
proof fn lemma_put_then_dropped(value: JsonView, path: Seq<Seq<char>>)
    requires
        path.len() > 0,
    ensures
        without_flag(with_flag(value, path), path) == without_flag(value, path),
    decreases path.len(),
{
    match value {
        JsonView::Object(members) => {
            let key = path[0];
            let rest = path.skip(1);
            lemma_member_position(members, key);
            if path.len() == 1 {
                lemma_set_then_dropped(members, key, JsonView::Bool(true));
            } else {
                let child = match value.member(key) {
                    Some(c) => c,
                    None => JsonView::Object(Seq::empty()),
                };
                let put = with_flag(child, rest);
                lemma_set_member(members, key, put, key);
                lemma_set_then_dropped(members, key, put);
                lemma_put_then_dropped(child, rest);
                match child {
                    JsonView::Object(_) => {
                        lemma_set_twice(members, key, put, without_flag(child, rest));
                        if value.member(key) is None {
                            let none = Seq::<(Seq<char>, JsonView)>::empty();
                            assert(without_key(none, rest[0]) == none);
                            assert(child.member(rest[0]) is None);
                            assert(without_flag(child, rest) == child);
                            lemma_nothing_to_drop(members, key);
                        }
                    },
                    _ => {
                        assert(set_member(members, key, child) =~= members);
                    },
                }
            }
        },
        _ => {},
    }
}

/// The capability of notifications, written and then taken out, leaves what
/// taking it out alone leaves: at most an empty object of capabilities is added,
/// where the answer had none. An answer whose capabilities say nothing of
/// notifications comes back as it was.
pub proof fn law_written_then_stripped(result: JsonView)
    ensures
        without_sse(with_flag(result, sse_path())) == match (
            result,
            result.member("capabilities"@),
        ) {
            (JsonView::Object(members), None) => JsonView::Object(
                members.push(("capabilities"@, JsonView::Object(Seq::empty()))),
            ),
            _ => without_sse(result),
        },
        result.member("capabilities"@) matches Some(JsonView::Object(inner))
            && JsonView::Object(inner).member("notifications"@) is None ==> without_sse(
            with_flag(result, sse_path()),
        ) == result,
{
    let key = "capabilities"@;
    let rest = sse_path().skip(1);
    assert(sse_path()[0] == key);
    match result {
        JsonView::Object(members) => {
            let child = match result.member(key) {
                Some(c) => c,
                None => JsonView::Object(Seq::empty()),
            };
            let put = with_flag(child, rest);
            lemma_member_position(members, key);
            lemma_set_member(members, key, put, key);
            lemma_put_then_dropped(child, rest);
            lemma_set_twice(members, key, put, without_flag(child, rest));
            if let JsonView::Object(_) = child {
                assert(rest[0] == "notifications"@);
                if child.member(rest[0]) is None {
                    assert(without_flag(child, rest) == child);
                    if result.member(key) is Some {
                        assert(set_member(members, key, child) =~= members);
                    }
                }
            } else {
                assert(set_member(members, key, child) =~= members);
            }
        },
        _ => {},
    }
}

/// The capabilities stand where the protocol has them: that of tasks under
/// `capabilities`, `tasks`, `requests` and `tools/call`, that of notifications under
/// `capabilities`, `notifications`, `tasks` and `status`.
pub proof fn law_capabilities_stand_in_their_place(result: JsonView)
    ensures
        flagged(result, task_path()) <==> {
            let a = result.member("capabilities"@);
            let b = a->0.member("tasks"@);
            let c = b->0.member("requests"@);
            let d = c->0.member("tools/call"@);
            a is Some && b is Some && c is Some && d == Some(JsonView::Bool(true))
        },
        flagged(result, sse_path()) <==> {
            let a = result.member("capabilities"@);
            let b = a->0.member("notifications"@);
            let c = b->0.member("tasks"@);
            let d = c->0.member("status"@);
            a is Some && b is Some && c is Some && d == Some(JsonView::Bool(true))
        },
{
    reveal_with_fuel(flagged, 5);
    let t = task_path();
    let n = sse_path();
    assert(t.skip(1)[0] == t[1] && t.skip(1).skip(1)[0] == t[2] && t.skip(1).skip(1).skip(1)[0]
        == t[3]);
    assert(n.skip(1)[0] == n[1] && n.skip(1).skip(1)[0] == n[2] && n.skip(1).skip(1).skip(1)[0]
        == n[3]);
}

/// Writing a capability changes nothing else of the answer, and neither does taking
/// one out, but for objects on the way that are then empty: whatever stands at a path
/// that parts from the capability's own is as before.
pub proof fn law_the_rest_of_the_answer_is_kept(result: JsonView, path: Seq<Seq<char>>)
    ensures
        parted(task_path(), path) ==> value_at(with_flag(result, task_path()), path) == value_at(
            result,
            path,
        ),
        parted(sse_path(), path) ==> value_at(with_flag(result, sse_path()), path) == value_at(
            result,
            path,
        ),
        parted(sse_path(), path) ==> value_at(without_sse(result), path) == value_at(result, path),
{
    if parted(task_path(), path) {
        lemma_put_keeps(result, task_path(), path);
    }
    if parted(sse_path(), path) {
        lemma_put_keeps(result, sse_path(), path);
        let key = "capabilities"@;
        assert(sse_path()[0] == key);
        match (result, result.member(key)) {
            (JsonView::Object(members), Some(JsonView::Object(inner))) => {
                let child = without_flag(JsonView::Object(inner), sse_path().skip(1));
                lemma_set_member(members, key, child, path[0]);
                if path[0] == key {
                    lemma_drop_keeps(JsonView::Object(inner), sse_path().skip(1), path.skip(1));
                }
            },
            _ => {},
        }
    }
}

proof fn lemma_put_keeps(value: JsonView, path: Seq<Seq<char>>, other: Seq<Seq<char>>)
    requires
        parted(path, other),
    ensures
        value_at(with_flag(value, path), other) == value_at(value, other),
    decreases path.len(),
{
    match value {
        JsonView::Object(members) => {
            if path.len() == 1 {
                lemma_set_member(members, path[0], JsonView::Bool(true), other[0]);
                assert(!parted(path.skip(1), other.skip(1)));
            } else {
                let child = match value.member(path[0]) {
                    Some(c) => c,
                    None => JsonView::Object(Seq::empty()),
                };
                lemma_set_member(members, path[0], with_flag(child, path.skip(1)), other[0]);
                if path[0] == other[0] {
                    lemma_put_keeps(child, path.skip(1), other.skip(1));
                    if value.member(path[0]) is None {
                        assert(child.member(other.skip(1)[0]) is None);
                    }
                }
            }
        },
        _ => {},
    }
}

proof fn lemma_drop_keeps(value: JsonView, path: Seq<Seq<char>>, other: Seq<Seq<char>>)
    requires
        parted(path, other),
    ensures
        value_at(without_flag(value, path), other) == value_at(value, other),
    decreases path.len(),
{
    match value {
        JsonView::Object(members) => {
            lemma_without_key(members, path[0], other[0]);
            if path.len() == 1 {
                assert(!parted(path.skip(1), other.skip(1)));
            } else {
                match value.member(path[0]) {
                    Some(JsonView::Object(inner)) => {
                        let child = without_flag(JsonView::Object(inner), path.skip(1));
                        lemma_set_member(members, path[0], child, other[0]);
                        if path[0] == other[0] {
                            lemma_drop_keeps(
                                JsonView::Object(inner),
                                path.skip(1),
                                other.skip(1),
                            );
                            if child == JsonView::Object(Seq::empty()) {
                                assert(child.member(other.skip(1)[0]) is None);
                            }
                        }
                    },
                    _ => {},
                }
            }
        },
        _ => {},
    }
}

} // verus!
