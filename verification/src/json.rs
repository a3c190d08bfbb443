//! JSON values.

use vstd::prelude::*;
use vstd::string::*;

use crate::text::same_text;

verus! {

/// A JSON number. `T` holds a text.
#[derive(Debug, Clone, PartialEq, Eq)]
pub enum JsonNumber<T = String> {
    /// An integer of 64 bits with sign.
    Int(i64),
    /// An integer beyond the signed range.
    Uint(u64),
    /// Any other number, as the text that is written for it.
    Real(T),
}

/// A JSON value.
#[derive(Debug, PartialEq, Eq)]
pub enum Json {
    Null,
    Bool(bool),
    Number(JsonNumber),
    String(String),
    Array(Vec<Json>),
    /// The members in order; no key occurs twice.
    Object(Vec<(String, Json)>),
}

/// The mathematical view of a JSON value.
pub enum JsonView {
    Null,
    Bool(bool),
    Number(JsonNumber<Seq<char>>),
    String(Seq<char>),
    Array(Seq<JsonView>),
    Object(Seq<(Seq<char>, JsonView)>),
}

impl JsonNumber {
    /// The number with its string taken as a character sequence.
    pub open spec fn view(self) -> JsonNumber<Seq<char>> {
        match self {
            JsonNumber::Int(n) => JsonNumber::Int(n),
            JsonNumber::Uint(n) => JsonNumber::Uint(n),
            JsonNumber::Real(t) => JsonNumber::Real(t@),
        }
    }

    /// A number that is the same.
    pub fn copy(&self) -> (r: Self)
        ensures
            r@ == self@,
    {
        match self {
            JsonNumber::Int(n) => JsonNumber::Int(*n),
            JsonNumber::Uint(n) => JsonNumber::Uint(*n),
            JsonNumber::Real(t) => JsonNumber::Real(t.clone()),
        }
    }
}

impl Json {
    /// The value with its strings and vectors taken as sequences.
    pub open spec fn view(self) -> JsonView
        decreases self,
    {
        match self {
            Json::Null => JsonView::Null,
            Json::Bool(b) => JsonView::Bool(b),
            Json::Number(n) => JsonView::Number(n@),
            Json::String(s) => JsonView::String(s@),
            Json::Array(items) => JsonView::Array(item_views(items@)),
            Json::Object(members) => JsonView::Object(member_views(members@)),
        }
    }
}

/// The views of a sequence of values.
pub open spec fn item_views(items: Seq<Json>) -> Seq<JsonView>
    decreases items,
{
    Seq::new(
        items.len(),
        |i: int|
            if 0 <= i < items.len() {
                items[i]@
            } else {
                JsonView::Null
            },
    )
}

/// The views of a sequence of members.
pub open spec fn member_views(members: Seq<(String, Json)>) -> Seq<(Seq<char>, JsonView)>
    decreases members,
{
    Seq::new(
        members.len(),
        |i: int|
            if 0 <= i < members.len() {
                (members[i].0@, members[i].1@)
            } else {
                (Seq::empty(), JsonView::Null)
            },
    )
}

/// The view of a sequence of values holds the view of each.
pub proof fn lemma_item_views(items: Seq<Json>)
    ensures
        item_views(items).len() == items.len(),
        forall|i: int| 0 <= i < items.len() ==> #[trigger] item_views(items)[i] == items[i]@,
{
}

/// The view of a sequence of members holds the view of each.
pub proof fn lemma_member_views(members: Seq<(String, Json)>)
    ensures
        member_views(members).len() == members.len(),
        forall|i: int|
            0 <= i < members.len() ==> #[trigger] member_views(members)[i] == (
                members[i].0@,
                members[i].1@,
            ),
{
}

impl Json {
    /// A value that is the same.
    pub fn copy(&self) -> (r: Json)
        ensures
            r@ == self@,
        decreases self,
    {
        match self {
            Json::Null => Json::Null,
            Json::Bool(b) => Json::Bool(*b),
            Json::Number(n) => Json::Number(n.copy()),
            Json::String(s) => Json::String(s.clone()),
            Json::Array(items) => {
                let mut out: Vec<Json> = Vec::new();
                let mut i: usize = 0;
                while i < items.len()
                    invariant
                        self matches Json::Array(v) && v == items,
                        i <= items@.len(),
                        out@.len() == i,
                        forall|j: int| 0 <= j < i ==> (#[trigger] out@[j])@ == items@[j]@,
                    decreases items@.len() - i,
                {
                    assert(decreases_to!(self => items@[i as int]));
                    out.push(items[i].copy());
                    i = i + 1;
                }
                proof {
                    lemma_item_views(out@);
                    lemma_item_views(items@);
                    assert(item_views(out@) =~= item_views(items@));
                }
                Json::Array(out)
            },
            Json::Object(members) => {
                let mut out: Vec<(String, Json)> = Vec::new();
                let mut i: usize = 0;
                while i < members.len()
                    invariant
                        self matches Json::Object(v) && v == members,
                        i <= members@.len(),
                        out@.len() == i,
                        forall|j: int|
                            0 <= j < i ==> (#[trigger] out@[j]).0@ == members@[j].0@ && out@[j].1@
                                == members@[j].1@,
                    decreases members@.len() - i,
                {
                    assert(decreases_to!(self => members@[i as int].1));
                    out.push((members[i].0.clone(), members[i].1.copy()));
                    i = i + 1;
                }
                proof {
                    lemma_member_views(out@);
                    lemma_member_views(members@);
                    assert(member_views(out@) =~= member_views(members@));
                }
                Json::Object(out)
            },
        }
    }
}

/// The position of the first member with a key; the number of members if there
/// is none.
pub open spec fn member_position(members: Seq<(Seq<char>, JsonView)>, key: Seq<char>) -> nat
    decreases members.len(),
{
    if members.len() == 0 {
        0
    } else if members[0].0 == key {
        0
    } else {
        1 + member_position(members.skip(1), key)
    }
}

/// `member_position` is the first position at which the key stands.
pub proof fn lemma_member_position(members: Seq<(Seq<char>, JsonView)>, key: Seq<char>)
    ensures
        member_position(members, key) <= members.len(),
        forall|j: int| 0 <= j < member_position(members, key) ==> (#[trigger] members[j]).0 != key,
        member_position(members, key) < members.len() ==> members[member_position(
            members,
            key,
        ) as int].0 == key,
    decreases members.len(),
{
    if members.len() > 0 && members[0].0 != key {
        lemma_member_position(members.skip(1), key);
        let n = member_position(members.skip(1), key);
        assert forall|j: int| 0 <= j < 1 + n implies (#[trigger] members[j]).0 != key by {
            if j > 0 {
                assert(members.skip(1)[j - 1] == members[j]);
            }
        }
        if n < members.skip(1).len() {
            assert(members.skip(1)[n as int] == members[n as int + 1]);
        }
    }
}

/// The members with a key set to a value: in its place where the key stands,
/// else at the end.
pub open spec fn set_member(
    members: Seq<(Seq<char>, JsonView)>,
    key: Seq<char>,
    value: JsonView,
) -> Seq<(Seq<char>, JsonView)> {
    let n = member_position(members, key);
    if n < members.len() {
        members.update(n as int, (key, value))
    } else {
        members.push((key, value))
    }
}

impl JsonView {
    /// The value of a member; `None` where this is no object or has no such
    /// member.
    pub open spec fn member(self, key: Seq<char>) -> Option<JsonView> {
        match self {
            JsonView::Object(members) => {
                let n = member_position(members, key);
                if n < members.len() {
                    Some(members[n as int].1)
                } else {
                    None
                }
            },
            _ => None,
        }
    }
}

/// Whether two paths of keys part: neither is a beginning of the other.
pub open spec fn parted(p: Seq<Seq<char>>, q: Seq<Seq<char>>) -> bool
    decreases p.len(),
{
    p.len() > 0 && q.len() > 0 && (p[0] != q[0] || parted(p.skip(1), q.skip(1)))
}

/// The position of the first member with a key.
pub(crate) fn position_of(members: &Vec<(String, Json)>, key: &str) -> (r: Option<usize>)
    ensures
        match r {
            Some(i) => i < members@.len() && i == member_position(member_views(members@), key@),
            None => member_position(member_views(members@), key@) == members@.len(),
        },
{
    proof {
        lemma_member_views(members@);
        lemma_member_position(member_views(members@), key@);
    }
    let ghost n = member_position(member_views(members@), key@);
    let mut i: usize = 0;
    while i < members.len()
        invariant
            n == member_position(member_views(members@), key@),
            i <= n <= members@.len(),
            member_views(members@).len() == members@.len(),
            forall|j: int|
                0 <= j < members@.len() ==> #[trigger] member_views(members@)[j] == (
                    members@[j].0@,
                    members@[j].1@,
                ),
            forall|j: int| 0 <= j < n ==> (#[trigger] member_views(members@)[j]).0 != key@,
            n < members@.len() ==> member_views(members@)[n as int].0 == key@,
        decreases members@.len() - i,
    {
        assert(member_views(members@)[i as int].0 == members@[i as int].0@);
        if same_text(members[i].0.as_str(), key) {
            return Some(i);
        }
        i = i + 1;
    }
    None
}

impl Json {
    /// The value of a member; `None` where this is no object or has no such
    /// member.
    pub fn get(&self, key: &str) -> (r: Option<&Json>)
        ensures
            match r {
                Some(v) => self@.member(key@) == Some(v@),
                None => self@.member(key@) is None,
            },
    {
        match self {
            Json::Object(members) => {
                proof {
                    lemma_member_views(members@);
                }
                match position_of(members, key) {
                    Some(i) => Some(&members[i].1),
                    None => None,
                }
            },
            _ => None,
        }
    }

    /// The text of a string value.
    pub fn as_str(&self) -> (r: Option<&str>)
        ensures
            match r {
                Some(s) => self@ == JsonView::String(s@),
                None => !(self@ is String),
            },
    {
        match self {
            Json::String(s) => Some(s.as_str()),
            _ => None,
        }
    }

    /// Whether this is the value `true`.
    pub fn is_true(&self) -> (r: bool)
        ensures
            r == (self@ == JsonView::Bool(true)),
    {
        match self {
            Json::Bool(b) => *b,
            _ => false,
        }
    }
}

/// The members without those that have a key.
pub open spec fn without_key(members: Seq<(Seq<char>, JsonView)>, key: Seq<char>) -> Seq<
    (Seq<char>, JsonView),
>
    decreases members.len(),
{
    if members.len() == 0 {
        members
    } else if members.last().0 == key {
        without_key(members.drop_last(), key)
    } else {
        without_key(members.drop_last(), key).push(members.last())
    }
}

/// A position is that of a key if the key does not stand before it, and stands at
/// it unless it is the end.
pub proof fn lemma_position_is(members: Seq<(Seq<char>, JsonView)>, key: Seq<char>, n: int)
    requires
        0 <= n <= members.len(),
        forall|j: int| 0 <= j < n ==> (#[trigger] members[j]).0 != key,
        n < members.len() ==> members[n].0 == key,
    ensures
        member_position(members, key) == n,
{
    lemma_member_position(members, key);
    let m = member_position(members, key);
    if m < n {
        assert(members[m as int].0 != key);
    } else if n < m {
        assert(members[n].0 != key);
    }
}

/// A member that has been set is found, and no other has changed.
pub proof fn lemma_set_member(
    members: Seq<(Seq<char>, JsonView)>,
    key: Seq<char>,
    value: JsonView,
    other: Seq<char>,
)
    ensures
        JsonView::Object(set_member(members, key, value)).member(key) == Some(value),
        other != key ==> JsonView::Object(set_member(members, key, value)).member(other)
            == JsonView::Object(members).member(other),
{
    let after = set_member(members, key, value);
    lemma_member_position(members, key);
    lemma_position_is(after, key, member_position(members, key) as int);
    lemma_member_position(members, other);
    if other != key {
        let n = member_position(members, other);
        if n < members.len() {
            lemma_position_is(after, other, n as int);
        } else {
            lemma_position_is(after, other, after.len() as int);
        }
    }
}

/// A member that has been taken out is not found, and no other has changed.
pub proof fn lemma_without_key(
    members: Seq<(Seq<char>, JsonView)>,
    key: Seq<char>,
    other: Seq<char>,
)
    ensures
        JsonView::Object(without_key(members, key)).member(key) is None,
        other != key ==> JsonView::Object(without_key(members, key)).member(other)
            == JsonView::Object(members).member(other),
        without_key(members, key).len() <= members.len(),
    decreases members.len(),
{
    if members.len() > 0 {
        let rest = members.drop_last();
        let kept = without_key(rest, key);
        lemma_without_key(rest, key, other);
        lemma_member_position(kept, key);
        lemma_member_position(kept, other);
        lemma_member_position(rest, other);
        lemma_member_position(members, other);
        let after = without_key(members, key);
        assert(forall|j: int| 0 <= j < rest.len() ==> #[trigger] members[j] == rest[j]);
        if members.last().0 != key {
            lemma_position_is(after, key, after.len() as int);
        }
        if other != key {
            let n = member_position(rest, other);
            if n < rest.len() {
                lemma_position_is(members, other, n as int);
                if members.last().0 != key {
                    lemma_position_is(after, other, member_position(kept, other) as int);
                }
            } else if members.last().0 == other {
                lemma_position_is(members, other, rest.len() as int);
                lemma_position_is(after, other, kept.len() as int);
            } else {
                lemma_position_is(members, other, members.len() as int);
                if members.last().0 != key {
                    lemma_position_is(after, other, after.len() as int);
                }
            }
        }
    }
}

/// Sets a member, in its place where the key stands, else at the end.
pub(crate) fn put_member(members: &mut Vec<(String, Json)>, key: &str, value: Json)
    ensures
        member_views(final(members)@) == set_member(member_views(old(members)@), key@, value@),
{
    let ghost before = members@;
    proof {
        lemma_member_views(before);
    }
    match position_of(members, key) {
        Some(i) => {
            members.set(i, (key.to_owned(), value));
        },
        None => {
            members.push((key.to_owned(), value));
        },
    }
    proof {
        lemma_member_views(members@);
        assert(member_views(members@) =~= set_member(member_views(before), key@, value@));
    }
}

/// Takes out the members that have a key.
pub(crate) fn drop_member(members: &mut Vec<(String, Json)>, key: &str)
    ensures
        member_views(final(members)@) == without_key(member_views(old(members)@), key@),
{
    let ghost all = member_views(members@);
    let ghost mut seen: int = 0;
    let mut i: usize = 0;
    proof {
        lemma_member_views(members@);
        assert(all.skip(0) =~= all);
        assert(all.take(0) =~= Seq::<(Seq<char>, JsonView)>::empty());
        assert(all.take(0) =~= without_key(all.take(0), key@));
    }
    while i < members.len()
        invariant
            i <= members@.len(),
            0 <= seen <= all.len(),
            member_views(members@).take(i as int) == without_key(all.take(seen), key@),
            member_views(members@).skip(i as int) == all.skip(seen),
            members@.len() - i == all.len() - seen,
        decreases members@.len() - i,
    {
        let ghost before = members@;
        proof {
            lemma_member_views(before);
            assert(member_views(before).skip(i as int)[0] == all.skip(seen)[0]);
            assert(all.take(seen + 1).drop_last() =~= all.take(seen));
            assert(all.take(seen + 1).last() == (before[i as int].0@, before[i as int].1@));
        }
        if same_text(members[i].0.as_str(), key) {
            members.remove(i);
            proof {
                lemma_member_views(members@);
                assert(member_views(members@).take(i as int) =~= member_views(before).take(
                    i as int,
                ));
                assert(member_views(members@).skip(i as int) =~= member_views(before).skip(
                    i as int,
                ).skip(1));
                assert(all.skip(seen + 1) =~= all.skip(seen).skip(1));
            }
        } else {
            i = i + 1;
            proof {
                assert(member_views(members@).take(i as int) =~= member_views(before).take(
                    i - 1,
                ).push(all.take(seen + 1).last()));
                assert(member_views(members@).skip(i as int) =~= member_views(before).skip(
                    i - 1,
                ).skip(1));
                assert(all.skip(seen + 1) =~= all.skip(seen).skip(1));
            }
        }
        proof {
            seen = seen + 1;
        }
    }
    proof {
        lemma_member_views(members@);
        assert(all.take(seen) =~= all);
        assert(member_views(members@).take(i as int) =~= member_views(members@));
    }
}

impl Clone for Json {
    fn clone(&self) -> (r: Self)
        ensures
            r@ == self@,
    {
        self.copy()
    }
}

} // verus!
