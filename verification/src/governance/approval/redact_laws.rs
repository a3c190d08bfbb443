//! What holds of every redaction.

use vstd::prelude::*;

use crate::governance::approval::redact::{listed, redacted, redacted_at, redaction, value_at};
use crate::json::{
    lemma_member_position, lemma_position_is, lemma_set_member, member_position, parted,
    set_member, JsonView,
};
use crate::text::{parts, parts_from};

verus! {

/// What is left of the paths that begin with a key.
pub open spec fn tails(paths: Set<Seq<Seq<char>>>, key: Seq<char>) -> Set<Seq<Seq<char>>> {
    Set::new(|tail: Seq<Seq<char>>| paths.contains(seq![key] + tail))
}

/// Whether two lists of members have the same keys in the same order.
pub open spec fn same_keys(
    a: Seq<(Seq<char>, JsonView)>,
    b: Seq<(Seq<char>, JsonView)>,
) -> bool {
    a.len() == b.len() && forall|i: int| 0 <= i < a.len() ==> (#[trigger] a[i]).0 == b[i].0
}

/// Whether two values differ at most in what stands at some paths of keys.
pub open spec fn differ_only_at(v: JsonView, w: JsonView, paths: Set<Seq<Seq<char>>>) -> bool
    decreases v,
{
    ||| v == w
    ||| paths.contains(Seq::empty())
    ||| match (v, w) {
        (JsonView::Object(a), JsonView::Object(b)) => {
            &&& same_keys(a, b)
            &&& forall|i: int|
                0 <= i < a.len() ==> if member_position(a, a[i].0) == i {
                    differ_only_at((#[trigger] a[i]).1, b[i].1, tails(paths, a[i].0))
                } else {
                    a[i].1 == b[i].1
                }
        },
        _ => false,
    }
}

/// Whether a path leads on from the end of another.
pub open spec fn above(p: Seq<Seq<char>>, q: Seq<Seq<char>>) -> bool
    decreases p.len(),
{
    q.len() > 0 && (p.len() == 0 || (p[0] == q[0] && above(p.skip(1), q.skip(1))))
}

/// Keys that are the same stand at the same positions.
proof fn lemma_same_keys(
    a: Seq<(Seq<char>, JsonView)>,
    b: Seq<(Seq<char>, JsonView)>,
    key: Seq<char>,
)
    requires
        same_keys(a, b),
    ensures
        member_position(a, key) == member_position(b, key),
{
    lemma_member_position(a, key);
    let n = member_position(a, key) as int;
    assert forall|j: int| 0 <= j < n implies (#[trigger] b[j]).0 != key by {
        assert(a[j].0 != key);
    }
    lemma_position_is(b, key, n);
}

/// A value with a path redacted, by the key with which the path begins: what
/// stands at that key is redacted along the rest of the path, and the other
/// members are as before.
proof fn lemma_redacted_member(value: JsonView, path: Seq<Seq<char>>, key: Seq<char>)
    requires
        path.len() > 0,
    ensures
        key != path[0] ==> redacted_at(value, path).member(key) == value.member(key),
        redacted_at(value, path).member(path[0]) == match value.member(path[0]) {
            Some(v) => if path.len() == 1 {
                Some(redaction())
            } else {
                Some(redacted_at(v, path.skip(1)))
            },
            None => None,
        },
{
    match value {
        JsonView::Object(members) => {
            let n = member_position(members, path[0]);
            lemma_member_position(members, path[0]);
            if n < members.len() {
                let v = if path.len() == 1 {
                    redaction()
                } else {
                    redacted_at(members[n as int].1, path.skip(1))
                };
                assert(members.update(n as int, (path[0], v)) == set_member(members, path[0], v));
                lemma_set_member(members, path[0], v, key);
            }
        },
        _ => {},
    }
}

/// Every field names a path with a key.
proof fn lemma_field_has_a_key(field: Seq<char>)
    ensures
        parts(field, '.').len() > 0,
{
    assert(parts_from(field, '.', 0).len() > 0);
}

/// A redaction takes away the difference at its path, and makes none elsewhere.
proof fn lemma_differences_shrink(
    v: JsonView,
    w: JsonView,
    paths: Set<Seq<Seq<char>>>,
    path: Seq<Seq<char>>,
)
    requires
        path.len() > 0,
        differ_only_at(v, w, paths),
    ensures
        differ_only_at(redacted_at(v, path), redacted_at(w, path), paths.remove(path)),
    decreases path.len(),
{
    let rest = paths.remove(path);
    if v != w && !paths.contains(Seq::empty()) {
        let a = v->Object_0;
        let b = w->Object_0;
        let key = path[0];
        let n = member_position(a, key) as int;
        lemma_member_position(a, key);
        lemma_same_keys(a, b, key);
        assert forall|k: Seq<char>| k != key implies #[trigger] tails(rest, k) == tails(
            paths,
            k,
        ) by {
            assert forall|t: Seq<Seq<char>>| tails(rest, k).contains(t) == tails(
                paths,
                k,
            ).contains(t) by {
                assert((seq![k] + t)[0] == k);
            }
            assert(tails(rest, k) =~= tails(paths, k));
        }
        let after_a = redacted_at(v, path)->Object_0;
        let after_b = redacted_at(w, path)->Object_0;
        assert(same_keys(a, after_a));
        assert(same_keys(after_a, after_b));
        assert forall|i: int| 0 <= i < after_a.len() implies if member_position(
            after_a,
            after_a[i].0,
        ) == i {
            differ_only_at((#[trigger] after_a[i]).1, after_b[i].1, tails(rest, after_a[i].0))
        } else {
            after_a[i].1 == after_b[i].1
        } by {
            let k = after_a[i].0;
            assert(k == a[i].0);
            lemma_same_keys(a, after_a, k);
            if i == n {
                if path.len() > 1 {
                    let tail = path.skip(1);
                    lemma_differences_shrink(a[i].1, b[i].1, tails(paths, key), tail);
                    assert forall|t: Seq<Seq<char>>| tails(rest, key).contains(t) == tails(
                        paths,
                        key,
                    ).remove(tail).contains(t) by {
                        assert((seq![key] + t).skip(1) =~= t);
                        assert(seq![key] + tail =~= path);
                    }
                    assert(tails(rest, key) =~= tails(paths, key).remove(tail));
                }
            } else {
                assert(after_a[i] == a[i] && after_b[i] == b[i]);
            }
        }
    }
}

/// Values that differ nowhere are the same.
proof fn lemma_no_difference(v: JsonView, w: JsonView)
    requires
        differ_only_at(v, w, Set::empty()),
    ensures
        v == w,
    decreases v,
{
    if v != w {
        let a = v->Object_0;
        let b = w->Object_0;
        assert forall|i: int| 0 <= i < a.len() implies a[i] == b[i] by {
            assert(decreases_to!(v => a[i].1));
            if member_position(a, a[i].0) == i {
                assert(tails(Set::empty(), a[i].0) =~= Set::empty());
                lemma_no_difference(a[i].1, b[i].1);
            }
        }
        assert(a =~= b);
    }
}

/// The paths that the fields from position `n` on name.
spec fn listed_from(fields: Seq<Seq<char>>, n: int) -> Set<Seq<Seq<char>>> {
    listed(fields.skip(n))
}

/// Values that differ only at some paths differ only at these and others.
proof fn lemma_more_paths(
    v: JsonView,
    w: JsonView,
    p: Set<Seq<Seq<char>>>,
    q: Set<Seq<Seq<char>>>,
)
    requires
        differ_only_at(v, w, p),
        p.subset_of(q),
    ensures
        differ_only_at(v, w, q),
    decreases v,
{
    if v != w && !p.contains(Seq::empty()) {
        let a = v->Object_0;
        let b = w->Object_0;
        assert forall|i: int| 0 <= i < a.len() implies if member_position(a, a[i].0) == i {
            differ_only_at((#[trigger] a[i]).1, b[i].1, tails(q, a[i].0))
        } else {
            a[i].1 == b[i].1
        } by {
            assert(decreases_to!(v => a[i].1));
            if member_position(a, a[i].0) == i {
                lemma_more_paths(a[i].1, b[i].1, tails(p, a[i].0), tails(q, a[i].0));
            }
        }
    }
}

/// After the first `n` redactions there are differences only at the paths that
/// the other fields name.
proof fn lemma_differences_left(v: JsonView, w: JsonView, fields: Seq<Seq<char>>, n: int)
    requires
        0 <= n <= fields.len(),
        differ_only_at(v, w, listed(fields)),
    ensures
        differ_only_at(
            redacted(v, fields, n),
            redacted(w, fields, n),
            listed_from(fields, n),
        ),
    decreases n,
{
    if n == 0 {
        assert(fields.skip(0) =~= fields);
    } else {
        lemma_differences_left(v, w, fields, n - 1);
        let path = parts(fields[n - 1], '.');
        lemma_field_has_a_key(fields[n - 1]);
        let before = listed_from(fields, n - 1);
        lemma_differences_shrink(
            redacted(v, fields, n - 1),
            redacted(w, fields, n - 1),
            before,
            path,
        );
        assert forall|p: Seq<Seq<char>>| before.remove(path).contains(p) implies listed_from(
            fields,
            n,
        ).contains(p) by {
            let i = choose|i: int|
                0 <= i < fields.skip(n - 1).len() && p == #[trigger] parts(
                    fields.skip(n - 1)[i],
                    '.',
                );
            assert(i != 0);
            assert(fields.skip(n)[i - 1] == fields.skip(n - 1)[i]);
        }
        lemma_more_paths(
            redacted(v, fields, n),
            redacted(w, fields, n),
            before.remove(path),
            listed_from(fields, n),
        );
    }
}

/// The redacted fields show nothing of their values: two values that differ only
/// at paths that the fields name look the same once they are redacted.
pub proof fn law_redaction_hides(v: JsonView, w: JsonView, fields: Seq<Seq<char>>)
    requires
        differ_only_at(v, w, listed(fields)),
    ensures
        redacted(v, fields, fields.len() as int) == redacted(w, fields, fields.len() as int),
{
    assert(fields.skip(0) =~= fields);
    lemma_differences_left(v, w, fields, fields.len() as int);
    assert(listed_from(fields, fields.len() as int) =~= Set::empty());
    lemma_no_difference(
        redacted(v, fields, fields.len() as int),
        redacted(w, fields, fields.len() as int),
    );
}

/// Where a field is named, nothing but the redaction is shown: either it stands
/// there, or something above has been redacted, or there never was anything.
pub proof fn law_named_fields_are_redacted(value: JsonView, fields: Seq<Seq<char>>, i: int)
    requires
        0 <= i < fields.len(),
    ensures
        ({
            let path = parts(fields[i], '.');
            let shown = value_at(redacted(value, fields, fields.len() as int), path);
            shown is None || shown == Some(redaction())
        }),
{
    lemma_named_field(value, fields, i, fields.len() as int);
}

/// What has been redacted stays so.
proof fn lemma_named_field(value: JsonView, fields: Seq<Seq<char>>, i: int, n: int)
    requires
        0 <= i < n <= fields.len(),
    ensures
        ({
            let shown = value_at(redacted(value, fields, n), parts(fields[i], '.'));
            shown is None || shown == Some(redaction())
        }),
    decreases n,
{
    let before = redacted(value, fields, n - 1);
    let path = parts(fields[i], '.');
    let other = parts(fields[n - 1], '.');
    lemma_field_has_a_key(fields[n - 1]);
    if i == n - 1 {
        lemma_redacted_path(before, path);
    } else {
        lemma_named_field(value, fields, i, n - 1);
        lemma_redaction_stays(before, other, path);
    }
}

/// Nothing lies below a redaction.
proof fn lemma_below_redaction(path: Seq<Seq<char>>)
    ensures
        value_at(redaction(), path) == if path.len() == 0 {
            Some(redaction())
        } else {
            None
        },
{
}

/// What stands at a redacted path is the redaction.
proof fn lemma_redacted_path(value: JsonView, path: Seq<Seq<char>>)
    requires
        path.len() > 0,
    ensures
        value_at(redacted_at(value, path), path) == match value_at(value, path) {
            Some(_) => Some(redaction()),
            None => None,
        },
    decreases path.len(),
{
    lemma_redacted_member(value, path, path[0]);
    if value.member(path[0]) is Some {
        let v = value.member(path[0])->0;
        if path.len() > 1 {
            lemma_redacted_path(v, path.skip(1));
        } else {
            lemma_below_redaction(path.skip(1));
            assert(value_at(v, path.skip(1)) == Some(v));
        }
    }
}

/// Where nothing or the redaction stands, no other redaction shows anything.
proof fn lemma_redaction_stays(value: JsonView, other: Seq<Seq<char>>, path: Seq<Seq<char>>)
    requires
        other.len() > 0,
        value_at(value, path) is None || value_at(value, path) == Some(redaction()),
    ensures
        ({
            let shown = value_at(redacted_at(value, other), path);
            shown is None || shown == Some(redaction())
        }),
    decreases other.len(),
{
    if path.len() > 0 {
        lemma_redacted_member(value, other, path[0]);
        if path[0] == other[0] && value.member(path[0]) is Some {
            if other.len() > 1 {
                lemma_redaction_stays(value.member(path[0])->0, other.skip(1), path.skip(1));
            } else {
                lemma_below_redaction(path.skip(1));
            }
        }
    }
}

/// Redaction spares the rest: what is neither at, nor above, nor below a path
/// that a field names is as before.
pub proof fn law_redaction_spares_the_rest(
    value: JsonView,
    fields: Seq<Seq<char>>,
    path: Seq<Seq<char>>,
)
    requires
        forall|i: int| 0 <= i < fields.len() ==> parted(#[trigger] parts(fields[i], '.'), path),
    ensures
        value_at(redacted(value, fields, fields.len() as int), path) == value_at(value, path),
{
    lemma_spared(value, fields, path, fields.len() as int);
}

proof fn lemma_spared(value: JsonView, fields: Seq<Seq<char>>, path: Seq<Seq<char>>, n: int)
    requires
        0 <= n <= fields.len(),
        forall|i: int| 0 <= i < n ==> parted(#[trigger] parts(fields[i], '.'), path),
    ensures
        value_at(redacted(value, fields, n), path) == value_at(value, path),
    decreases n,
{
    if n > 0 {
        lemma_spared(value, fields, path, n - 1);
        lemma_parted_path_is_spared(
            redacted(value, fields, n - 1),
            parts(fields[n - 1], '.'),
            path,
        );
    }
}

/// A redaction changes nothing at a path that parts from its own.
proof fn lemma_parted_path_is_spared(value: JsonView, other: Seq<Seq<char>>, path: Seq<Seq<char>>)
    requires
        parted(other, path),
    ensures
        value_at(redacted_at(value, other), path) == value_at(value, path),
    decreases other.len(),
{
    lemma_redacted_member(value, other, path[0]);
    if path[0] == other[0] && value.member(path[0]) is Some {
        if other.len() == 1 {
            assert(!parted(other.skip(1), path.skip(1)));
        } else {
            lemma_parted_path_is_spared(value.member(path[0])->0, other.skip(1), path.skip(1));
        }
    }
}

/// Redaction adds no key and moves none: what can be reached afterwards is what
/// could be reached before, but for what lies below a path that a field names; and
/// an object that is still there has the keys that it had, in their order.
pub proof fn law_redaction_keeps_the_keys(
    value: JsonView,
    fields: Seq<Seq<char>>,
    path: Seq<Seq<char>>,
)
    ensures
        ({
            let after = redacted(value, fields, fields.len() as int);
            &&& value_at(after, path) is Some <==> value_at(value, path) is Some && forall|i: int|
                0 <= i < fields.len() ==> !above(#[trigger] parts(fields[i], '.'), path)
            &&& value_at(after, path) matches Some(JsonView::Object(kept)) ==> (value_at(
                value,
                path,
            ) matches Some(JsonView::Object(members)) && same_keys(members, kept))
        }),
{
    lemma_kept_keys(value, fields, path, fields.len() as int);
}

proof fn lemma_kept_keys(value: JsonView, fields: Seq<Seq<char>>, path: Seq<Seq<char>>, n: int)
    requires
        0 <= n <= fields.len(),
    ensures
        ({
            let after = redacted(value, fields, n);
            &&& value_at(after, path) is Some <==> value_at(value, path) is Some && forall|i: int|
                0 <= i < n ==> !above(#[trigger] parts(fields[i], '.'), path)
            &&& value_at(after, path) matches Some(JsonView::Object(kept)) ==> (value_at(
                value,
                path,
            ) matches Some(JsonView::Object(members)) && same_keys(members, kept))
        }),
    decreases n,
{
    if n > 0 {
        lemma_kept_keys(value, fields, path, n - 1);
        lemma_field_has_a_key(fields[n - 1]);
        lemma_kept_keys_at(redacted(value, fields, n - 1), parts(fields[n - 1], '.'), path);
    }
}

/// The keys after the redaction of one path.
proof fn lemma_kept_keys_at(value: JsonView, other: Seq<Seq<char>>, path: Seq<Seq<char>>)
    requires
        other.len() > 0,
    ensures
        value_at(redacted_at(value, other), path) is Some <==> value_at(value, path) is Some
            && !above(other, path),
        value_at(redacted_at(value, other), path) matches Some(JsonView::Object(kept)) ==> (
        value_at(value, path) matches Some(JsonView::Object(members)) && same_keys(members, kept)),
    decreases other.len(),
{
    if path.len() == 0 {
        if let JsonView::Object(members) = value {
            lemma_member_position(members, other[0]);
            assert(same_keys(members, redacted_at(value, other)->Object_0));
        }
    } else {
        lemma_redacted_member(value, other, path[0]);
        if path[0] == other[0] && value.member(path[0]) is Some {
            if other.len() == 1 {
                let v = value.member(path[0])->0;
                lemma_below_redaction(path.skip(1));
                assert(above(other.skip(1), path.skip(1)) == (path.skip(1).len() > 0));
                assert(path.len() == 1 ==> value_at(v, path.skip(1)) == Some(v));
            } else {
                lemma_kept_keys_at(value.member(path[0])->0, other.skip(1), path.skip(1));
            }
        }
    }
}

/// Redacting twice is redacting once.
pub proof fn law_redaction_is_idempotent(value: JsonView, fields: Seq<Seq<char>>)
    ensures
        ({
            let once = redacted(value, fields, fields.len() as int);
            redacted(once, fields, fields.len() as int) == once
        }),
{
    let once = redacted(value, fields, fields.len() as int);
    assert forall|i: int| 0 <= i < fields.len() implies {
        let shown = value_at(once, #[trigger] parts(fields[i], '.'));
        shown is None || shown == Some(redaction())
    } by {
        law_named_fields_are_redacted(value, fields, i);
    }
    lemma_nothing_to_redact(once, fields, fields.len() as int);
}

/// A value that shows nothing at the paths of the fields stays as it is.
proof fn lemma_nothing_to_redact(value: JsonView, fields: Seq<Seq<char>>, n: int)
    requires
        0 <= n <= fields.len(),
        forall|i: int|
            0 <= i < fields.len() ==> {
                let shown = value_at(value, #[trigger] parts(fields[i], '.'));
                shown is None || shown == Some(redaction())
            },
    ensures
        redacted(value, fields, n) == value,
    decreases n,
{
    if n > 0 {
        lemma_nothing_to_redact(value, fields, n - 1);
        lemma_field_has_a_key(fields[n - 1]);
        lemma_nothing_to_redact_at(value, parts(fields[n - 1], '.'));
    }
}

proof fn lemma_nothing_to_redact_at(value: JsonView, path: Seq<Seq<char>>)
    requires
        path.len() > 0,
        value_at(value, path) is None || value_at(value, path) == Some(redaction()),
    ensures
        redacted_at(value, path) == value,
    decreases path.len(),
{
    if let JsonView::Object(members) = value {
        let n = member_position(members, path[0]) as int;
        lemma_member_position(members, path[0]);
        if n < members.len() {
            if path.len() == 1 {
                assert(value_at(members[n].1, path.skip(1)) == Some(members[n].1));
                assert(members.update(n, (path[0], redaction())) =~= members);
            } else {
                lemma_nothing_to_redact_at(members[n].1, path.skip(1));
                assert(members.update(n, (path[0], members[n].1)) =~= members);
            }
        }
    }
}

} // verus!
