//! Canonical JSON does not depend on the order of an object's members, and
//! neither does the hash of a request.

use vstd::prelude::*;

use crate::governance::task::helpers::{
    canonical_items, canonical_members, canonical_text, insert_sorted, lemma_canonical_items,
    lemma_canonical_members, request_hash, some_item_too_deep, some_member_too_deep, sort_by_key,
    too_deep, MAX_CANONICAL_JSON_DEPTH,
};
use crate::governance::task::types::RequestView;
use crate::json::JsonView;
use crate::text::{lemma_text_order, lemma_text_order_transitive, text_le};

verus! {

/// Whether keyed texts stand in the order of their keys.
pub open spec fn in_key_order(entries: Seq<(Seq<char>, Seq<char>)>) -> bool {
    forall|i: int, j: int|
        0 <= i < j < entries.len() ==> text_le((#[trigger] entries[i]).0, (
        #[trigger] entries[j]).0)
}

/// Whether no two keyed texts have the same key.
pub open spec fn keys_differ<V>(entries: Seq<(Seq<char>, V)>) -> bool {
    forall|i: int, j: int|
        0 <= i < j < entries.len() ==> (#[trigger] entries[i]).0 != (#[trigger] entries[j]).0
}

/// Whether two values are the same but for the order of the members of objects,
/// at any depth. No key occurs twice in an object.
pub open spec fn same_content(a: JsonView, b: JsonView) -> bool
    decreases a,
{
    match (a, b) {
        (JsonView::Array(x), JsonView::Array(y)) => same_items(x, y),
        (JsonView::Object(x), JsonView::Object(y)) => same_members(x, y),
        _ => a == b,
    }
}

/// Whether two sequences hold the same values, item by item.
pub open spec fn same_items(x: Seq<JsonView>, y: Seq<JsonView>) -> bool
    decreases x,
{
    &&& x.len() == y.len()
    &&& forall|i: int| 0 <= i < x.len() ==> same_content(#[trigger] x[i], y[i])
}

/// Whether two objects have the same members, in whatever order.
pub open spec fn same_members(x: Seq<(Seq<char>, JsonView)>, y: Seq<(Seq<char>, JsonView)>) -> bool
    decreases x,
{
    &&& x.len() == y.len()
    &&& keys_differ(x)
    &&& keys_differ(y)
    &&& forall|i: int|
        0 <= i < x.len() ==> exists|j: int|
            0 <= j < y.len() && (#[trigger] x[i]).0 == (#[trigger] y[j]).0 && same_content(
                x[i].1,
                y[j].1,
            )
    &&& forall|j: int|
        0 <= j < y.len() ==> exists|i: int|
            0 <= i < x.len() && (#[trigger] x[i]).0 == (#[trigger] y[j]).0 && same_content(
                x[i].1,
                y[j].1,
            )
}

/// Where `insert_sorted` puts an entry.
proof fn lemma_insert_position(
    sorted: Seq<(Seq<char>, Seq<char>)>,
    entry: (Seq<char>, Seq<char>),
) -> (pos: int)
    requires
        in_key_order(sorted),
    ensures
        0 <= pos <= sorted.len(),
        insert_sorted(sorted, entry) == sorted.insert(pos, entry),
        in_key_order(sorted.insert(pos, entry)),
    decreases sorted.len(),
{
    if sorted.len() == 0 || text_le(sorted.last().0, entry.0) {
        let pos = sorted.len() as int;
        assert(sorted.push(entry) =~= sorted.insert(pos, entry));
        let after = sorted.insert(pos, entry);
        assert forall|i: int, j: int| 0 <= i < j < after.len() implies text_le(
            (#[trigger] after[i]).0,
            (#[trigger] after[j]).0,
        ) by {
            if j < sorted.len() {
                assert(after[i] == sorted[i] && after[j] == sorted[j]);
            } else {
                assert(after[i] == sorted[i]);
                if i < sorted.len() - 1 {
                    assert(text_le(sorted[i].0, sorted[sorted.len() - 1].0));
                    lemma_text_order_transitive(sorted[i].0, sorted.last().0, entry.0);
                }
            }
        }
        pos
    } else {
        let front = sorted.drop_last();
        assert(in_key_order(front)) by {
            assert forall|i: int, j: int| 0 <= i < j < front.len() implies text_le(
                (#[trigger] front[i]).0,
                (#[trigger] front[j]).0,
            ) by {
                assert(front[i] == sorted[i] && front[j] == sorted[j]);
            }
        }
        let pos = lemma_insert_position(front, entry);
        let inner = front.insert(pos, entry);
        let after = sorted.insert(pos, entry);
        assert(inner.push(sorted.last()) =~= after);
        assert forall|i: int, j: int| 0 <= i < j < after.len() implies text_le(
            (#[trigger] after[i]).0,
            (#[trigger] after[j]).0,
        ) by {
            if j < inner.len() {
                assert(after[i] == inner[i] && after[j] == inner[j]);
            } else {
                assert(after[j] == sorted.last());
                if i == pos {
                    lemma_text_order(entry.0, sorted.last().0);
                } else if i < pos {
                    assert(after[i] == sorted[i]);
                    assert(text_le(sorted[i].0, sorted[sorted.len() - 1].0));
                } else {
                    assert(after[i] == sorted[i - 1]);
                    assert(text_le(sorted[i - 1].0, sorted[sorted.len() - 1].0));
                }
            }
        }
        pos
    }
}

/// Sorting by key yields the same entries, in the order of their keys.
pub proof fn law_sort_by_key_sorts(entries: Seq<(Seq<char>, Seq<char>)>)
    ensures
        in_key_order(sort_by_key(entries)),
        sort_by_key(entries).len() == entries.len(),
        sort_by_key(entries).to_multiset() == entries.to_multiset(),
    decreases entries.len(),
{
    if entries.len() > 0 {
        let front = entries.drop_last();
        law_sort_by_key_sorts(front);
        let sorted = sort_by_key(front);
        let pos = lemma_insert_position(sorted, entries.last());
        broadcast use vstd::seq_lib::group_to_multiset_ensures;

        assert(sorted.insert(pos, entries.last()).to_multiset() == sorted.to_multiset().insert(
            entries.last(),
        ));
        assert(entries == front.push(entries.last()));
    }
}

/// The entries of a sorted sequence are those of the sequence.
pub proof fn lemma_sort_contains(entries: Seq<(Seq<char>, Seq<char>)>, e: (Seq<char>, Seq<char>))
    ensures
        sort_by_key(entries).contains(e) <==> entries.contains(e),
{
    law_sort_by_key_sorts(entries);
    broadcast use vstd::seq_lib::group_to_multiset_ensures;

    assert(sort_by_key(entries).to_multiset().count(e) == entries.to_multiset().count(e));
}

/// Two sequences in key order without repeated keys that hold the same entries
/// are equal.
proof fn lemma_sorted_unique(
    s: Seq<(Seq<char>, Seq<char>)>,
    t: Seq<(Seq<char>, Seq<char>)>,
)
    requires
        in_key_order(s),
        in_key_order(t),
        keys_differ(s),
        keys_differ(t),
        forall|e: (Seq<char>, Seq<char>)| s.contains(e) <==> t.contains(e),
    ensures
        s == t,
    decreases s.len(),
{
    if s.len() == 0 {
        if t.len() > 0 {
            assert(t.contains(t[0]));
        }
        assert(s =~= t);
    } else {
        assert(s.contains(s.last()));
        let j = choose|j: int| 0 <= j < t.len() && t[j] == s.last();
        assert(t.contains(t.last()));
        let i = choose|i: int| 0 <= i < s.len() && s[i] == t.last();
        assert(s.last() == t.last()) by {
            if j < t.len() - 1 {
                assert(text_le(t[j].0, t[t.len() - 1].0));
                if i < s.len() - 1 {
                    assert(text_le(s[i].0, s[s.len() - 1].0));
                    lemma_text_order(s.last().0, t.last().0);
                    assert(t[j].0 != t[t.len() - 1].0);
                }
            }
        }
        let sf = s.drop_last();
        let tf = t.drop_last();
        assert forall|e: (Seq<char>, Seq<char>)| sf.contains(e) <==> tf.contains(e) by {
            if sf.contains(e) {
                let k = choose|k: int| 0 <= k < sf.len() && sf[k] == e;
                assert(s[k] == e);
                assert(s.contains(e));
                let m = choose|m: int| 0 <= m < t.len() && t[m] == e;
                assert(s[k].0 != s[s.len() - 1].0);
                assert(tf[m] == e);
            }
            if tf.contains(e) {
                let k = choose|k: int| 0 <= k < tf.len() && tf[k] == e;
                assert(t[k] == e);
                assert(t.contains(e));
                let m = choose|m: int| 0 <= m < s.len() && s[m] == e;
                assert(t[k].0 != t[t.len() - 1].0);
                assert(sf[m] == e);
            }
        }
        assert forall|a: int, b: int| 0 <= a < b < sf.len() implies text_le(
            (#[trigger] sf[a]).0,
            (#[trigger] sf[b]).0,
        ) && sf[a].0 != sf[b].0 by {
            assert(sf[a] == s[a] && sf[b] == s[b]);
        }
        assert forall|a: int, b: int| 0 <= a < b < tf.len() implies text_le(
            (#[trigger] tf[a]).0,
            (#[trigger] tf[b]).0,
        ) && tf[a].0 != tf[b].0 by {
            assert(tf[a] == t[a] && tf[b] == t[b]);
        }
        lemma_sorted_unique(sf, tf);
        assert(s =~= sf.push(s.last()));
        assert(t =~= tf.push(t.last()));
    }
}

/// Sorting keeps keys different.
proof fn lemma_sort_keeps_keys(entries: Seq<(Seq<char>, Seq<char>)>)
    requires
        keys_differ(entries),
    ensures
        keys_differ(sort_by_key(entries)),
    decreases entries.len(),
{
    if entries.len() > 0 {
        let front = entries.drop_last();
        assert forall|a: int, b: int| 0 <= a < b < front.len() implies (#[trigger] front[a]).0 != (
        #[trigger] front[b]).0 by {
            assert(front[a] == entries[a] && front[b] == entries[b]);
        }
        lemma_sort_keeps_keys(front);
        law_sort_by_key_sorts(front);
        let sorted = sort_by_key(front);
        let entry = entries.last();
        let pos = lemma_insert_position(sorted, entry);
        let after = sorted.insert(pos, entry);
        assert forall|k: int| 0 <= k < sorted.len() implies (#[trigger] sorted[k]).0 != entry.0 by {
            assert(sorted.contains(sorted[k]));
            lemma_sort_contains(front, sorted[k]);
            let m = choose|m: int| 0 <= m < front.len() && front[m] == sorted[k];
            assert(entries[m] == sorted[k]);
            assert(entries[m].0 != entries[entries.len() - 1].0);
        }
        assert forall|a: int, b: int| 0 <= a < b < after.len() implies (#[trigger] after[a]).0 != (
        #[trigger] after[b]).0 by {
            let pa = if a < pos {
                a
            } else {
                a - 1
            };
            let pb = if b < pos {
                b
            } else {
                b - 1
            };
            if a == pos {
                assert(after[b] == sorted[pb]);
            } else if b == pos {
                assert(after[a] == sorted[pa]);
            } else {
                assert(after[a] == sorted[pa] && after[b] == sorted[pb]);
            }
        }
    }
}

/// Canonical JSON does not depend on the order of members: values with the same
/// content have the same canonical text.
pub proof fn law_canonical_json_ignores_member_order(a: JsonView, b: JsonView)
    requires
        same_content(a, b),
    ensures
        canonical_text(a) == canonical_text(b),
    decreases a,
{
    match (a, b) {
        (JsonView::Array(x), JsonView::Array(y)) => {
            lemma_canonical_items(x);
            lemma_canonical_items(y);
            assert forall|i: int| 0 <= i < x.len() implies canonical_items(x)[i]
                == canonical_items(y)[i] by {
                assert(same_content(x[i], y[i]));
                law_canonical_json_ignores_member_order(x[i], y[i]);
            }
            assert(canonical_items(x) =~= canonical_items(y));
        },
        (JsonView::Object(x), JsonView::Object(y)) => {
            lemma_canonical_members(x);
            lemma_canonical_members(y);
            let cx = canonical_members(x);
            let cy = canonical_members(y);
            assert forall|i: int| 0 <= i < cx.len() implies cy.contains(#[trigger] cx[i]) by {
                assert(x[i].0 == x[i].0);
                let j = choose|j: int|
                    0 <= j < y.len() && (#[trigger] x[i]).0 == (#[trigger] y[j]).0 && same_content(
                        x[i].1,
                        y[j].1,
                    );
                law_canonical_json_ignores_member_order(x[i].1, y[j].1);
                assert(cy[j] == cx[i]);
            }
            assert forall|j: int| 0 <= j < cy.len() implies cx.contains(#[trigger] cy[j]) by {
                assert(y[j].0 == y[j].0);
                let i = choose|i: int|
                    0 <= i < x.len() && (#[trigger] x[i]).0 == (#[trigger] y[j]).0 && same_content(
                        x[i].1,
                        y[j].1,
                    );
                law_canonical_json_ignores_member_order(x[i].1, y[j].1);
                assert(cx[i] == cy[j]);
            }
            assert forall|i: int, j: int| 0 <= i < j < cx.len() implies (#[trigger] cx[i]).0 != (
            #[trigger] cx[j]).0 by {
                assert(x[i].0 != x[j].0);
            }
            assert forall|i: int, j: int| 0 <= i < j < cy.len() implies (#[trigger] cy[i]).0 != (
            #[trigger] cy[j]).0 by {
                assert(y[i].0 != y[j].0);
            }
            lemma_sort_keeps_keys(cx);
            lemma_sort_keeps_keys(cy);
            law_sort_by_key_sorts(cx);
            law_sort_by_key_sorts(cy);
            assert forall|e: (Seq<char>, Seq<char>)|
                sort_by_key(cx).contains(e) <==> sort_by_key(cy).contains(e) by {
                lemma_sort_contains(cx, e);
                lemma_sort_contains(cy, e);
                if cx.contains(e) {
                    let i = choose|i: int| 0 <= i < cx.len() && cx[i] == e;
                    assert(cy.contains(cx[i]));
                }
                if cy.contains(e) {
                    let j = choose|j: int| 0 <= j < cy.len() && cy[j] == e;
                    assert(cx.contains(cy[j]));
                }
            }
            lemma_sorted_unique(sort_by_key(cx), sort_by_key(cy));
        },
        _ => {},
    }
}

/// Where a value is nested too deeply, so is one with the same content.
proof fn lemma_depth_of_same(a: JsonView, b: JsonView, depth: int)
    requires
        same_content(a, b),
        too_deep(a, depth),
    ensures
        too_deep(b, depth),
    decreases a,
{
    if depth <= MAX_CANONICAL_JSON_DEPTH {
        match (a, b) {
            (JsonView::Array(x), JsonView::Array(y)) => {
                assert(some_item_too_deep(x, depth + 1));
                lemma_items_of_same(x, y, depth + 1);
            },
            (JsonView::Object(x), JsonView::Object(y)) => {
                assert(some_member_too_deep(x, depth + 1));
                lemma_members_of_same(x, y, depth + 1);
            },
            _ => {},
        }
    }
}

proof fn lemma_items_of_same(x: Seq<JsonView>, y: Seq<JsonView>, depth: int)
    requires
        same_items(x, y),
        some_item_too_deep(x, depth),
    ensures
        some_item_too_deep(y, depth),
    decreases x,
{
    let i = choose|i: int| 0 <= i < x.len() && too_deep(#[trigger] x[i], depth);
    lemma_depth_of_same(x[i], y[i], depth);
    assert(too_deep(y[i], depth));
}

proof fn lemma_members_of_same(
    x: Seq<(Seq<char>, JsonView)>,
    y: Seq<(Seq<char>, JsonView)>,
    depth: int,
)
    requires
        same_members(x, y),
        some_member_too_deep(x, depth),
    ensures
        some_member_too_deep(y, depth),
    decreases x,
{
    let i = choose|i: int| 0 <= i < x.len() && too_deep((#[trigger] x[i]).1, depth);
    let j = choose|j: int|
        0 <= j < y.len() && (#[trigger] x[i]).0 == (#[trigger] y[j]).0 && same_content(
            x[i].1,
            y[j].1,
        );
    lemma_depth_of_same(x[i].1, y[j].1, depth);
    assert(too_deep(y[j].1, depth));
}

/// Where a value is nested too deeply, so is one of whose content it is.
proof fn lemma_depth_of_other(a: JsonView, b: JsonView, depth: int)
    requires
        same_content(a, b),
        too_deep(b, depth),
    ensures
        too_deep(a, depth),
    decreases a,
{
    if depth <= MAX_CANONICAL_JSON_DEPTH {
        match (a, b) {
            (JsonView::Array(x), JsonView::Array(y)) => {
                assert(some_item_too_deep(y, depth + 1));
                lemma_items_of_other(x, y, depth + 1);
            },
            (JsonView::Object(x), JsonView::Object(y)) => {
                assert(some_member_too_deep(y, depth + 1));
                lemma_members_of_other(x, y, depth + 1);
            },
            _ => {},
        }
    }
}

proof fn lemma_items_of_other(x: Seq<JsonView>, y: Seq<JsonView>, depth: int)
    requires
        same_items(x, y),
        some_item_too_deep(y, depth),
    ensures
        some_item_too_deep(x, depth),
    decreases x,
{
    let i = choose|i: int| 0 <= i < y.len() && too_deep(#[trigger] y[i], depth);
    assert(same_content(x[i], y[i]));
    lemma_depth_of_other(x[i], y[i], depth);
    assert(too_deep(x[i], depth));
}

proof fn lemma_members_of_other(
    x: Seq<(Seq<char>, JsonView)>,
    y: Seq<(Seq<char>, JsonView)>,
    depth: int,
)
    requires
        same_members(x, y),
        some_member_too_deep(y, depth),
    ensures
        some_member_too_deep(x, depth),
    decreases x,
{
    let j = choose|j: int| 0 <= j < y.len() && too_deep((#[trigger] y[j]).1, depth);
    let i = choose|i: int|
        0 <= i < x.len() && (#[trigger] x[i]).0 == (#[trigger] y[j]).0 && same_content(
            x[i].1,
            y[j].1,
        );
    lemma_depth_of_other(x[i].1, y[j].1, depth);
    assert(too_deep(x[i].1, depth));
}

/// The nesting depth does not depend on the order of members.
pub proof fn law_depth_ignores_member_order(a: JsonView, b: JsonView, depth: int)
    requires
        same_content(a, b),
    ensures
        too_deep(a, depth) == too_deep(b, depth),
{
    if too_deep(a, depth) {
        lemma_depth_of_same(a, b, depth);
    }
    if too_deep(b, depth) {
        lemma_depth_of_other(a, b, depth);
    }
}

/// Requests with the same method, name and content of arguments have the same
/// hash, whatever the order of members and the request ID.
pub proof fn law_hash_ignores_member_order(a: RequestView, b: RequestView)
    requires
        a.method == b.method,
        a.name == b.name,
        same_content(a.arguments, b.arguments),
    ensures
        request_hash(a) == request_hash(b),
        too_deep(a.arguments, 0) == too_deep(b.arguments, 0),
{
    law_canonical_json_ignores_member_order(a.arguments, b.arguments);
    law_depth_ignores_member_order(a.arguments, b.arguments, 0);
}

} // verus!
