//! Requests that differ are hashed from different bytes: canonical JSON can be
//! read back.

use vstd::prelude::*;
use vstd::utf8::{encode_utf8, encode_utf8_decode_utf8};

use crate::governance::task::canonical_laws::{
    keys_differ, law_canonical_json_ignores_member_order, law_sort_by_key_sorts,
    lemma_sort_contains, same_content, same_items, same_members,
};
use crate::governance::task::helpers::{
    canonical_items, canonical_members, canonical_text, entry_texts, escaped, escaped_text,
    hashed_bytes, hex, hex_digit, json_literal, lemma_canonical_items, lemma_canonical_members,
    lemma_hex, lemma_hex_digit, member_text, number_text, request_hash, sha256, sort_by_key,
};
use crate::governance::task::types::RequestView;
use crate::json::{JsonNumber, JsonView};
use crate::text::{joined, numeral, signed_numeral};

verus! {

/// The characters of which numbers are written.
pub open spec fn number_char(c: char) -> bool {
    '0' <= c <= '9' || c == '-' || c == '+' || c == '.' || c == 'e' || c == 'E'
}

/// Whether a character marks a number that is no integer.
pub open spec fn real_mark(c: char) -> bool {
    c == '.' || c == 'e' || c == 'E'
}

/// Whether a number is held in the one form that it has: an integer beyond the
/// signed range is really beyond it, and the text of any other number is written
/// with a point or an exponent.
pub open spec fn proper_number(n: JsonNumber<Seq<char>>) -> bool {
    match n {
        JsonNumber::Int(_) => true,
        JsonNumber::Uint(u) => u > i64::MAX,
        JsonNumber::Real(t) => {
            &&& forall|i: int| 0 <= i < t.len() ==> number_char(#[trigger] t[i])
            &&& exists|i: int| 0 <= i < t.len() && real_mark(#[trigger] t[i])
        },
    }
}

/// Whether a value is a proper JSON value: its numbers are, and no key occurs twice
/// in an object.
pub open spec fn proper(value: JsonView) -> bool
    decreases value,
{
    match value {
        JsonView::Number(n) => proper_number(n),
        JsonView::Array(items) => proper_items(items),
        JsonView::Object(members) => proper_members(members),
        _ => true,
    }
}

/// Whether the values of a sequence are proper.
pub open spec fn proper_items(items: Seq<JsonView>) -> bool
    decreases items,
{
    forall|i: int| 0 <= i < items.len() ==> proper(#[trigger] items[i])
}

/// Whether members have different keys and proper values.
pub open spec fn proper_members(members: Seq<(Seq<char>, JsonView)>) -> bool
    decreases members,
{
    &&& keys_differ(members)
    &&& forall|i: int| 0 <= i < members.len() ==> proper((#[trigger] members[i]).1)
}

/// Numerals are made of digits.
proof fn lemma_numeral(n: nat)
    ensures
        numeral(n).len() > 0,
        n >= 10 ==> numeral(n).len() > 1,
        forall|i: int| 0 <= i < numeral(n).len() ==> '0' <= #[trigger] numeral(n)[i] <= '9',
    decreases n,
{
    let d = ('0' as nat + n % 10) as char;
    assert(d as nat == '0' as nat + n % 10);
    if n >= 10 {
        lemma_numeral(n / 10);
        let before = numeral(n / 10);
        assert forall|i: int| 0 <= i < numeral(n).len() implies '0' <= #[trigger] numeral(n)[i]
            <= '9' by {
            if i < before.len() {
                assert(numeral(n)[i] == before[i]);
            }
        }
    }
}

/// Different numbers have different numerals.
proof fn lemma_numeral_tells(m: nat, n: nat)
    requires
        numeral(m) == numeral(n),
    ensures
        m == n,
    decreases m,
{
    lemma_numeral(m);
    lemma_numeral(n);
    let d = ('0' as nat + m % 10) as char;
    let e = ('0' as nat + n % 10) as char;
    assert(d as nat == '0' as nat + m % 10);
    assert(e as nat == '0' as nat + n % 10);
    if m < 10 {
        assert(n < 10);
        assert(numeral(m)[0] == d);
        assert(numeral(n)[0] == e);
    } else {
        assert(numeral(m).last() == d);
        assert(numeral(n).last() == e);
        assert(numeral(m).drop_last() =~= numeral(m / 10));
        assert(numeral(n).drop_last() =~= numeral(n / 10));
        lemma_numeral_tells(m / 10, n / 10);
    }
}

/// The text of a proper number is made of the characters of numbers, and an
/// integer's has no mark.
proof fn lemma_number_text(n: JsonNumber<Seq<char>>)
    requires
        proper_number(n),
    ensures
        number_text(n).len() > 0,
        forall|i: int| 0 <= i < number_text(n).len() ==> number_char(#[trigger] number_text(n)[i]),
        !(n is Real) ==> forall|i: int|
            0 <= i < number_text(n).len() ==> !real_mark(#[trigger] number_text(n)[i]),
{
    match n {
        JsonNumber::Int(i) => {
            if i < 0 {
                lemma_numeral((-(i as int)) as nat);
            } else {
                lemma_numeral(i as nat);
            }
        },
        JsonNumber::Uint(u) => {
            lemma_numeral(u as nat);
        },
        JsonNumber::Real(_) => {},
    }
}

/// Different proper numbers have different texts.
proof fn lemma_number_text_tells(m: JsonNumber<Seq<char>>, n: JsonNumber<Seq<char>>)
    requires
        proper_number(m),
        proper_number(n),
        number_text(m) == number_text(n),
    ensures
        m == n,
{
    lemma_number_text(m);
    lemma_number_text(n);
    match (m, n) {
        (JsonNumber::Real(_), JsonNumber::Real(_)) => {},
        (JsonNumber::Real(t), _) => {
            let i = choose|i: int| 0 <= i < t.len() && real_mark(#[trigger] t[i]);
            assert(real_mark(number_text(n)[i]));
        },
        (_, JsonNumber::Real(t)) => {
            let i = choose|i: int| 0 <= i < t.len() && real_mark(#[trigger] t[i]);
            assert(real_mark(number_text(m)[i]));
        },
        _ => {
            lemma_integer_text_tells(integer(m), integer(n));
        },
    }
}

/// The integer that a number is.
spec fn integer(n: JsonNumber<Seq<char>>) -> int {
    match n {
        JsonNumber::Int(i) => i as int,
        JsonNumber::Uint(u) => u as int,
        JsonNumber::Real(_) => 0,
    }
}

/// Different integers have different numerals.
proof fn lemma_integer_text_tells(m: int, n: int)
    requires
        signed_numeral(m) == signed_numeral(n),
    ensures
        m == n,
{
    let p = if m < 0 {
        (-m) as nat
    } else {
        m as nat
    };
    let q = if n < 0 {
        (-n) as nat
    } else {
        n as nat
    };
    lemma_numeral(p);
    lemma_numeral(q);
    if m < 0 {
        assert(signed_numeral(m)[0] == '-');
        if n < 0 {
            assert(signed_numeral(m).skip(1) =~= numeral(p));
            assert(signed_numeral(n).skip(1) =~= numeral(q));
            lemma_numeral_tells(p, q);
        } else {
            assert('0' <= numeral(q)[0]);
        }
    } else if n < 0 {
        assert(signed_numeral(n)[0] == '-');
        assert('0' <= numeral(p)[0]);
    } else {
        lemma_numeral_tells(p, q);
    }
}

/// Whether a text may follow a value: it is empty or begins with a comma or a
/// closing bracket.
spec fn ends_value(s: Seq<char>) -> bool {
    s.len() == 0 || s[0] == ',' || s[0] == ']' || s[0] == '}'
}

/// Where a number ends is told by what follows.
proof fn lemma_number_end(s: Seq<char>, t: Seq<char>, x: Seq<char>, y: Seq<char>)
    requires
        forall|i: int| 0 <= i < s.len() ==> number_char(#[trigger] s[i]),
        forall|i: int| 0 <= i < t.len() ==> number_char(#[trigger] t[i]),
        s + x == t + y,
        ends_value(x),
        ends_value(y),
    ensures
        s == t,
{
    if s.len() < t.len() {
        assert((s + x).len() == (t + y).len());
        assert((s + x)[s.len() as int] == x[0]);
        assert((t + y)[s.len() as int] == t[s.len() as int]);
    } else if t.len() < s.len() {
        assert((s + x).len() == (t + y).len());
        assert((t + y)[t.len() as int] == y[0]);
        assert((s + x)[t.len() as int] == s[t.len() as int]);
    } else {
        assert forall|i: int| 0 <= i < s.len() implies s[i] == t[i] by {
            assert((s + x)[i] == s[i]);
            assert((t + y)[i] == t[i]);
        }
        assert(s =~= t);
    }
}

/// Equal texts with equal beginnings have equal rests.
proof fn lemma_rest(s: Seq<char>, x: Seq<char>, y: Seq<char>)
    requires
        s + x == s + y,
    ensures
        x == y,
{
    assert((s + x).skip(s.len() as int) =~= x);
    assert((s + y).skip(s.len() as int) =~= y);
}

/// An escaped character can be read back, whatever follows.
proof fn lemma_escaped_tells(c: char, d: char, x: Seq<char>, y: Seq<char>)
    requires
        escaped(c) + x == escaped(d) + y,
    ensures
        c == d,
        escaped(c)[0] != '"',
{
    let l = escaped(c) + x;
    let r = escaped(d) + y;
    assert(escaped(c).len() >= 1 && escaped(d).len() >= 1);
    assert(l[0] == escaped(c)[0]);
    assert(r[0] == escaped(d)[0]);
    if escaped(c)[0] == '\\' {
        assert(escaped(c).len() >= 2);
        assert(escaped(d).len() >= 2);
        assert(l[1] == escaped(c)[1]);
        assert(r[1] == escaped(d)[1]);
        if escaped(c)[1] == 'u' {
            assert(escaped(c).len() == 6 && escaped(d).len() == 6);
            assert(l[4] == escaped(c)[4] && r[4] == escaped(d)[4]);
            assert(l[5] == escaped(c)[5] && r[5] == escaped(d)[5]);
            lemma_hex_digit(c as int / 16);
            lemma_hex_digit(c as int % 16);
            lemma_hex_digit(d as int / 16);
            lemma_hex_digit(d as int % 16);
        }
    }
}

/// An escaped text up to its closing quotation mark can be read back.
proof fn lemma_escaped_text_tells(s: Seq<char>, t: Seq<char>, x: Seq<char>, y: Seq<char>)
    requires
        escaped_text(s) + (seq!['"'] + x) == escaped_text(t) + (seq!['"'] + y),
    ensures
        s == t,
    decreases s.len(),
{
    let qx = seq!['"'] + x;
    let qy = seq!['"'] + y;
    if s.len() == 0 {
        assert(escaped_text(s) + qx =~= qx);
        if t.len() > 0 {
            lemma_escaped_tells(t[0], t[0], escaped_text(t.skip(1)), escaped_text(t.skip(1)));
            assert((escaped_text(t) + qy)[0] == escaped(t[0])[0]);
            assert(qx[0] == '"');
        }
        assert(s =~= t);
    } else if t.len() == 0 {
        assert(escaped_text(t) + qy =~= qy);
        lemma_escaped_tells(s[0], s[0], escaped_text(s.skip(1)), escaped_text(s.skip(1)));
        assert((escaped_text(s) + qx)[0] == escaped(s[0])[0]);
        assert(qy[0] == '"');
    } else {
        let rs = escaped_text(s.skip(1)) + qx;
        let rt = escaped_text(t.skip(1)) + qy;
        assert(escaped_text(s) + qx =~= escaped(s[0]) + rs);
        assert(escaped_text(t) + qy =~= escaped(t[0]) + rt);
        lemma_escaped_tells(s[0], t[0], rs, rt);
        lemma_rest(escaped(s[0]), rs, rt);
        lemma_escaped_text_tells(s.skip(1), t.skip(1), x, y);
        assert(s =~= seq![s[0]] + s.skip(1));
        assert(t =~= seq![t[0]] + t.skip(1));
    }
}

/// A string literal can be read back, whatever follows.
proof fn lemma_literal_tells(s: Seq<char>, t: Seq<char>, x: Seq<char>, y: Seq<char>)
    requires
        json_literal(s) + x == json_literal(t) + y,
    ensures
        s == t,
        x == y,
{
    let ex = escaped_text(s) + (seq!['"'] + x);
    let ey = escaped_text(t) + (seq!['"'] + y);
    assert(json_literal(s) + x =~= seq!['"'] + ex);
    assert(json_literal(t) + y =~= seq!['"'] + ey);
    lemma_rest(seq!['"'], ex, ey);
    lemma_escaped_text_tells(s, t, x, y);
    lemma_rest(json_literal(s), x, y);
}

/// Whether a character can be the first of a value's text.
spec fn opens(value: JsonView, c: char) -> bool {
    match value {
        JsonView::Null => c == 'n',
        JsonView::Bool(b) => if b {
            c == 't'
        } else {
            c == 'f'
        },
        JsonView::Number(_) => number_char(c),
        JsonView::String(_) => c == '"',
        JsonView::Array(_) => c == '[',
        JsonView::Object(_) => c == '{',
    }
}

/// The first character of a value's text tells what kind of value it is.
proof fn lemma_opens(value: JsonView)
    requires
        proper(value),
    ensures
        canonical_text(value).len() > 0,
        opens(value, canonical_text(value)[0]),
{
    reveal_strlit("null");
    reveal_strlit("true");
    reveal_strlit("false");
    reveal_strlit("[");
    reveal_strlit("{");
    if let JsonView::Number(n) = value {
        lemma_number_text(n);
    }
}

/// The texts from position `i` on, with a comma before each that does not come
/// first, and what follows them.
spec fn run(parts: Seq<Seq<char>>, i: int, after: Seq<char>) -> Seq<char>
    decreases parts.len() - i,
{
    if i >= parts.len() {
        after
    } else if i <= 0 {
        parts[i] + run(parts, i + 1, after)
    } else {
        seq![','] + (parts[i] + run(parts, i + 1, after))
    }
}

/// The last text may be taken for a part of what follows.
proof fn lemma_run_last(parts: Seq<Seq<char>>, i: int, after: Seq<char>)
    requires
        parts.len() > 1,
        0 <= i < parts.len(),
    ensures
        run(parts.drop_last(), i, seq![','] + (parts.last() + after)) == run(parts, i, after),
    decreases parts.len() - i,
{
    if i == parts.len() - 1 {
        assert(run(parts, i + 1, after) == after);
    } else {
        lemma_run_last(parts, i + 1, after);
        assert(parts.drop_last()[i] == parts[i]);
    }
}

/// Joined texts, read from the front.
proof fn lemma_run(parts: Seq<Seq<char>>, after: Seq<char>)
    ensures
        joined(parts) + after == run(parts, 0, after),
    decreases parts.len(),
{
    reveal_strlit(",");
    if parts.len() == 0 {
        assert(joined(parts) + after =~= after);
    } else if parts.len() == 1 {
        assert(run(parts, 1, after) == after);
    } else {
        let more = seq![','] + (parts.last() + after);
        lemma_run(parts.drop_last(), more);
        lemma_run_last(parts, 0, after);
        assert(joined(parts) + after =~= joined(parts.drop_last()) + more);
    }
}

/// What stands behind a text in a run.
proof fn lemma_run_ends(parts: Seq<Seq<char>>, i: int, after: Seq<char>)
    requires
        i > 0,
        ends_value(after),
    ensures
        ends_value(run(parts, i, after)),
        i < parts.len() ==> run(parts, i, after).len() > 0 && run(parts, i, after)[0] == ',',
{
    if i < parts.len() {
        assert(run(parts, i, after)[0] == ',');
    }
}

/// A value can be read back from its canonical text, but for the order of members,
/// whatever follows a value.
proof fn lemma_value_tells(a: JsonView, b: JsonView, x: Seq<char>, y: Seq<char>)
    requires
        proper(a),
        proper(b),
        canonical_text(a) + x == canonical_text(b) + y,
        ends_value(x),
        ends_value(y),
    ensures
        canonical_text(a) == canonical_text(b),
        same_content(a, b),
    decreases a, 0int,
{
    lemma_opens(a);
    lemma_opens(b);
    assert((canonical_text(a) + x)[0] == canonical_text(a)[0]);
    assert((canonical_text(b) + y)[0] == canonical_text(b)[0]);
    match (a, b) {
        (JsonView::Number(m), JsonView::Number(n)) => {
            lemma_number_text(m);
            lemma_number_text(n);
            lemma_number_end(number_text(m), number_text(n), x, y);
            lemma_number_text_tells(m, n);
        },
        (JsonView::String(s), JsonView::String(t)) => {
            lemma_literal_tells(s, t, x, y);
        },
        (JsonView::Array(p), JsonView::Array(q)) => {
            reveal_strlit("[");
            reveal_strlit("]");
            let cp = canonical_items(p);
            let cq = canonical_items(q);
            lemma_canonical_items(p);
            lemma_canonical_items(q);
            lemma_run(cp, seq![']'] + x);
            lemma_run(cq, seq![']'] + y);
            assert(canonical_text(a) + x =~= seq!['['] + (joined(cp) + (seq![']'] + x)));
            assert(canonical_text(b) + y =~= seq!['['] + (joined(cq) + (seq![']'] + y)));
            lemma_rest(seq!['['], joined(cp) + (seq![']'] + x), joined(cq) + (seq![']'] + y));
            lemma_items_tell(p, q, 0, x, y);
            assert(cp =~= cq);
            assert(same_items(p, q));
        },
        (JsonView::Object(p), JsonView::Object(q)) => {
            reveal_strlit("{");
            reveal_strlit("}");
            let sp = sort_by_key(canonical_members(p));
            let sq = sort_by_key(canonical_members(q));
            let ep = entry_texts(sp);
            let eq = entry_texts(sq);
            lemma_run(ep, seq!['}'] + x);
            lemma_run(eq, seq!['}'] + y);
            assert(canonical_text(a) + x =~= seq!['{'] + (joined(ep) + (seq!['}'] + x)));
            assert(canonical_text(b) + y =~= seq!['{'] + (joined(eq) + (seq!['}'] + y)));
            lemma_rest(seq!['{'], joined(ep) + (seq!['}'] + x), joined(eq) + (seq!['}'] + y));
            lemma_members_tell(p, q, 0, x, y);
            assert(sp =~= sq);
            lemma_members_found(p, q);
        },
        _ => {},
    }
}

/// The items of an array can be read back.
proof fn lemma_items_tell(
    p: Seq<JsonView>,
    q: Seq<JsonView>,
    i: int,
    x: Seq<char>,
    y: Seq<char>,
)
    requires
        proper_items(p),
        proper_items(q),
        0 <= i <= p.len(),
        i <= q.len(),
        run(canonical_items(p), i, seq![']'] + x) == run(canonical_items(q), i, seq![']'] + y),
    ensures
        p.len() == q.len(),
        forall|k: int|
            #![trigger canonical_items(p)[k]]
            #![trigger p[k]]
            i <= k < p.len() ==> canonical_items(p)[k] == canonical_items(q)[k] && same_content(
                p[k],
                q[k],
            ),
    decreases p, p.len() - i,
{
    let cp = canonical_items(p);
    let cq = canonical_items(q);
    let ax = seq![']'] + x;
    let ay = seq![']'] + y;
    lemma_canonical_items(p);
    lemma_canonical_items(q);
    assert(ax[0] == ']');
    assert(ay[0] == ']');
    if i == p.len() {
        if i < q.len() {
            lemma_opens(q[i]);
            assert(cq[i] == canonical_text(q[i]));
            assert(run(cq, i, ay)[0] != ']');
        }
    } else if i == q.len() {
        lemma_opens(p[i]);
        assert(cp[i] == canonical_text(p[i]));
        assert(run(cp, i, ax)[0] != ']');
    } else {
        let rp = run(cp, i + 1, ax);
        let rq = run(cq, i + 1, ay);
        if i > 0 {
            lemma_rest(seq![','], cp[i] + rp, cq[i] + rq);
        }
        lemma_run_ends(cp, i + 1, ax);
        lemma_run_ends(cq, i + 1, ay);
        lemma_value_tells(p[i], q[i], rp, rq);
        lemma_rest(cp[i], rp, rq);
        lemma_items_tell(p, q, i + 1, x, y);
    }
}

/// The member that a sorted entry is of.
proof fn lemma_member_of(members: Seq<(Seq<char>, JsonView)>, i: int) -> (k: int)
    requires
        0 <= i < sort_by_key(canonical_members(members)).len(),
    ensures
        0 <= k < members.len(),
        sort_by_key(canonical_members(members))[i] == (
            members[k].0,
            canonical_text(members[k].1),
        ),
{
    let c = canonical_members(members);
    let e = sort_by_key(c)[i];
    lemma_canonical_members(members);
    lemma_sort_contains(c, e);
    assert(sort_by_key(c).contains(e));
    let k = choose|k: int| 0 <= k < c.len() && c[k] == e;
    assert(c[k] == (members[k].0, canonical_text(members[k].1)));
    k
}

/// The members of an object can be read back.
proof fn lemma_members_tell(
    p: Seq<(Seq<char>, JsonView)>,
    q: Seq<(Seq<char>, JsonView)>,
    i: int,
    x: Seq<char>,
    y: Seq<char>,
)
    requires
        proper_members(p),
        proper_members(q),
        0 <= i <= sort_by_key(canonical_members(p)).len(),
        i <= sort_by_key(canonical_members(q)).len(),
        run(entry_texts(sort_by_key(canonical_members(p))), i, seq!['}'] + x) == run(
            entry_texts(sort_by_key(canonical_members(q))),
            i,
            seq!['}'] + y,
        ),
    ensures
        sort_by_key(canonical_members(p)).len() == sort_by_key(canonical_members(q)).len(),
        forall|k: int|
            i <= k < sort_by_key(canonical_members(p)).len() ==> #[trigger] sort_by_key(
                canonical_members(p),
            )[k] == sort_by_key(canonical_members(q))[k],
    decreases p, sort_by_key(canonical_members(p)).len() - i,
{
    let sp = sort_by_key(canonical_members(p));
    let sq = sort_by_key(canonical_members(q));
    let ep = entry_texts(sp);
    let eq = entry_texts(sq);
    let ax = seq!['}'] + x;
    let ay = seq!['}'] + y;
    assert(ax[0] == '}');
    assert(ay[0] == '}');
    reveal_strlit(":");
    if i == sp.len() {
        if i < sq.len() {
            assert(eq[i] == member_text(sq[i]));
            assert(eq[i][0] == '"');
            assert(run(eq, i, ay)[0] != '}');
        }
    } else if i == sq.len() {
        assert(ep[i] == member_text(sp[i]));
        assert(ep[i][0] == '"');
        assert(run(ep, i, ax)[0] != '}');
    } else {
        let rp = run(ep, i + 1, ax);
        let rq = run(eq, i + 1, ay);
        if i > 0 {
            lemma_rest(seq![','], ep[i] + rp, eq[i] + rq);
        }
        lemma_run_ends(ep, i + 1, ax);
        lemma_run_ends(eq, i + 1, ay);
        let k = lemma_member_of(p, i);
        let l = lemma_member_of(q, i);
        let vp = seq![':'] + (sp[i].1 + rp);
        let vq = seq![':'] + (sq[i].1 + rq);
        assert(ep[i] + rp =~= json_literal(sp[i].0) + vp);
        assert(eq[i] + rq =~= json_literal(sq[i].0) + vq);
        lemma_literal_tells(sp[i].0, sq[i].0, vp, vq);
        lemma_rest(seq![':'], sp[i].1 + rp, sq[i].1 + rq);
        lemma_value_tells(p[k].1, q[l].1, rp, rq);
        lemma_rest(sp[i].1, rp, rq);
        assert(sp[i] == sq[i]);
        lemma_members_tell(p, q, i + 1, x, y);
    }
}

/// Members with the same sorted entries have the same content.
proof fn lemma_members_found(p: Seq<(Seq<char>, JsonView)>, q: Seq<(Seq<char>, JsonView)>)
    requires
        proper_members(p),
        proper_members(q),
        sort_by_key(canonical_members(p)) == sort_by_key(canonical_members(q)),
    ensures
        same_members(p, q),
    decreases p, 0int,
{
    let cp = canonical_members(p);
    let cq = canonical_members(q);
    lemma_canonical_members(p);
    lemma_canonical_members(q);
    law_sort_by_key_sorts(cp);
    law_sort_by_key_sorts(cq);
    assert forall|i: int| 0 <= i < p.len() implies exists|j: int|
        0 <= j < q.len() && (#[trigger] p[i]).0 == (#[trigger] q[j]).0 && same_content(
            p[i].1,
            q[j].1,
        ) by {
        let e = cp[i];
        assert(cp.contains(e));
        lemma_sort_contains(cp, e);
        lemma_sort_contains(cq, e);
        let j = choose|j: int| 0 <= j < cq.len() && cq[j] == e;
        assert(cq[j] == (q[j].0, canonical_text(q[j].1)));
        assert(cp[i] == (p[i].0, canonical_text(p[i].1)));
        lemma_value_tells(p[i].1, q[j].1, Seq::empty(), Seq::empty());
        assert(p[i].0 == q[j].0);
    }
    assert forall|j: int| 0 <= j < q.len() implies exists|i: int|
        0 <= i < p.len() && (#[trigger] p[i]).0 == (#[trigger] q[j]).0 && same_content(
            p[i].1,
            q[j].1,
        ) by {
        let e = cq[j];
        assert(cq.contains(e));
        lemma_sort_contains(cp, e);
        lemma_sort_contains(cq, e);
        let i = choose|i: int| 0 <= i < cp.len() && cp[i] == e;
        assert(cq[j] == (q[j].0, canonical_text(q[j].1)));
        assert(cp[i] == (p[i].0, canonical_text(p[i].1)));
        lemma_value_tells(p[i].1, q[j].1, Seq::empty(), Seq::empty());
        assert(p[i].0 == q[j].0);
    }
}

/// Canonical JSON tells values apart: proper values with the same canonical text
/// have the same content.
pub proof fn law_canonical_json_tells_values_apart(a: JsonView, b: JsonView)
    requires
        proper(a),
        proper(b),
        canonical_text(a) == canonical_text(b),
    ensures
        same_content(a, b),
{
    lemma_value_tells(a, b, Seq::empty(), Seq::empty());
}

/// Different texts are encoded differently.
proof fn lemma_encoding_tells(s: Seq<char>, t: Seq<char>)
    requires
        encode_utf8(s) == encode_utf8(t),
    ensures
        s == t,
{
    encode_utf8_decode_utf8(s);
    encode_utf8_decode_utf8(t);
}

/// Different bytes have different hexadecimal texts.
proof fn lemma_hex_tells(a: Seq<u8>, b: Seq<u8>)
    requires
        hex(a) == hex(b),
    ensures
        a == b,
    decreases a.len(),
{
    lemma_hex(a);
    lemma_hex(b);
    if a.len() > 0 {
        let m = a.last() as int;
        let n = b.last() as int;
        lemma_hex_digit(m / 16);
        lemma_hex_digit(m % 16);
        lemma_hex_digit(n / 16);
        lemma_hex_digit(n % 16);
        let k = hex(a).len() as int;
        assert(hex(a)[k - 1] == hex_digit(m % 16));
        assert(hex(b)[k - 1] == hex_digit(n % 16));
        assert(hex(a)[k - 2] == hex_digit(m / 16));
        assert(hex(b)[k - 2] == hex_digit(n / 16));
        assert(hex(a).take(k - 2) =~= hex(a.drop_last()));
        assert(hex(b).take(k - 2) =~= hex(b.drop_last()));
        lemma_hex_tells(a.drop_last(), b.drop_last());
        assert(a =~= a.drop_last().push(a.last()));
        assert(b =~= b.drop_last().push(b.last()));
    } else {
        assert(a =~= b);
    }
}

/// Requests that differ only in the method, only in the name or only in the
/// content of the arguments are hashed from different bytes. If their hashes are
/// the same all the same, the two messages have the same SHA-256 digest.
pub proof fn law_hash_tells_requests_apart(a: RequestView, b: RequestView)
    requires
        proper(a.arguments),
        proper(b.arguments),
    ensures
        a.method != b.method && a.name == b.name && same_content(a.arguments, b.arguments)
            ==> hashed_bytes(a) != hashed_bytes(b),
        a.method == b.method && a.name != b.name && same_content(a.arguments, b.arguments)
            ==> hashed_bytes(a) != hashed_bytes(b),
        a.method == b.method && a.name == b.name && !same_content(a.arguments, b.arguments)
            ==> hashed_bytes(a) != hashed_bytes(b),
        request_hash(a) == request_hash(b) <==> sha256(hashed_bytes(a)) == sha256(hashed_bytes(b)),
{
    let (ma, na, ta) = (
        encode_utf8(a.method),
        encode_utf8(a.name),
        encode_utf8(canonical_text(a.arguments)),
    );
    let (mb, nb, tb) = (
        encode_utf8(b.method),
        encode_utf8(b.name),
        encode_utf8(canonical_text(b.arguments)),
    );
    if same_content(a.arguments, b.arguments) {
        law_canonical_json_ignores_member_order(a.arguments, b.arguments);
    }
    if hashed_bytes(a) == hashed_bytes(b) {
        assert(hashed_bytes(a).len() == ma.len() + na.len() + ta.len());
        assert(hashed_bytes(b).len() == mb.len() + nb.len() + tb.len());
        if na == nb && ta == tb {
            assert(ma.len() == mb.len());
            assert(hashed_bytes(a).take(ma.len() as int) =~= ma);
            assert(hashed_bytes(b).take(mb.len() as int) =~= mb);
            lemma_encoding_tells(a.method, b.method);
        }
        if ma == mb && ta == tb {
            assert(na.len() == nb.len());
            assert(hashed_bytes(a).subrange(ma.len() as int, (ma.len() + na.len()) as int) =~= na);
            assert(hashed_bytes(b).subrange(mb.len() as int, (mb.len() + nb.len()) as int) =~= nb);
            lemma_encoding_tells(a.name, b.name);
        }
        if ma == mb && na == nb {
            assert(hashed_bytes(a).skip((ma.len() + na.len()) as int) =~= ta);
            assert(hashed_bytes(b).skip((mb.len() + nb.len()) as int) =~= tb);
            lemma_encoding_tells(canonical_text(a.arguments), canonical_text(b.arguments));
            law_canonical_json_tells_values_apart(a.arguments, b.arguments);
        }
    }
    if request_hash(a) == request_hash(b) {
        lemma_hex_tells(sha256(hashed_bytes(a)), sha256(hashed_bytes(b)));
    }
}

} // verus!
