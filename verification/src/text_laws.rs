//! What holds of texts: numerals, parts and replacements.

use vstd::prelude::*;

use crate::text::{
    all_digits, char_end, digits_value, has_part, lemma_char_end, numeral, parsed, parts,
    parts_from, replaced, signed_numeral, stands_at,
};

verus! {

/// The digits of a numeral stand for its number.
proof fn lemma_numeral(n: nat)
    ensures
        numeral(n).len() > 0,
        forall|i: int| 0 <= i < numeral(n).len() ==> '0' <= #[trigger] numeral(n)[i] <= '9',
        digits_value(numeral(n), 0, numeral(n).len() as int) == n,
    decreases n,
{
    if n < 10 {
        let c = ('0' as nat + n) as char;
        assert(numeral(n) =~= seq![c]);
        assert(numeral(n)[0] == c);
        assert(c as nat == '0' as nat + n);
        assert(digits_value(numeral(n), 0, 0) == 0);
        assert(digits_value(numeral(n), 0, 1) == n);
    } else {
        let front = numeral(n / 10);
        let c = ('0' as nat + n % 10) as char;
        lemma_numeral(n / 10);
        assert(c as nat == '0' as nat + n % 10);
        let whole = numeral(n);
        assert(whole == front.push(c));
        lemma_same_digits(front, whole, front.len() as int);
        assert forall|i: int| 0 <= i < whole.len() implies '0' <= #[trigger] whole[i] <= '9' by {
            if i < front.len() {
                assert(whole[i] == front[i]);
            }
        }
        assert(whole[front.len() as int] == c);
        assert(digits_value(whole, 0, whole.len() as int) == 10 * digits_value(
            whole,
            0,
            front.len() as int,
        ) + n % 10);
    }
}

/// Texts that begin alike have the same digits there.
proof fn lemma_same_digits(a: Seq<char>, b: Seq<char>, n: int)
    requires
        0 <= n <= a.len(),
        n <= b.len(),
        forall|i: int| 0 <= i < n ==> a[i] == b[i],
    ensures
        digits_value(a, 0, n) == digits_value(b, 0, n),
    decreases n,
{
    if n > 0 {
        lemma_same_digits(a, b, n - 1);
    }
}

/// A number that is written is read back, unless it is beyond the limit; so no two
/// numbers are written alike.
pub proof fn law_numerals_are_read_back(n: nat, m: nat, max: nat)
    ensures
        n <= max ==> parsed(numeral(n), max) == Some(n),
        n > max ==> parsed(numeral(n), max) is None,
        numeral(n) == numeral(m) ==> n == m,
        signed_numeral(n as int) == numeral(n),
        n > 0 ==> signed_numeral(-(n as int)) == seq!['-'] + numeral(n),
{
    lemma_numeral(n);
    lemma_numeral(m);
    assert(numeral(n)[0] != '+') by {
        assert('0' <= numeral(n)[0]);
    }
    assert(all_digits(numeral(n), 0));
}

/// The texts of a list with a character between each two.
pub open spec fn joined_by(list: Seq<Seq<char>>, c: char) -> Seq<char>
    decreases list.len(),
{
    if list.len() == 0 {
        Seq::empty()
    } else if list.len() == 1 {
        list[0]
    } else {
        list[0] + seq![c] + joined_by(list.skip(1), c)
    }
}

/// The parts of a text, put together again with the character between them, are the
/// text, and none of them has the character in it; there is always at least one.
pub proof fn law_parts_make_the_text(s: Seq<char>, c: char)
    ensures
        parts(s, c).len() > 0,
        joined_by(parts(s, c), c) == s,
        forall|i: int| 0 <= i < parts(s, c).len() ==> !(#[trigger] parts(s, c)[i]).contains(c),
{
    lemma_parts_from(s, c, 0);
    assert(s.skip(0) =~= s);
}

proof fn lemma_parts_from(s: Seq<char>, c: char, i: int)
    requires
        0 <= i <= s.len(),
    ensures
        parts_from(s, c, i).len() > 0,
        joined_by(parts_from(s, c, i), c) == s.skip(i),
        forall|k: int|
            0 <= k < parts_from(s, c, i).len() ==> !(#[trigger] parts_from(s, c, i)[k]).contains(c),
    decreases s.len() - i,
{
    lemma_char_end(s, c, i);
    let end = char_end(s, c, i);
    let part = s.subrange(i, end);
    assert(!part.contains(c)) by {
        if part.contains(c) {
            let k = choose|k: int| 0 <= k < part.len() && part[k] == c;
            assert(s[i + k] == c);
        }
    }
    let all = parts_from(s, c, i);
    if end < s.len() {
        lemma_parts_from(s, c, end + 1);
        let rest = parts_from(s, c, end + 1);
        assert(all == seq![part] + rest);
        assert(all.skip(1) =~= rest);
        assert(all[0] == part);
        assert(part + seq![c] + s.skip(end + 1) =~= s.skip(i));
        assert forall|k: int| 0 <= k < all.len() implies !(#[trigger] all[k]).contains(c) by {
            if k > 0 {
                assert(all[k] == rest[k - 1]);
            }
        }
    } else {
        assert(all =~= seq![part]);
        assert(part =~= s.skip(i));
    }
}

/// A text stands in another exactly if the other is something before it, the text,
/// and something behind it.
pub proof fn law_parts_stand_between(s: Seq<char>, before: Seq<char>, part: Seq<char>, behind: Seq<
    char,
>)
    ensures
        has_part(before + part + behind, part),
        has_part(s, part) ==> exists|i: int|
            0 <= i <= s.len() - part.len() && #[trigger] s.take(i) + part + s.skip(i + part.len())
                == s,
{
    let whole = before + part + behind;
    let at = before.len() as int;
    assert(whole.subrange(at, at + part.len()) =~= part);
    assert(stands_at(whole, part, at));
    if has_part(s, part) {
        let i = choose|i: int| stands_at(s, part, i);
        assert(s.subrange(i, i + part.len()) == part);
        assert(s.take(i) + part + s.skip(i + part.len()) =~= s);
    }
}

/// Replacing changes what stands at the first occurrence and goes on behind it; a
/// text in which nothing is to be replaced stays as it is.
pub proof fn law_replacing_goes_on(
    before: Seq<char>,
    from: Seq<char>,
    to: Seq<char>,
    behind: Seq<char>,
)
    requires
        from.len() > 0,
        forall|i: int| 0 <= i < before.len() ==> !stands_at(before + from + behind, from, i),
    ensures
        replaced(before + from + behind, from, to) == before + to + replaced(behind, from, to),
        !has_part(behind, from) ==> replaced(behind, from, to) == behind,
    decreases before.len(),
{
    let s = before + from + behind;
    if !has_part(behind, from) {
        lemma_nothing_to_replace(behind, from, to);
    }
    if before.len() == 0 {
        assert(s.subrange(0, from.len() as int) =~= from);
        assert(s.skip(from.len() as int) =~= behind);
        assert(before + to =~= to);
        assert(stands_at(s, from, 0));
    } else {
        let rest = before.skip(1);
        let t = rest + from + behind;
        assert(s.skip(1) =~= t);
        assert forall|i: int| 0 <= i < rest.len() implies !stands_at(t, from, i) by {
            if stands_at(t, from, i) {
                assert(s.subrange(i + 1, i + 1 + from.len()) =~= t.subrange(i, i + from.len()));
                assert(stands_at(s, from, i + 1));
            }
        }
        law_replacing_goes_on(rest, from, to, behind);
        assert(!stands_at(s, from, 0));
        assert(seq![s[0]] + (rest + to + replaced(behind, from, to)) =~= before + to + replaced(
            behind,
            from,
            to,
        ));
    }
}

proof fn lemma_nothing_to_replace(s: Seq<char>, from: Seq<char>, to: Seq<char>)
    requires
        !has_part(s, from),
    ensures
        replaced(s, from, to) == s,
    decreases s.len(),
{
    if from.len() > 0 && s.len() >= from.len() {
        assert(!stands_at(s, from, 0));
        let t = s.skip(1);
        assert(!has_part(t, from)) by {
            if has_part(t, from) {
                let i = choose|i: int| stands_at(t, from, i);
                assert(s.subrange(i + 1, i + 1 + from.len()) =~= t.subrange(i, i + from.len()));
                assert(stands_at(s, from, i + 1));
            }
        }
        lemma_nothing_to_replace(t, from, to);
        assert(seq![s[0]] + t =~= s);
    }
}

} // verus!
