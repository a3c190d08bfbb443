//! Text helpers: equality, searching, replacing and decimal numerals, all over
//! the character sequence that a string holds.

use vstd::prelude::*;
use vstd::string::*;

verus! {

/// Whether two strings hold the same characters.
pub(crate) fn same_text(a: &str, b: &str) -> (r: bool)
    ensures
        r == (a@ == b@),
{
    // The equality of `String` has a contract, that of `str` has none.
    a.to_owned() == b.to_owned()
}

/// `String::push` appends one character.
pub assume_specification[ std::string::String::push ](s: &mut std::string::String, c: char)
    ensures
        final(s)@ == old(s)@.push(c),
;

/// Whether a character has Unicode's `White_Space` property.
pub open spec fn is_space(c: char) -> bool {
    ||| '\t' <= c <= '\r'
    ||| c == ' '
    ||| c == '\u{85}'
    ||| c == '\u{a0}'
    ||| c == '\u{1680}'
    ||| '\u{2000}' <= c <= '\u{200a}'
    ||| c == '\u{2028}'
    ||| c == '\u{2029}'
    ||| c == '\u{202f}'
    ||| c == '\u{205f}'
    ||| c == '\u{3000}'
}

/// `char::is_whitespace` returns whether the character has Unicode's
/// `White_Space` property.
pub assume_specification[ char::is_whitespace ](c: char) -> (r: bool)
    ensures
        r == is_space(c),
;

/// The characters of a string, in order.
pub fn chars_of(s: &str) -> (r: Vec<char>)
    ensures
        r@ == s@,
{
    let mut out: Vec<char> = Vec::new();
    for c in iter: s.chars()
        invariant
            iter.seq() == s@,
            out@ == s@.take(iter.index() as int),
    {
        out.push(c);
        assert(out@ == s@.take(iter.index() as int + 1));
    }
    assert(s@.take(s@.len() as int) == s@);
    out
}

/// The string that holds the characters from `from` up to `to`.
pub fn substring_of(chars: &Vec<char>, from: usize, to: usize) -> (r: String)
    requires
        from <= to <= chars@.len(),
    ensures
        r@ == chars@.subrange(from as int, to as int),
{
    let mut out = String::new();
    let mut i: usize = from;
    while i < to
        invariant
            from <= i <= to <= chars@.len(),
            out@ == chars@.subrange(from as int, i as int),
        decreases to - i,
    {
        out.push(chars[i]);
        i = i + 1;
        assert(chars@.subrange(from as int, i as int) == chars@.subrange(
            from as int,
            i as int - 1,
        ).push(chars@[i as int - 1]));
    }
    out
}

/// The texts that a vector of strings holds.
pub open spec fn texts(v: Seq<String>) -> Seq<Seq<char>> {
    Seq::new(v.len(), |i: int| v[i]@)
}

/// The text of an optional string.
pub open spec fn opt_text(s: Option<String>) -> Option<Seq<char>> {
    match s {
        Some(t) => Some(t@),
        None => None,
    }
}

/// Whether `list` holds a string with the text `s`.
pub fn contains_text(list: &Vec<String>, s: &str) -> (r: bool)
    ensures
        r == texts(list@).contains(s@),
{
    let mut i: usize = 0;
    while i < list.len()
        invariant
            i <= list@.len(),
            forall|j: int| 0 <= j < i ==> (#[trigger] list@[j])@ != s@,
        decreases list@.len() - i,
    {
        if same_text(list[i].as_str(), s) {
            assert(texts(list@)[i as int] == s@);
            return true;
        }
        i = i + 1;
    }
    assert forall|j: int| 0 <= j < texts(list@).len() implies texts(list@)[j] != s@ by {
        assert(list@[j]@ != s@);
    }
    false
}

/// Whether every character is white space.
pub open spec fn is_blank(s: Seq<char>) -> bool {
    forall|i: int| 0 <= i < s.len() ==> is_space(#[trigger] s[i])
}

/// Whether a text is empty once white space has been trimmed off its ends.
pub fn blank(s: &str) -> (r: bool)
    ensures
        r == is_blank(s@),
{
    let chars = chars_of(s);
    let mut i: usize = 0;
    while i < chars.len()
        invariant
            chars@ == s@,
            i <= chars@.len(),
            forall|j: int| 0 <= j < i ==> is_space(#[trigger] s@[j]),
        decreases chars@.len() - i,
    {
        if !chars[i].is_whitespace() {
            assert(!is_space(s@[i as int]));
            return false;
        }
        i = i + 1;
    }
    true
}

/// The decimal numeral of a number, without leading zeros.
pub open spec fn numeral(n: nat) -> Seq<char>
    decreases n,
{
    if n < 10 {
        seq![('0' as nat + n) as char]
    } else {
        numeral(n / 10).push(('0' as nat + n % 10) as char)
    }
}

/// The numeral of a signed number: a minus sign before the numeral of its size.
pub open spec fn signed_numeral(n: int) -> Seq<char> {
    if n < 0 {
        seq!['-'] + numeral((-n) as nat)
    } else {
        numeral(n as nat)
    }
}

fn digit(d: u64) -> (r: char)
    requires
        d < 10,
    ensures
        r == ('0' as nat + d as nat) as char,
{
    if d == 0 {
        '0'
    } else if d == 1 {
        '1'
    } else if d == 2 {
        '2'
    } else if d == 3 {
        '3'
    } else if d == 4 {
        '4'
    } else if d == 5 {
        '5'
    } else if d == 6 {
        '6'
    } else if d == 7 {
        '7'
    } else if d == 8 {
        '8'
    } else {
        '9'
    }
}

/// Writes a number in decimal.
pub fn decimal(n: u64) -> (r: String)
    ensures
        r@ == numeral(n as nat),
    decreases n,
{
    if n < 10 {
        let mut out = String::new();
        out.push(digit(n));
        out
    } else {
        let mut out = decimal(n / 10);
        out.push(digit(n % 10));
        out
    }
}

/// Writes a signed number in decimal.
pub fn signed_decimal(n: i64) -> (r: String)
    ensures
        r@ == signed_numeral(n as int),
{
    if n < 0 {
        let mut out = String::new();
        out.push('-');
        let size: u64 = (-(n as i128)) as u64;
        let digits = decimal(size);
        out.append(digits.as_str());
        assert(out@ == seq!['-'] + numeral((-(n as int)) as nat));
        out
    } else {
        decimal(n as u64)
    }
}

/// A text in lower case, as `str::to_lowercase` makes it.
pub uninterp spec fn lower_case(text: Seq<char>) -> Seq<char>;

/// `str::to_lowercase` depends on the text alone.
pub assume_specification[ str::to_lowercase ](s: &str) -> (r: std::string::String)
    ensures
        r@ == lower_case(s@),
;

/// Whether `pat` stands in `s` at position `i`.
pub open spec fn stands_at(s: Seq<char>, pat: Seq<char>, i: int) -> bool {
    0 <= i && i + pat.len() <= s.len() && s.subrange(i, i + pat.len()) == pat
}

/// `s` with each occurrence of the non-empty text `from`, taken from the left
/// and without overlaps, replaced by `to`.
pub open spec fn replaced(s: Seq<char>, from: Seq<char>, to: Seq<char>) -> Seq<char>
    decreases s.len(),
{
    if from.len() == 0 || s.len() < from.len() {
        s
    } else if stands_at(s, from, 0) {
        to + replaced(s.skip(from.len() as int), from, to)
    } else {
        seq![s[0]] + replaced(s.skip(1), from, to)
    }
}

fn stands(chars: &Vec<char>, pat: &Vec<char>, at: usize) -> (r: bool)
    requires
        at <= chars@.len(),
    ensures
        r == stands_at(chars@, pat@, at as int),
{
    if pat.len() > chars.len() - at {
        return false;
    }
    let mut k: usize = 0;
    while k < pat.len()
        invariant
            at + pat.len() <= chars.len(),
            k <= pat@.len(),
            forall|j: int| 0 <= j < k ==> chars@[at + j] == pat@[j],
        decreases pat@.len() - k,
    {
        if chars[at + k] != pat[k] {
            assert(chars@.subrange(at as int, at + pat@.len())[k as int] != pat@[k as int]);
            return false;
        }
        k = k + 1;
    }
    assert(chars@.subrange(at as int, at + pat@.len()) == pat@);
    true
}

/// Whether `pat` stands somewhere in `s`.
pub open spec fn has_part(s: Seq<char>, pat: Seq<char>) -> bool {
    exists|i: int| stands_at(s, pat, i)
}

/// Whether `pat` stands somewhere in `s`.
pub fn contains_part(s: &str, pat: &str) -> (r: bool)
    ensures
        r == has_part(s@, pat@),
{
    let chars = chars_of(s);
    let wanted = chars_of(pat);
    let mut i: usize = 0;
    while i < chars.len()
        invariant
            i <= chars@.len(),
            chars@ == s@,
            wanted@ == pat@,
            forall|j: int| 0 <= j < i ==> !stands_at(chars@, wanted@, j),
        decreases chars@.len() - i,
    {
        if stands(&chars, &wanted, i) {
            return true;
        }
        i = i + 1;
    }
    stands(&chars, &wanted, i)
}

/// Replaces every occurrence of `from` by `to`.
pub fn replace_text(s: &str, from: &str, to: &str) -> (r: String)
    requires
        from@.len() > 0,
    ensures
        r@ == replaced(s@, from@, to@),
{
    let chars = chars_of(s);
    let pat = chars_of(from);
    let mut out = String::new();
    let mut i: usize = 0;
    assert(out@ + replaced(s@.skip(0), from@, to@) == replaced(s@, from@, to@)) by {
        assert(s@.skip(0) == s@);
        assert(out@ + replaced(s@, from@, to@) == replaced(s@, from@, to@));
    }
    while i < chars.len()
        invariant
            chars@ == s@,
            pat@ == from@,
            from@.len() > 0,
            i <= chars@.len(),
            out@ + replaced(s@.skip(i as int), from@, to@) == replaced(s@, from@, to@),
        decreases chars@.len() - i,
    {
        let ghost rest = s@.skip(i as int);
        let ghost before = out@;
        if stands(&chars, &pat, i) {
            out.append(to);
            i = i + pat.len();
            proof {
                assert(rest.subrange(0, from@.len() as int) == s@.subrange(i - from@.len(), i as int));
                assert(rest.skip(from@.len() as int) == s@.skip(i as int));
                assert(replaced(rest, from@, to@) == to@ + replaced(s@.skip(i as int), from@, to@));
                assert(out@ + replaced(s@.skip(i as int), from@, to@) == before + (to@ + replaced(
                    s@.skip(i as int),
                    from@,
                    to@,
                )));
            }
        } else {
            out.push(chars[i]);
            i = i + 1;
            proof {
                assert(rest.skip(1) == s@.skip(i as int));
                if rest.len() < from@.len() {
                    assert(rest == seq![rest[0]] + rest.skip(1));
                    assert(replaced(rest, from@, to@) == seq![rest[0]] + replaced(
                        s@.skip(i as int),
                        from@,
                        to@,
                    ));
                } else {
                    assert(!stands_at(rest, from@, 0)) by {
                        assert(rest.subrange(0, from@.len() as int) == s@.subrange(
                            i - 1,
                            i - 1 + from@.len(),
                        ));
                    }
                    assert(replaced(rest, from@, to@) == seq![rest[0]] + replaced(
                        s@.skip(i as int),
                        from@,
                        to@,
                    ));
                }
                assert(out@ + replaced(s@.skip(i as int), from@, to@) == before + (seq![rest[0]]
                    + replaced(s@.skip(i as int), from@, to@)));
            }
        }
    }
    assert(out@ + replaced(s@.skip(i as int), from@, to@) == out@);
    out
}

/// Whether `a` comes before `b` or equals it, character by character in the order
/// of code points.
pub open spec fn text_le(a: Seq<char>, b: Seq<char>) -> bool
    decreases a.len(),
{
    if a.len() == 0 {
        true
    } else if b.len() == 0 {
        false
    } else if a[0] != b[0] {
        a[0] < b[0]
    } else {
        text_le(a.skip(1), b.skip(1))
    }
}

/// The order of texts is total and antisymmetric.
pub proof fn lemma_text_order(a: Seq<char>, b: Seq<char>)
    ensures
        text_le(a, b) || text_le(b, a),
        text_le(a, b) && text_le(b, a) ==> a == b,
    decreases a.len(),
{
    if a.len() > 0 && b.len() > 0 {
        lemma_text_order(a.skip(1), b.skip(1));
        if a[0] == b[0] && a.skip(1) == b.skip(1) {
            assert(a == seq![a[0]] + a.skip(1));
            assert(b == seq![b[0]] + b.skip(1));
        }
    } else if a.len() == 0 && b.len() == 0 {
        assert(a == b);
    }
}

/// The order of texts is transitive.
pub proof fn lemma_text_order_transitive(a: Seq<char>, b: Seq<char>, c: Seq<char>)
    requires
        text_le(a, b),
        text_le(b, c),
    ensures
        text_le(a, c),
    decreases a.len(),
{
    if a.len() > 0 && b.len() > 0 && c.len() > 0 {
        if a[0] == b[0] && b[0] == c[0] {
            lemma_text_order_transitive(a.skip(1), b.skip(1), c.skip(1));
        }
    }
}

/// Whether `a` comes before `b` or equals it.
pub fn in_order(a: &str, b: &str) -> (r: bool)
    ensures
        r == text_le(a@, b@),
{
    let x = chars_of(a);
    let y = chars_of(b);
    let mut i: usize = 0;
    assert(a@.skip(0) == a@);
    assert(b@.skip(0) == b@);
    while i < x.len() && i < y.len()
        invariant
            x@ == a@,
            y@ == b@,
            i <= x@.len(),
            i <= y@.len(),
            text_le(a@, b@) == text_le(a@.skip(i as int), b@.skip(i as int)),
        decreases x@.len() - i,
    {
        if x[i] != y[i] {
            return x[i] < y[i];
        }
        i = i + 1;
        assert(a@.skip(i as int - 1).skip(1) == a@.skip(i as int));
        assert(b@.skip(i as int - 1).skip(1) == b@.skip(i as int));
    }
    i == x.len()
}

/// Texts joined by commas.
pub open spec fn joined(parts: Seq<Seq<char>>) -> Seq<char>
    decreases parts.len(),
{
    if parts.len() == 0 {
        Seq::empty()
    } else if parts.len() == 1 {
        parts[0]
    } else {
        joined(parts.drop_last()) + ","@ + parts.last()
    }
}

/// The first position from `i` on that holds the character `c`, or the end.
pub open spec fn char_end(s: Seq<char>, c: char, i: int) -> int
    decreases s.len() - i,
{
    if 0 <= i < s.len() && s[i] != c {
        char_end(s, c, i + 1)
    } else {
        i
    }
}

/// `char_end` goes forward and stays within the text.
pub proof fn lemma_char_end(s: Seq<char>, c: char, i: int)
    requires
        0 <= i <= s.len(),
    ensures
        i <= char_end(s, c, i) <= s.len(),
        char_end(s, c, i) < s.len() ==> s[char_end(s, c, i)] == c,
        forall|j: int| i <= j < char_end(s, c, i) ==> #[trigger] s[j] != c,
    decreases s.len() - i,
{
    if i < s.len() && s[i] != c {
        lemma_char_end(s, c, i + 1);
    }
}

/// The parts of a text, from position `i` on, between the occurrences of a
/// character.
pub open spec fn parts_from(s: Seq<char>, c: char, i: int) -> Seq<Seq<char>>
    decreases s.len() - i,
    via parts_from_decreases
{
    if i < 0 || i > s.len() {
        Seq::empty()
    } else {
        let end = char_end(s, c, i);
        if end < s.len() {
            seq![s.subrange(i, end)] + parts_from(s, c, end + 1)
        } else {
            seq![s.subrange(i, s.len() as int)]
        }
    }
}

#[via_fn]
proof fn parts_from_decreases(s: Seq<char>, c: char, i: int) {
    if 0 <= i <= s.len() {
        lemma_char_end(s, c, i);
    }
}

/// The parts of a text between the occurrences of a character.
pub open spec fn parts(s: Seq<char>, c: char) -> Seq<Seq<char>> {
    parts_from(s, c, 0)
}

/// Splits a text at a character.
pub fn split_text(s: &str, c: char) -> (r: Vec<String>)
    ensures
        texts(r@) == parts(s@, c),
{
    let chars = chars_of(s);
    let mut out: Vec<String> = Vec::new();
    let mut start: usize = 0;
    let mut i: usize = 0;
    assert(texts(out@) + parts_from(s@, c, 0) =~= parts(s@, c));
    while i < chars.len()
        invariant
            chars@ == s@,
            start <= i <= chars@.len(),
            char_end(s@, c, start as int) == char_end(s@, c, i as int),
            texts(out@) + parts_from(s@, c, start as int) == parts(s@, c),
        decreases chars@.len() - i,
    {
        if chars[i] == c {
            let ghost before = out@;
            let part = substring_of(&chars, start, i);
            out.push(part);
            proof {
                assert(char_end(s@, c, start as int) == i);
                assert(texts(out@) =~= texts(before).push(s@.subrange(start as int, i as int)));
                assert(texts(out@) + parts_from(s@, c, i as int + 1) =~= texts(before) + (seq![
                    s@.subrange(start as int, i as int),
                ] + parts_from(s@, c, i as int + 1)));
            }
            start = i + 1;
        }
        i = i + 1;
    }
    let ghost before = out@;
    out.push(substring_of(&chars, start, chars.len()));
    proof {
        assert(char_end(s@, c, start as int) == s@.len());
        assert(texts(out@) =~= texts(before) + seq![
            s@.subrange(start as int, s@.len() as int),
        ]);
    }
    out
}

/// Whether every character from position `i` on is a decimal digit.
pub open spec fn all_digits(s: Seq<char>, i: int) -> bool {
    forall|j: int| i <= j < s.len() ==> '0' <= #[trigger] s[j] <= '9'
}

/// The number that the digits up to position `n` from position `i` on stand for.
pub open spec fn digits_value(s: Seq<char>, i: int, n: int) -> nat
    decreases n - i,
{
    if n <= i {
        0
    } else {
        10 * digits_value(s, i, n - 1) + (s[n - 1] as nat - '0' as nat) as nat
    }
}

/// Where the digits of a number begin: behind a plus sign, if there is one.
pub open spec fn digits_start(s: Seq<char>) -> int {
    if s.len() > 0 && s[0] == '+' {
        1
    } else {
        0
    }
}

/// The number that a text stands for: an optional plus sign and at least one
/// digit, with a value of at most `max`.
pub open spec fn parsed(s: Seq<char>, max: nat) -> Option<nat> {
    let i = digits_start(s);
    let value = digits_value(s, i, s.len() as int);
    if i < s.len() && all_digits(s, i) && value <= max {
        Some(value)
    } else {
        None
    }
}

/// More digits do not make a number smaller.
proof fn lemma_digits_grow(s: Seq<char>, i: int, n: int, m: int)
    requires
        i <= n <= m,
    ensures
        digits_value(s, i, n) <= digits_value(s, i, m),
    decreases m - n,
{
    if n < m {
        lemma_digits_grow(s, i, n, m - 1);
    }
}

/// Reads a number of at most `max`.
pub fn parse_number(text: &str, max: u64) -> (r: Option<u64>)
    ensures
        match r {
            Some(n) => parsed(text@, max as nat) == Some(n as nat),
            None => parsed(text@, max as nat) is None,
        },
{
    let chars = chars_of(text);
    let start: usize = if chars.len() > 0 && chars[0] == '+' {
        1
    } else {
        0
    };
    if start == chars.len() {
        return None;
    }
    let mut value: u64 = 0;
    let mut too_large = false;
    let mut i: usize = start;
    while i < chars.len()
        invariant
            chars@ == text@,
            start == digits_start(text@),
            start <= i <= chars@.len(),
            forall|j: int| start <= j < i ==> '0' <= #[trigger] text@[j] <= '9',
            !too_large ==> value == digits_value(text@, start as int, i as int) && value <= max,
            too_large ==> digits_value(text@, start as int, i as int) > max,
        decreases chars@.len() - i,
    {
        let c = chars[i];
        if c < '0' || c > '9' {
            assert(!all_digits(text@, start as int)) by {
                assert(!('0' <= text@[i as int] <= '9'));
            }
            return None;
        }
        let d: u64 = (c as u32 - '0' as u32) as u64;
        if !too_large {
            let longer: u128 = 10 * value as u128 + d as u128;
            if longer > max as u128 {
                too_large = true;
            } else {
                value = longer as u64;
            }
        }
        i = i + 1;
        proof {
            lemma_digits_grow(text@, start as int, i as int - 1, i as int);
        }
    }
    if too_large {
        None
    } else {
        Some(value)
    }
}

} // verus!
