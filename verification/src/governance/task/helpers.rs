//! Canonical JSON, request hashes and poll intervals.

use vstd::prelude::*;
use vstd::string::*;
use vstd::utf8::encode_utf8;
use sha2::Digest;

use crate::json::{
    item_views, lemma_item_views, lemma_member_views, member_views, Json, JsonNumber, JsonView,
};
use crate::governance::task::types::{RequestView, ToolCallRequest};
use crate::text::{
    chars_of, decimal, in_order, joined, numeral, signed_decimal, signed_numeral, text_le, texts,
};
use crate::time::{Duration, NANOS_PER_SEC};

verus! {

/// The nesting depth down to which JSON is written.
pub const MAX_CANONICAL_JSON_DEPTH: usize = 64;

/// A character in a JSON string literal: the quotation mark, the backslash and the
/// control characters are escaped.
pub open spec fn escaped(c: char) -> Seq<char> {
    match c {
        '"' => seq!['\\', '"'],
        '\\' => seq!['\\', '\\'],
        '\u{8}' => seq!['\\', 'b'],
        '\t' => seq!['\\', 't'],
        '\n' => seq!['\\', 'n'],
        '\u{c}' => seq!['\\', 'f'],
        '\r' => seq!['\\', 'r'],
        _ => if (c as int) < 0x20 {
            seq!['\\', 'u', '0', '0', hex_digit(c as int / 16), hex_digit(c as int % 16)]
        } else {
            seq![c]
        },
    }
}

/// The characters of a text, escaped.
pub open spec fn escaped_text(text: Seq<char>) -> Seq<char>
    decreases text.len(),
{
    if text.len() == 0 {
        Seq::empty()
    } else {
        escaped(text[0]) + escaped_text(text.skip(1))
    }
}

/// A text as a JSON string literal.
pub open spec fn json_literal(text: Seq<char>) -> Seq<char> {
    seq!['"'] + escaped_text(text) + seq!['"']
}

/// `serde_json::to_string` of a string, which never fails: the text between
/// quotation marks, with a two-character escape for the quotation mark, the
/// backslash, backspace, tab, line feed, form feed and carriage return, the escape
/// with four hexadecimal digits for every other character below the space, and
/// every other character as it is.
#[verifier::external_body]
fn quote(text: &str) -> (r: String)
    ensures
        r@ == json_literal(text@),
{
    serde_json::to_string(text).unwrap_or_default()
}

/// Whether JSON at a nesting depth goes deeper than the limit.
pub open spec fn too_deep(value: JsonView, depth: int) -> bool
    decreases value,
{
    ||| depth > MAX_CANONICAL_JSON_DEPTH
    ||| match value {
        JsonView::Array(items) => some_item_too_deep(items, depth + 1),
        JsonView::Object(members) => some_member_too_deep(members, depth + 1),
        _ => false,
    }
}

/// Whether some item at a nesting depth goes deeper than the limit.
pub open spec fn some_item_too_deep(items: Seq<JsonView>, depth: int) -> bool
    decreases items,
{
    exists|i: int| 0 <= i < items.len() && too_deep(#[trigger] items[i], depth)
}

/// Whether the value of some member at a nesting depth goes deeper than the
/// limit.
pub open spec fn some_member_too_deep(members: Seq<(Seq<char>, JsonView)>, depth: int) -> bool
    decreases members,
{
    exists|i: int| 0 <= i < members.len() && too_deep((#[trigger] members[i]).1, depth)
}

/// An array is too deep if one of its items is.
proof fn lemma_deep_item(items: Seq<JsonView>, i: int, depth: int)
    requires
        0 <= i < items.len(),
        too_deep(items[i], depth + 1),
    ensures
        too_deep(JsonView::Array(items), depth),
{
    assert(some_item_too_deep(items, depth + 1));
}

/// An object is too deep if the value of one of its members is.
proof fn lemma_deep_member(members: Seq<(Seq<char>, JsonView)>, i: int, depth: int)
    requires
        0 <= i < members.len(),
        too_deep(members[i].1, depth + 1),
    ensures
        too_deep(JsonView::Object(members), depth),
{
    assert(some_member_too_deep(members, depth + 1));
}

/// The text of a number.
pub open spec fn number_text(n: JsonNumber<Seq<char>>) -> Seq<char> {
    match n {
        JsonNumber::Int(i) => signed_numeral(i as int),
        JsonNumber::Uint(u) => numeral(u as nat),
        JsonNumber::Real(t) => t,
    }
}

/// A sorted sequence of keyed texts with one more put behind all those whose
/// keys are not greater.
pub open spec fn insert_sorted(
    sorted: Seq<(Seq<char>, Seq<char>)>,
    entry: (Seq<char>, Seq<char>),
) -> Seq<(Seq<char>, Seq<char>)>
    decreases sorted.len(),
{
    if sorted.len() == 0 || text_le(sorted.last().0, entry.0) {
        sorted.push(entry)
    } else {
        insert_sorted(sorted.drop_last(), entry).push(sorted.last())
    }
}

/// Keyed texts in the order of their keys; equal keys stay in their order.
pub open spec fn sort_by_key(entries: Seq<(Seq<char>, Seq<char>)>) -> Seq<(Seq<char>, Seq<char>)>
    decreases entries.len(),
{
    if entries.len() == 0 {
        entries
    } else {
        insert_sorted(sort_by_key(entries.drop_last()), entries.last())
    }
}

/// The text of an object's member.
pub open spec fn member_text(entry: (Seq<char>, Seq<char>)) -> Seq<char> {
    json_literal(entry.0) + ":"@ + entry.1
}

/// The texts of an object's members.
pub open spec fn entry_texts(entries: Seq<(Seq<char>, Seq<char>)>) -> Seq<Seq<char>> {
    Seq::new(entries.len(), |i: int| member_text(entries[i]))
}

/// JSON without white space and with the members of every object in the order of
/// their keys.
pub open spec fn canonical_text(value: JsonView) -> Seq<char>
    decreases value,
{
    match value {
        JsonView::Null => "null"@,
        JsonView::Bool(b) => if b {
            "true"@
        } else {
            "false"@
        },
        JsonView::Number(n) => number_text(n),
        JsonView::String(s) => json_literal(s),
        JsonView::Array(items) => "["@ + joined(canonical_items(items)) + "]"@,
        JsonView::Object(members) => "{"@ + joined(
            entry_texts(sort_by_key(canonical_members(members))),
        ) + "}"@,
    }
}

/// The canonical texts of a sequence of values.
pub open spec fn canonical_items(items: Seq<JsonView>) -> Seq<Seq<char>>
    decreases items,
{
    Seq::new(
        items.len(),
        |i: int|
            if 0 <= i < items.len() {
                canonical_text(items[i])
            } else {
                Seq::empty()
            },
    )
}

/// The keys of a sequence of members with the canonical texts of their values.
pub open spec fn canonical_members(members: Seq<(Seq<char>, JsonView)>) -> Seq<
    (Seq<char>, Seq<char>),
>
    decreases members,
{
    Seq::new(
        members.len(),
        |i: int|
            if 0 <= i < members.len() {
                (members[i].0, canonical_text(members[i].1))
            } else {
                (Seq::empty(), Seq::empty())
            },
    )
}

/// The canonical texts of a sequence are those of its values.
pub proof fn lemma_canonical_items(items: Seq<JsonView>)
    ensures
        canonical_items(items).len() == items.len(),
        forall|i: int|
            0 <= i < items.len() ==> #[trigger] canonical_items(items)[i] == canonical_text(
                items[i],
            ),
{
}

/// The canonical texts of members are those of their values.
pub proof fn lemma_canonical_members(members: Seq<(Seq<char>, JsonView)>)
    ensures
        canonical_members(members).len() == members.len(),
        forall|i: int|
            0 <= i < members.len() ==> #[trigger] canonical_members(members)[i] == (
                members[i].0,
                canonical_text(members[i].1),
            ),
{
}

/// Joins texts with commas.
fn join(parts: &Vec<String>) -> (r: String)
    ensures
        r@ == joined(texts(parts@)),
{
    let mut out = String::new();
    let mut i: usize = 0;
    let ghost all = texts(parts@);
    assert(all.take(0) == Seq::<Seq<char>>::empty());
    while i < parts.len()
        invariant
            all == texts(parts@),
            i <= parts@.len(),
            out@ == joined(all.take(i as int)),
        decreases parts@.len() - i,
    {
        if i > 0 {
            out.append(",");
        }
        out.append(parts[i].as_str());
        i = i + 1;
        proof {
            let prefix = all.take(i as int);
            assert(prefix.drop_last() == all.take(i as int - 1));
            assert(prefix.last() == parts@[i as int - 1]@);
            if i == 1 {
                assert(prefix[0] == parts@[0]@);
                assert(out@ == joined(prefix));
            }
        }
    }
    assert(all.take(i as int) == all);
    out
}

/// Where an entry is put into a sorted sequence.
proof fn lemma_insert_at(
    sorted: Seq<(Seq<char>, Seq<char>)>,
    entry: (Seq<char>, Seq<char>),
    pos: int,
)
    requires
        0 <= pos <= sorted.len(),
        pos == 0 || text_le(sorted[pos - 1].0, entry.0),
        forall|j: int| pos <= j < sorted.len() ==> !text_le((#[trigger] sorted[j]).0, entry.0),
    ensures
        insert_sorted(sorted, entry) == sorted.insert(pos, entry),
    decreases sorted.len(),
{
    if pos == sorted.len() {
        assert(sorted.insert(pos, entry) == sorted.push(entry));
    } else {
        assert(!text_le(sorted.last().0, entry.0));
        lemma_insert_at(sorted.drop_last(), entry, pos);
        assert(sorted.drop_last().insert(pos, entry).push(sorted.last()) == sorted.insert(
            pos,
            entry,
        ));
    }
}

/// The entries that stand at the given positions.
spec fn picked(entries: Seq<(Seq<char>, Seq<char>)>, order: Seq<usize>) -> Seq<
    (Seq<char>, Seq<char>),
> {
    Seq::new(order.len(), |i: int| entries[order[i] as int])
}

/// The keys and texts of a sequence of members.
spec fn keyed_texts(members: Seq<(String, Json)>, values: Seq<String>) -> Seq<
    (Seq<char>, Seq<char>),
> {
    Seq::new(members.len(), |i: int| (members[i].0@, values[i]@))
}

/// The positions of members in the order of their keys.
fn key_order(members: &Vec<(String, Json)>, values: &Vec<String>) -> (order: Vec<usize>)
    requires
        values@.len() == members@.len(),
    ensures
        order@.len() == members@.len(),
        forall|i: int| 0 <= i < order@.len() ==> (#[trigger] order@[i]) < members@.len(),
        picked(keyed_texts(members@, values@), order@) == sort_by_key(
            keyed_texts(members@, values@),
        ),
{
    let ghost entries = keyed_texts(members@, values@);
    let mut order: Vec<usize> = Vec::new();
    let mut k: usize = 0;
    assert(picked(entries, order@) =~= sort_by_key(entries.take(0)));
    while k < members.len()
        invariant
            values@.len() == members@.len(),
            entries == keyed_texts(members@, values@),
            k <= members@.len(),
            order@.len() == k,
            forall|i: int| 0 <= i < order@.len() ==> (#[trigger] order@[i]) < members@.len(),
            picked(entries, order@) == sort_by_key(entries.take(k as int)),
        decreases members@.len() - k,
    {
        let ghost sorted = picked(entries, order@);
        let mut pos: usize = order.len();
        while pos > 0 && !in_order(members[order[pos - 1]].0.as_str(), members[k].0.as_str())
            invariant
                k < members@.len(),
                values@.len() == members@.len(),
                entries == keyed_texts(members@, values@),
                order@.len() == k,
                sorted == picked(entries, order@),
                pos <= order@.len(),
                forall|i: int| 0 <= i < order@.len() ==> (#[trigger] order@[i]) < members@.len(),
                forall|j: int|
                    pos <= j < sorted.len() ==> !text_le(
                        (#[trigger] sorted[j]).0,
                        entries[k as int].0,
                    ),
            decreases pos,
        {
            assert(sorted[pos as int - 1] == entries[order@[pos as int - 1] as int]);
            pos = pos - 1;
        }
        proof {
            if pos > 0 {
                assert(sorted[pos as int - 1] == entries[order@[pos as int - 1] as int]);
            }
            lemma_insert_at(sorted, entries[k as int], pos as int);
        }
        let ghost before = order@;
        order.insert(pos, k);
        k = k + 1;
        proof {
            assert(picked(entries, order@) =~= sorted.insert(pos as int, entries[k as int - 1]));
            let prefix = entries.take(k as int);
            assert(prefix.drop_last() == entries.take(k as int - 1));
            assert(prefix.last() == entries[k as int - 1]);
        }
    }
    assert(entries.take(k as int) == entries);
    order
}

/// What is said of JSON that is nested too deeply.
pub open spec fn depth_message() -> Seq<char> {
    "JSON nesting depth exceeds maximum of 64"@
}

/// The canonical JSON of a value, with the members of every object in the order
/// of their keys. Fails where the nesting exceeds the limit.
pub fn canonical_json(value: &Json) -> (r: Result<String, String>)
    ensures
        match r {
            Ok(t) => !too_deep(value@, 0) && t@ == canonical_text(value@),
            Err(e) => too_deep(value@, 0) && e@ == depth_message(),
        },
{
    canonical_json_inner(value, 0)
}

fn canonical_json_inner(value: &Json, depth: usize) -> (r: Result<String, String>)
    requires
        depth <= MAX_CANONICAL_JSON_DEPTH + 1,
    ensures
        match r {
            Ok(t) => !too_deep(value@, depth as int) && t@ == canonical_text(value@),
            Err(e) => too_deep(value@, depth as int) && e@ == depth_message(),
        },
    decreases value,
{
    if depth > MAX_CANONICAL_JSON_DEPTH {
        return Err("JSON nesting depth exceeds maximum of 64".to_owned());
    }
    match value {
        Json::Null => Ok("null".to_owned()),
        Json::Bool(b) => if *b {
            Ok("true".to_owned())
        } else {
            Ok("false".to_owned())
        },
        Json::Number(n) => match n {
            JsonNumber::Int(i) => Ok(signed_decimal(*i)),
            JsonNumber::Uint(u) => Ok(decimal(*u)),
            JsonNumber::Real(t) => Ok(t.clone()),
        },
        Json::String(s) => Ok(quote(s.as_str())),
        Json::Array(items) => {
            proof {
                lemma_item_views(items@);
                lemma_canonical_items(item_views(items@));
            }
            let ghost views = item_views(items@);
            let mut parts: Vec<String> = Vec::new();
            let mut i: usize = 0;
            while i < items.len()
                invariant
                    value matches Json::Array(v) && v == items,
                    depth <= MAX_CANONICAL_JSON_DEPTH,
                    value@ == JsonView::Array(views),
                    views.len() == items@.len(),
                    forall|j: int| 0 <= j < items@.len() ==> #[trigger] views[j] == items@[j]@,
                    i <= items@.len(),
                    parts@.len() == i,
                    forall|j: int|
                        0 <= j < i ==> !too_deep(#[trigger] views[j], depth + 1) && parts@[j]@
                            == canonical_text(views[j]),
                decreases items@.len() - i,
            {
                assert(decreases_to!(value => items@[i as int]));
                assert(views[i as int] == items@[i as int]@);
                match canonical_json_inner(&items[i], depth + 1) {
                    Ok(t) => parts.push(t),
                    Err(e) => {
                        proof {
                            lemma_deep_item(views, i as int, depth as int);
                        }
                        return Err(e);
                    },
                }
                i = i + 1;
            }
            assert(texts(parts@) =~= canonical_items(views));
            Ok("[".to_owned().concat(join(&parts).as_str()).concat("]"))
        },
        Json::Object(members) => {
            proof {
                lemma_member_views(members@);
                lemma_canonical_members(member_views(members@));
            }
            let ghost views = member_views(members@);
            let mut values: Vec<String> = Vec::new();
            let mut i: usize = 0;
            while i < members.len()
                invariant
                    value matches Json::Object(v) && v == members,
                    depth <= MAX_CANONICAL_JSON_DEPTH,
                    value@ == JsonView::Object(views),
                    views.len() == members@.len(),
                    forall|j: int|
                        0 <= j < members@.len() ==> #[trigger] views[j] == (
                            members@[j].0@,
                            members@[j].1@,
                        ),
                    i <= members@.len(),
                    values@.len() == i,
                    forall|j: int|
                        0 <= j < i ==> !too_deep((#[trigger] views[j]).1, depth + 1) && values@[j]@
                            == canonical_text(views[j].1),
                decreases members@.len() - i,
            {
                assert(decreases_to!(value => members@[i as int].1));
                assert(views[i as int] == (members@[i as int].0@, members@[i as int].1@));
                match canonical_json_inner(&members[i].1, depth + 1) {
                    Ok(t) => values.push(t),
                    Err(e) => {
                        proof {
                            lemma_deep_member(views, i as int, depth as int);
                        }
                        return Err(e);
                    },
                }
                i = i + 1;
            }
            let ghost entries = keyed_texts(members@, values@);
            assert(entries =~= canonical_members(views));
            let order = key_order(members, &values);
            let mut parts: Vec<String> = Vec::new();
            let mut k: usize = 0;
            while k < order.len()
                invariant
                    order@.len() == members@.len(),
                    values@.len() == members@.len(),
                    entries == keyed_texts(members@, values@),
                    forall|j: int| 0 <= j < order@.len() ==> (#[trigger] order@[j]) < members@.len(),
                    k <= order@.len(),
                    parts@.len() == k,
                    forall|j: int|
                        0 <= j < k ==> (#[trigger] parts@[j])@ == member_text(
                            picked(entries, order@)[j],
                        ),
                decreases order@.len() - k,
            {
                let at: usize = order[k];
                let part = quote(members[at].0.as_str()).concat(":").concat(values[at].as_str());
                assert(picked(entries, order@)[k as int] == entries[at as int]);
                parts.push(part);
                k = k + 1;
            }
            assert(texts(parts@) =~= entry_texts(picked(entries, order@)));
            Ok("{".to_owned().concat(join(&parts).as_str()).concat("}"))
        },
    }
}

/// The SHA-256 digest of a message.
pub uninterp spec fn sha256(message: Seq<u8>) -> Seq<u8>;

/// `sha2::Sha256::digest`: the 32 bytes of the digest depend on the message
/// alone.
#[verifier::external_body]
fn digest(message: &Vec<u8>) -> (r: Vec<u8>)
    ensures
        r@ == sha256(message@),
        r@.len() == 32,
{
    sha2::Sha256::digest(message).to_vec()
}

/// The lower-case hexadecimal digit of a number below sixteen.
pub open spec fn hex_digit(n: int) -> char {
    "0123456789abcdef"@[n]
}

/// Two hexadecimal digits for each byte.
pub open spec fn hex(bytes: Seq<u8>) -> Seq<char>
    decreases bytes.len(),
{
    if bytes.len() == 0 {
        Seq::empty()
    } else {
        hex(bytes.drop_last()).push(hex_digit(bytes.last() as int / 16)).push(
            hex_digit(bytes.last() as int % 16),
        )
    }
}

/// Whether a character is a lower-case hexadecimal digit.
pub open spec fn is_hex(c: char) -> bool {
    '0' <= c <= '9' || 'a' <= c <= 'f'
}

/// What the hexadecimal digits are.
pub proof fn lemma_hex_digit(n: int)
    requires
        0 <= n < 16,
    ensures
        hex_digit(n) as int == if n < 10 {
            '0' as int + n
        } else {
            'a' as int + n - 10
        },
        is_hex(hex_digit(n)),
{
    reveal_strlit("0123456789abcdef");
}

/// The hexadecimal text of bytes has two digits for each.
pub proof fn lemma_hex(bytes: Seq<u8>)
    ensures
        hex(bytes).len() == 2 * bytes.len(),
        forall|i: int| 0 <= i < hex(bytes).len() ==> is_hex(#[trigger] hex(bytes)[i]),
    decreases bytes.len(),
{
    if bytes.len() > 0 {
        lemma_hex(bytes.drop_last());
        lemma_hex_digit(bytes.last() as int / 16);
        lemma_hex_digit(bytes.last() as int % 16);
        let before = hex(bytes.drop_last());
        assert forall|i: int| 0 <= i < hex(bytes).len() implies is_hex(#[trigger] hex(bytes)[i]) by {
            if i < before.len() {
                assert(hex(bytes)[i] == before[i]);
            }
        }
    }
}

fn to_hex(bytes: &Vec<u8>) -> (r: String)
    ensures
        r@ == hex(bytes@),
{
    proof {
        reveal_strlit("0123456789abcdef");
    }
    let digits = chars_of("0123456789abcdef");
    let mut out = String::new();
    let mut i: usize = 0;
    assert(bytes@.take(0) =~= Seq::<u8>::empty());
    while i < bytes.len()
        invariant
            digits@ == "0123456789abcdef"@,
            digits@.len() == 16,
            i <= bytes@.len(),
            out@ == hex(bytes@.take(i as int)),
        decreases bytes@.len() - i,
    {
        let b: u8 = bytes[i];
        out.push(digits[(b / 16) as usize]);
        out.push(digits[(b % 16) as usize]);
        i = i + 1;
        assert(bytes@.take(i as int).drop_last() == bytes@.take(i as int - 1));
        assert(bytes@.take(i as int).last() == b);
    }
    assert(bytes@.take(i as int) == bytes@);
    out
}

/// The bytes that are hashed for a request: its method, its name and the
/// canonical text of its arguments.
pub open spec fn hashed_bytes(request: RequestView) -> Seq<u8> {
    encode_utf8(request.method) + encode_utf8(request.name) + encode_utf8(
        canonical_text(request.arguments),
    )
}

/// The hash of a request, in hexadecimal.
pub open spec fn request_hash(request: RequestView) -> Seq<char> {
    hex(sha256(hashed_bytes(request)))
}

fn append_bytes(out: &mut Vec<u8>, bytes: &[u8])
    ensures
        final(out)@ == old(out)@ + bytes@,
{
    let mut i: usize = 0;
    assert(out@ =~= old(out)@ + bytes@.take(0));
    while i < bytes.len()
        invariant
            i <= bytes@.len(),
            out@ == old(out)@ + bytes@.take(i as int),
        decreases bytes@.len() - i,
    {
        out.push(bytes[i]);
        i = i + 1;
        assert(old(out)@ + bytes@.take(i as int) =~= (old(out)@ + bytes@.take(i as int - 1)).push(
            bytes@[i as int - 1],
        ));
    }
    assert(bytes@.take(i as int) == bytes@);
}

/// Computes the SHA-256 hash of a request for integrity checks: over the method,
/// the name and the arguments, not over the request ID. Fails where the
/// arguments are nested too deeply.
pub fn hash_request(request: &ToolCallRequest) -> (r: Result<String, String>)
    ensures
        match r {
            Ok(h) => {
                &&& !too_deep(request.arguments@, 0)
                &&& h@ == request_hash(request@)
                &&& h@.len() == 64
                &&& forall|i: int| 0 <= i < h@.len() ==> is_hex(#[trigger] h@[i])
            },
            Err(e) => too_deep(request.arguments@, 0) && e@ == depth_message(),
        },
{
    let arguments = match canonical_json(&request.arguments) {
        Ok(t) => t,
        Err(e) => {
            return Err(e);
        },
    };
    let mut message: Vec<u8> = Vec::new();
    append_bytes(&mut message, request.method.as_str().as_bytes());
    append_bytes(&mut message, request.name.as_str().as_bytes());
    append_bytes(&mut message, arguments.as_str().as_bytes());
    assert(message@ =~= hashed_bytes(request@));
    let bytes = digest(&message);
    proof {
        lemma_hex(bytes@);
    }
    Ok(to_hex(&bytes))
}

/// The poll interval for a remaining time to live: the nearer the end, the
/// shorter.
pub open spec fn poll_interval(remaining: Duration) -> Duration {
    let secs = remaining.secs();
    if secs <= 60 {
        Duration::of_secs(2)
    } else if secs <= 300 {
        Duration::of_secs(5)
    } else if secs <= 900 {
        Duration::of_secs(10)
    } else {
        Duration::of_secs(30)
    }
}

/// Computes the poll interval that agents are advised to keep.
pub fn compute_poll_interval(remaining_ttl: Duration) -> (r: Duration)
    ensures
        r == poll_interval(remaining_ttl),
{
    let secs: u64 = remaining_ttl.as_secs();
    if secs <= 60 {
        Duration::from_secs(2)
    } else if secs <= 300 {
        Duration::from_secs(5)
    } else if secs <= 900 {
        Duration::from_secs(10)
    } else {
        Duration::from_secs(30)
    }
}

/// The less time is left, the more often agents poll.
pub proof fn law_polling_quickens(a: Duration, b: Duration)
    requires
        a.nanos <= b.nanos,
    ensures
        poll_interval(a).nanos <= poll_interval(b).nanos,
{
    assert(a.nanos / NANOS_PER_SEC <= b.nanos / NANOS_PER_SEC) by (nonlinear_arith)
        requires
            a.nanos <= b.nanos,
            NANOS_PER_SEC == 1_000_000_000,
    ;
}

/// The hash does not depend on the request ID.
pub proof fn law_hash_ignores_request_id(a: RequestView, b: RequestView)
    requires
        a.method == b.method,
        a.name == b.name,
        a.arguments == b.arguments,
    ensures
        request_hash(a) == request_hash(b),
{
}

} // verus!
