//! Redaction of fields before tool arguments are shown to approvers.
//!
//! A field is named by its key, or by a path of keys with dots between them:
//! `password`, `credentials.api_key`.

use vstd::prelude::*;
use vstd::string::*;

use crate::json::{
    lemma_member_position, lemma_member_views, member_position, member_views, position_of, Json,
    JsonView,
};
use crate::text::{parts, split_text, texts};

verus! {

/// What stands in place of a redacted value.
pub open spec fn redaction() -> JsonView {
    JsonView::String("[REDACTED]"@)
}

/// A value with what stands at a path of keys redacted, if anything does.
pub open spec fn redacted_at(value: JsonView, path: Seq<Seq<char>>) -> JsonView
    decreases path.len(),
{
    match value {
        JsonView::Object(members) => {
            if path.len() == 0 {
                value
            } else {
                let n = member_position(members, path[0]);
                if n >= members.len() {
                    value
                } else if path.len() == 1 {
                    JsonView::Object(members.update(n as int, (path[0], redaction())))
                } else {
                    JsonView::Object(
                        members.update(
                            n as int,
                            (path[0], redacted_at(members[n as int].1, path.skip(1))),
                        ),
                    )
                }
            }
        },
        _ => value,
    }
}

/// A value with the first `n` of the named fields redacted.
pub open spec fn redacted(value: JsonView, fields: Seq<Seq<char>>, n: int) -> JsonView
    decreases n,
{
    if n <= 0 {
        value
    } else {
        redacted_at(redacted(value, fields, n - 1), parts(fields[n - 1], '.'))
    }
}

/// The paths of keys that a list of fields names.
pub open spec fn listed(fields: Seq<Seq<char>>) -> Set<Seq<Seq<char>>> {
    Set::new(|path: Seq<Seq<char>>| exists|i: int|
        0 <= i < fields.len() && path == #[trigger] parts(fields[i], '.'))
}

/// What stands at a path of keys.
pub open spec fn value_at(value: JsonView, path: Seq<Seq<char>>) -> Option<JsonView>
    decreases path.len(),
{
    if path.len() == 0 {
        Some(value)
    } else {
        match value.member(path[0]) {
            Some(v) => value_at(v, path.skip(1)),
            None => None,
        }
    }
}

/// Redact fields in a JSON value.
pub fn redact_fields(value: &Json, fields: &Vec<String>) -> (r: Json)
    ensures
        r@ == redacted(value@, texts(fields@), fields@.len() as int),
{
    let mut result = value.copy();
    let mut i: usize = 0;
    while i < fields.len()
        invariant
            i <= fields@.len(),
            result@ == redacted(value@, texts(fields@), i as int),
        decreases fields@.len() - i,
    {
        let path = split_text(fields[i].as_str(), '.');
        assert(texts(fields@)[i as int] == fields@[i as int]@);
        redact_path(&mut result, &path, 0);
        assert(texts(path@).skip(0) =~= texts(path@));
        i = i + 1;
    }
    result
}

/// Redacts what stands at the rest of a path.
fn redact_path(value: &mut Json, path: &Vec<String>, from: usize)
    requires
        from <= path@.len(),
    ensures
        final(value)@ == redacted_at(old(value)@, texts(path@).skip(from as int)),
    decreases path@.len() - from,
{
    if from == path.len() {
        return;
    }
    let ghost rest = texts(path@).skip(from as int);
    assert(rest[0] == path@[from as int]@);
    assert(rest.skip(1) =~= texts(path@).skip(from as int + 1));
    match value {
        Json::Object(members) => {
            let ghost before = members@;
            proof {
                lemma_member_views(before);
                lemma_member_position(member_views(before), rest[0]);
            }
            if let Some(i) = position_of(members, path[from].as_str()) {
                if from + 1 == path.len() {
                    members[i].1 = Json::String("[REDACTED]".to_owned());
                } else {
                    redact_path(&mut members[i].1, path, from + 1);
                }
                proof {
                    lemma_member_views(members@);
                    let ghost v = members@[i as int].1@;
                    assert(member_views(members@) =~= member_views(before).update(
                        i as int,
                        (rest[0], v),
                    ));
                }
            }
        },
        _ => {},
    }
}

} // verus!
