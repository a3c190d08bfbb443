//! Lists of tools, resources and prompts, as an agent may see them.
//!
//! What cannot be judged is hidden: an entry without a name, and every entry of a
//! source that is not configured.

use vstd::prelude::*;
use vstd::string::*;

use crate::config::compile::source_position;
use crate::config::schema::{Action, Config};
use crate::governance::evaluator::{text_member, text_of_member, visible};
use crate::json::{
    item_views, lemma_item_views, lemma_member_views, lemma_position_is, lemma_set_member, member_views,
    put_member,
    set_member, Json, JsonView,
};

verus! {

/// Whether an entry of a list may be shown: it has a name, which its source
/// exposes.
pub open spec fn entry_visible(
    config: Config,
    source_id: Seq<char>,
    key_field: Seq<char>,
    entry: JsonView,
) -> bool {
    match text_member(entry, key_field) {
        Some(name) => visible(config, source_id, name),
        None => false,
    }
}

/// The entries of a list that may be shown, in order.
pub open spec fn shown(
    entries: Seq<JsonView>,
    config: Config,
    source_id: Seq<char>,
    key_field: Seq<char>,
) -> Seq<JsonView> {
    entries.filter(|e: JsonView| entry_visible(config, source_id, key_field, e))
}

/// What is noted on a tool that must be called as a task.
pub open spec fn task_required() -> JsonView {
    JsonView::Object(seq![("taskSupport"@, JsonView::String("required"@))])
}

/// A tool with the note that it must be called as a task, if its rule asks for a
/// policy or an approval.
pub open spec fn annotated(tool: JsonView, config: Config, source_id: Seq<char>) -> JsonView {
    match (tool, text_member(tool, "name"@)) {
        (JsonView::Object(members), Some(name)) => {
            let action = config.governance.decides(name, source_id).action;
            if action is Approve || action is Policy {
                JsonView::Object(set_member(members, "execution"@, task_required()))
            } else {
                tool
            }
        },
        _ => tool,
    }
}

/// Tools with their notes.
pub open spec fn all_annotated(tools: Seq<JsonView>, config: Config, source_id: Seq<char>) -> Seq<
    JsonView,
> {
    Seq::new(tools.len(), |i: int| annotated(tools[i], config, source_id))
}

/// Keeps the entries that may be shown and returns how many went.
fn filter_by_visibility(
    items: &mut Vec<Json>,
    config: &Config,
    source_id: &str,
    key_field: &str,
) -> (r: usize)
    ensures
        item_views(final(items)@) == shown(
            item_views(old(items)@),
            *config,
            source_id@,
            key_field@,
        ),
        r == old(items)@.len() - final(items)@.len(),
{
    let ghost all = item_views(items@);
    let ghost pred = |e: JsonView| entry_visible(*config, source_id@, key_field@, e);
    let before: usize = items.len();
    let source = config.get_source(source_id);
    let mut i: usize = 0;
    let ghost mut seen: int = 0;
    proof {
        lemma_item_views(items@);
        reveal(Seq::filter);
        assert(all.skip(0) =~= all);
        assert(all.take(0) =~= Seq::<JsonView>::empty());
        assert(item_views(items@).take(0) =~= all.take(0).filter(pred));
    }
    while i < items.len()
        invariant
            i <= items@.len() <= before,
            0 <= seen <= all.len(),
            all.len() == before,
            pred == (|e: JsonView| entry_visible(*config, source_id@, key_field@, e)),
            item_views(items@).take(i as int) == all.take(seen).filter(pred),
            item_views(items@).skip(i as int) == all.skip(seen),
            items@.len() - i == all.len() - seen,
            match source {
                Some(s) => {
                    let n = source_position(config.sources@, source_id@);
                    n < config.sources@.len() && config.sources@[n as int] == *s
                },
                None => source_position(config.sources@, source_id@)
                    == config.sources@.len(),
            },
        decreases items@.len() - i,
    {
        let ghost now = items@;
        proof {
            lemma_item_views(now);
            reveal(Seq::filter);
            assert(item_views(now).skip(i as int)[0] == all.skip(seen)[0]);
            assert(all.take(seen + 1).drop_last() =~= all.take(seen));
            assert(all.take(seen + 1).last() == now[i as int]@);
        }
        let keep = match source {
            Some(s) => match text_of_member(&items[i], key_field) {
                Some(name) => s.expose().is_visible(name.as_str()),
                None => false,
            },
            None => false,
        };
        assert(keep == pred(now[i as int]@));
        if keep {
            i = i + 1;
            proof {
                assert(item_views(now).take(i as int) =~= item_views(now).take(i - 1).push(
                    now[i - 1]@,
                ));
                assert(item_views(now).skip(i as int) =~= item_views(now).skip(i - 1).skip(1));
                assert(all.skip(seen + 1) =~= all.skip(seen).skip(1));
            }
        } else {
            items.remove(i);
            proof {
                lemma_item_views(items@);
                assert(item_views(items@).take(i as int) =~= item_views(now).take(i as int));
                assert(item_views(items@).skip(i as int) =~= item_views(now).skip(i as int).skip(
                    1,
                ));
                assert(all.skip(seen + 1) =~= all.skip(seen).skip(1));
            }
        }
        proof {
            seen = seen + 1;
        }
    }
    proof {
        lemma_item_views(items@);
        assert(all.take(seen) =~= all);
        assert(item_views(items@).take(i as int) =~= item_views(items@));
    }
    before - items.len()
}

fn make_task_required() -> (r: Json)
    ensures
        r@ == task_required(),
{
    let mut members: Vec<(String, Json)> = Vec::new();
    members.push(("taskSupport".to_owned(), Json::String("required".to_owned())));
    proof {
        lemma_member_views(members@);
        assert(member_views(members@) =~= seq![("taskSupport"@, JsonView::String("required"@))]);
    }
    Json::Object(members)
}

fn annotate(tool: Json, config: &Config, source_id: &str) -> (r: Json)
    ensures
        r@ == annotated(tool@, *config, source_id@),
{
    let name = match text_of_member(&tool, "name") {
        Some(name) => name,
        None => {
            return tool;
        },
    };
    let matched = config.governance.evaluate(name.as_str(), source_id);
    match matched.action {
        Action::Approve | Action::Policy => match tool {
            Json::Object(members) => {
                let mut members = members;
                put_member(&mut members, "execution", make_task_required());
                Json::Object(members)
            },
            other => other,
        },
        Action::Forward | Action::Deny => tool,
    }
}

/// Keeps the tools that may be shown, and notes on those whose rule asks for a
/// policy or an approval that they must be called as tasks. Returns how many
/// tools were hidden.
pub fn filter_and_annotate_tools(tools: &mut Vec<Json>, config: &Config, source_id: &str) -> (r:
    usize)
    ensures
        item_views(final(tools)@) == all_annotated(
            shown(item_views(old(tools)@), *config, source_id@, "name"@),
            *config,
            source_id@,
        ),
        r == old(tools)@.len() - final(tools)@.len(),
{
    let removed = filter_by_visibility(tools, config, source_id, "name");
    let ghost kept = item_views(tools@);
    let ghost count = tools@.len();
    proof {
        lemma_item_views(tools@);
    }
    let mut i: usize = 0;
    while i < tools.len()
        invariant
            i <= tools@.len(),
            tools@.len() == count,
            kept.len() == count,
            forall|j: int|
                0 <= j < i ==> (#[trigger] tools@[j])@ == annotated(
                    kept[j],
                    *config,
                    source_id@,
                ),
            forall|j: int| i <= j < count ==> (#[trigger] tools@[j])@ == kept[j],
        decreases count - i,
    {
        let mut tool = Json::Null;
        tools.set_and_swap(i, &mut tool);
        let noted = annotate(tool, config, source_id);
        tools.set(i, noted);
        i = i + 1;
    }
    proof {
        lemma_item_views(tools@);
        assert(item_views(tools@) =~= all_annotated(kept, *config, source_id@));
    }
    removed
}

/// Keeps the resources whose URI may be shown. Returns how many were hidden.
pub fn filter_resources_by_visibility(
    resources: &mut Vec<Json>,
    config: &Config,
    source_id: &str,
) -> (r: usize)
    ensures
        item_views(final(resources)@) == shown(
            item_views(old(resources)@),
            *config,
            source_id@,
            "uri"@,
        ),
        r == old(resources)@.len() - final(resources)@.len(),
{
    filter_by_visibility(resources, config, source_id, "uri")
}

/// Keeps the prompts whose name may be shown. Returns how many were hidden.
pub fn filter_prompts_by_visibility(
    prompts: &mut Vec<Json>,
    config: &Config,
    source_id: &str,
) -> (r: usize)
    ensures
        item_views(final(prompts)@) == shown(
            item_views(old(prompts)@),
            *config,
            source_id@,
            "name"@,
        ),
        r == old(prompts)@.len() - final(prompts)@.len(),
{
    filter_by_visibility(prompts, config, source_id, "name")
}

/// A list shows an entry exactly if it holds it and gate 1 lets its name pass, so
/// that what is listed can be called and what is hidden cannot.
pub proof fn law_listed_exactly_if_visible(
    entries: Seq<JsonView>,
    config: Config,
    source_id: Seq<char>,
    key_field: Seq<char>,
    entry: JsonView,
)
    ensures
        shown(entries, config, source_id, key_field).contains(entry) <==> entries.contains(entry)
            && match text_member(entry, key_field) {
            Some(name) => visible(config, source_id, name),
            None => false,
        },
    decreases entries.len(),
{
    reveal(Seq::filter);
    let pred = |e: JsonView| entry_visible(config, source_id, key_field, e);
    if entries.len() > 0 {
        let rest = entries.drop_last();
        law_listed_exactly_if_visible(rest, config, source_id, key_field, entry);
        assert(entries.contains(entry) <==> rest.contains(entry) || entries.last() == entry) by {
            if rest.contains(entry) {
                let i = choose|i: int| 0 <= i < rest.len() && rest[i] == entry;
                assert(entries[i] == entry);
            }
            if entries.contains(entry) {
                let i = choose|i: int| 0 <= i < entries.len() && entries[i] == entry;
                if i < rest.len() {
                    assert(rest[i] == entry);
                }
            }
            assert(entries[entries.len() - 1] == entries.last());
        }
        let part = rest.filter(pred);
        let whole = entries.filter(pred);
        if pred(entries.last()) {
            assert(whole == part.push(entries.last()));
            assert(whole.contains(entry) <==> part.contains(entry) || entries.last() == entry) by {
                if part.contains(entry) {
                    let i = choose|i: int| 0 <= i < part.len() && part[i] == entry;
                    assert(whole[i] == entry);
                }
                if whole.contains(entry) {
                    let i = choose|i: int| 0 <= i < whole.len() && whole[i] == entry;
                    if i < part.len() {
                        assert(part[i] == entry);
                    }
                }
                assert(whole[part.len() as int] == entries.last());
            }
        } else {
            assert(whole == part);
        }
    }
}

/// A list of a source that is not configured shows nothing.
pub proof fn law_unknown_source_shows_nothing(
    entries: Seq<JsonView>,
    config: Config,
    source_id: Seq<char>,
    key_field: Seq<char>,
)
    requires
        source_position(config.sources@, source_id) == config.sources@.len(),
    ensures
        shown(entries, config, source_id, key_field) == Seq::<JsonView>::empty(),
    decreases entries.len(),
{
    reveal(Seq::filter);
    if entries.len() > 0 {
        law_unknown_source_shows_nothing(entries.drop_last(), config, source_id, key_field);
    }
    assert(shown(entries, config, source_id, key_field) =~= Seq::<JsonView>::empty());
}

/// A note changes nothing but the member `execution`, so that a tool keeps its
/// name; and a tool is marked as a task exactly if its rule asks for a policy or
/// an approval, or it was so marked upstream.
pub proof fn law_note_marks_tasks_only(
    tool: JsonView,
    config: Config,
    source_id: Seq<char>,
    other: Seq<char>,
)
    requires
        text_member(tool, "name"@) is Some,
        other != "execution"@,
    ensures
        ({
            let noted = annotated(tool, config, source_id);
            let action = config.governance.decides(
                text_member(tool, "name"@)->0,
                source_id,
            ).action;
            &&& noted.member(other) == tool.member(other)
            &&& noted.member("execution"@) == if action is Approve || action is Policy {
                Some(task_required())
            } else {
                tool.member("execution"@)
            }
            &&& action is Approve || action is Policy ==> noted.member("execution"@)->0.member(
                "taskSupport"@,
            ) == Some(JsonView::String("required"@))
        }),
{
    lemma_position_is(task_required()->Object_0, "taskSupport"@, 0);
    match tool {
        JsonView::Object(members) => {
            lemma_set_member(members, "execution"@, task_required(), other);
        },
        _ => {},
    }
}

/// The entries of two lists, one behind the other, are shown one behind the other:
/// nothing is moved, and nothing is shown twice that is listed once.
pub proof fn law_shown_entries_keep_their_order(
    first: Seq<JsonView>,
    second: Seq<JsonView>,
    config: Config,
    source_id: Seq<char>,
    key_field: Seq<char>,
    entry: JsonView,
)
    ensures
        shown(first + second, config, source_id, key_field) == shown(
            first,
            config,
            source_id,
            key_field,
        ) + shown(second, config, source_id, key_field),
        shown(seq![entry], config, source_id, key_field) == if entry.member(key_field) is Some
            && entry.member(key_field)->0 is String && visible(
            config,
            source_id,
            entry.member(key_field)->0->String_0,
        ) {
            seq![entry]
        } else {
            Seq::empty()
        },
    decreases second.len(),
{
    reveal(Seq::filter);
    let pred = |e: JsonView| entry_visible(config, source_id, key_field, e);
    let one = seq![entry];
    assert(one.drop_last() =~= Seq::<JsonView>::empty());
    assert(one.drop_last().filter(pred) =~= Seq::<JsonView>::empty());
    assert(shown(one, config, source_id, key_field) =~= if pred(entry) {
        seq![entry]
    } else {
        Seq::empty()
    });
    if second.len() == 0 {
        assert(first + second =~= first);
        assert(second.filter(pred) =~= Seq::<JsonView>::empty());
        assert(first.filter(pred) + second.filter(pred) =~= first.filter(pred));
    } else {
        let rest = second.drop_last();
        law_shown_entries_keep_their_order(first, rest, config, source_id, key_field, entry);
        assert((first + second).drop_last() =~= first + rest);
        assert((first + second).last() == second.last());
        if pred(second.last()) {
            assert((first.filter(pred) + rest.filter(pred)).push(second.last()) =~= first.filter(
                pred,
            ) + rest.filter(pred).push(second.last()));
        }
    }
}

/// Noting changes no list but its tools, each by itself.
pub proof fn law_notes_keep_the_list(
    tools: Seq<JsonView>,
    config: Config,
    source_id: Seq<char>,
    i: int,
)
    ensures
        all_annotated(tools, config, source_id).len() == tools.len(),
        0 <= i < tools.len() ==> all_annotated(tools, config, source_id)[i] == annotated(
            tools[i],
            config,
            source_id,
        ),
{
}

} // verus!
