//! A small map keyed by text that keeps its entries in the order in which the
//! keys first came in.

use vstd::prelude::*;

use crate::text::same_text;

verus! {

/// A map from texts to values. No key occurs twice.
#[derive(Debug)]
pub struct TextMap<V> {
    pub(crate) entries: Vec<(String, V)>,
}

/// The key and the value of each entry, in order.
pub open spec fn keyed<V>(entries: Seq<(String, V)>) -> Seq<(Seq<char>, V)> {
    Seq::new(entries.len(), |i: int| (entries[i].0@, entries[i].1))
}

/// Whether no key occurs twice.
pub open spec fn distinct_keys<V>(items: Seq<(Seq<char>, V)>) -> bool {
    forall|i: int, j: int|
        0 <= i < j < items.len() ==> (#[trigger] items[i]).0 != (#[trigger] items[j]).0
}

/// Whether `key` is the key of some item.
pub open spec fn has_key<V>(items: Seq<(Seq<char>, V)>, key: Seq<char>) -> bool {
    exists|i: int| 0 <= i < items.len() && (#[trigger] items[i]).0 == key
}

/// The map that a sequence of items with distinct keys stands for.
pub open spec fn map_of<V>(items: Seq<(Seq<char>, V)>) -> Map<Seq<char>, V> {
    Map::new(
        |key: Seq<char>| has_key(items, key),
        |key: Seq<char>|
            items[choose|i: int| 0 <= i < items.len() && (#[trigger] items[i]).0 == key].1,
    )
}

impl<V> TextMap<V> {
    #[verifier::type_invariant]
    spec fn well_formed(self) -> bool {
        distinct_keys(keyed(self.entries@))
    }

    /// The entries, in the order in which their keys first came in.
    pub closed spec fn items(self) -> Seq<(Seq<char>, V)> {
        keyed(self.entries@)
    }

    /// The mapping.
    pub open spec fn view(self) -> Map<Seq<char>, V> {
        map_of(self.items())
    }

    /// A map with no entry.
    pub fn new() -> (r: Self)
        ensures
            r.items() == Seq::<(Seq<char>, V)>::empty(),
            r@ == Map::<Seq<char>, V>::empty(),
    {
        let r = TextMap { entries: Vec::new() };
        assert(r.items() == Seq::<(Seq<char>, V)>::empty());
        assert(r@ == Map::<Seq<char>, V>::empty());
        r
    }

    /// The number of entries.
    pub fn len(&self) -> (r: usize)
        ensures
            r == self.items().len(),
            distinct_keys(self.items()),
    {
        proof {
            use_type_invariant(self);
        }
        self.entries.len()
    }

    /// The key of the entry at a position.
    pub fn key_at(&self, i: usize) -> (r: &String)
        requires
            i < self.items().len(),
        ensures
            r@ == self.items()[i as int].0,
    {
        &self.entries[i].0
    }

    /// The value of the entry at a position.
    pub fn value_at(&self, i: usize) -> (r: &V)
        requires
            i < self.items().len(),
        ensures
            *r == self.items()[i as int].1,
    {
        &self.entries[i].1
    }

    /// The position of a key.
    fn position(&self, key: &str) -> (r: Option<usize>)
        ensures
            match r {
                Some(i) => i < self.entries@.len() && self.entries@[i as int].0@ == key@,
                None => !has_key(self.items(), key@),
            },
    {
        let mut i: usize = 0;
        while i < self.entries.len()
            invariant
                i <= self.entries@.len(),
                forall|j: int| 0 <= j < i ==> (#[trigger] self.items()[j]).0 != key@,
            decreases self.entries@.len() - i,
        {
            if same_text(self.entries[i].0.as_str(), key) {
                return Some(i);
            }
            i = i + 1;
        }
        None
    }

    /// The value of a key.
    pub fn get(&self, key: &str) -> (r: Option<&V>)
        ensures
            match r {
                Some(v) => self@.contains_key(key@) && *v == self@[key@],
                None => !self@.contains_key(key@),
            },
    {
        proof {
            use_type_invariant(self);
        }
        match self.position(key) {
            Some(i) => {
                assert(self.items()[i as int].0 == key@);
                Some(&self.entries[i].1)
            },
            None => None,
        }
    }

    /// Whether a key has a value.
    pub fn contains_key(&self, key: &str) -> (r: bool)
        ensures
            r == self@.contains_key(key@),
    {
        self.get(key).is_some()
    }

    /// Gives a key a value, in place of the one it had.
    pub fn insert(&mut self, key: String, value: V)
        ensures
            final(self)@ == old(self)@.insert(key@, value),
    {
        proof {
            use_type_invariant(&*self);
        }
        let ghost before = self.items();
        let found = self.position(key.as_str());
        let mut entries: Vec<(String, V)> = Vec::new();
        std::mem::swap(&mut entries, &mut self.entries);
        let ghost k = key@;
        match found {
            Some(i) => {
                entries.set(i, (key, value));
                proof {
                    let after = keyed(entries@);
                    assert(after == before.update(i as int, (k, value)));
                    assert(before[i as int].0 == k);
                    assert(distinct_keys(after));
                    assert forall|q: Seq<char>| has_key(after, q) == has_key(before, q) by {
                        if has_key(after, q) {
                            let j = choose|j: int| 0 <= j < after.len() && (#[trigger] after[j]).0 == q;
                            assert(before[j].0 == q);
                        }
                        if has_key(before, q) {
                            let j = choose|j: int|
                                0 <= j < before.len() && (#[trigger] before[j]).0 == q;
                            assert(after[j].0 == q);
                        }
                    }
                    assert(map_of(after) =~= map_of(before).insert(k, value));
                }
            },
            None => {
                entries.push((key, value));
                proof {
                    let after = keyed(entries@);
                    assert(after == before.push((k, value)));
                    assert(after[before.len() as int].0 == k);
                    assert forall|i: int, j: int| 0 <= i < j < after.len() implies (
                    #[trigger] after[i]).0 != (#[trigger] after[j]).0 by {
                        if j < before.len() {
                            assert(before[i].0 != before[j].0);
                        } else {
                            assert(before[i].0 != k);
                        }
                    }
                    assert forall|q: Seq<char>|
                        has_key(after, q) == (q == k || has_key(before, q)) by {
                        if has_key(after, q) {
                            let j = choose|j: int| 0 <= j < after.len() && (#[trigger] after[j]).0 == q;
                            if j < before.len() {
                                assert(before[j].0 == q);
                            }
                        }
                        if has_key(before, q) {
                            let j = choose|j: int|
                                0 <= j < before.len() && (#[trigger] before[j]).0 == q;
                            assert(after[j].0 == q);
                        }
                    }
                    assert forall|q: Seq<char>| #[trigger] has_key(before, q) implies map_of(after)[q]
                        == map_of(before)[q] by {
                        let j = choose|j: int| 0 <= j < before.len() && (#[trigger] before[j]).0 == q;
                        assert(after[j] == before[j]);
                    }
                    assert(map_of(after) =~= map_of(before).insert(k, value));
                }
            },
        }
        self.entries = entries;
    }
}

/// The mapping of items with distinct keys maps each key to its value; it has as
/// many keys as there are items.
pub proof fn lemma_map_of<V>(items: Seq<(Seq<char>, V)>)
    requires
        distinct_keys(items),
    ensures
        map_of(items).dom().finite(),
        map_of(items).dom().len() == items.len(),
        forall|j: int|
            0 <= j < items.len() ==> map_of(items).contains_key((#[trigger] items[j]).0)
                && map_of(items)[items[j].0] == items[j].1,
    decreases items.len(),
{
    assert forall|j: int| 0 <= j < items.len() implies map_of(items).contains_key(
        (#[trigger] items[j]).0,
    ) && map_of(items)[items[j].0] == items[j].1 by {
        assert(has_key(items, items[j].0));
    }
    if items.len() == 0 {
        assert(map_of(items).dom() =~= Set::<Seq<char>>::empty());
    } else {
        let rest = items.drop_last();
        lemma_map_of(rest);
        let key = items.last().0;
        assert forall|q: Seq<char>| has_key(items, q) <==> has_key(rest, q) || q == key by {
            if has_key(items, q) {
                let j = choose|j: int| 0 <= j < items.len() && (#[trigger] items[j]).0 == q;
                if j < rest.len() {
                    assert(rest[j].0 == q);
                }
            }
            if has_key(rest, q) {
                let j = choose|j: int| 0 <= j < rest.len() && (#[trigger] rest[j]).0 == q;
                assert(items[j].0 == q);
            }
            assert(items[items.len() - 1].0 == key);
        }
        assert(!has_key(rest, key)) by {
            if has_key(rest, key) {
                let j = choose|j: int| 0 <= j < rest.len() && (#[trigger] rest[j]).0 == key;
                assert(items[j].0 != items[items.len() - 1].0);
            }
        }
        assert(map_of(items).dom() =~= map_of(rest).dom().insert(key));
    }
}

impl<V: Clone> Clone for TextMap<V> {
    fn clone(&self) -> (r: Self)
        ensures
            r.items().len() == self.items().len(),
            forall|i: int|
                0 <= i < r.items().len() ==> (#[trigger] r.items()[i]).0 == self.items()[i].0
                    && cloned(self.items()[i].1, r.items()[i].1),
    {
        proof {
            use_type_invariant(self);
        }
        let mut entries: Vec<(String, V)> = Vec::new();
        let mut i: usize = 0;
        while i < self.entries.len()
            invariant
                i <= self.entries@.len(),
                entries@.len() == i,
                forall|j: int|
                    0 <= j < i ==> (#[trigger] entries@[j]).0@ == self.entries@[j].0@ && cloned(
                        self.entries@[j].1,
                        entries@[j].1,
                    ),
            decreases self.entries@.len() - i,
        {
            let value = self.entries[i].1.clone();
            entries.push((self.entries[i].0.clone(), value));
            i = i + 1;
        }
        assert forall|a: int, b: int| 0 <= a < b < entries@.len() implies (#[trigger] keyed(
            entries@,
        )[a]).0 != (#[trigger] keyed(entries@)[b]).0 by {
            assert(keyed(self.entries@)[a].0 != keyed(self.entries@)[b].0);
            assert(entries@[a].0@ == self.entries@[a].0@);
            assert(entries@[b].0@ == self.entries@[b].0@);
        }
        TextMap { entries }
    }
}

} // verus!
