//! Lists of named values, in which the last value of a name counts.
use crate::text::same_text;
use vstd::prelude::*;

verus! {

/// The value that belongs to the last occurrence of `key` in `entries`, if it occurs.
pub open spec fn last_value<V>(entries: Seq<(Seq<char>, V)>, key: Seq<char>) -> Option<V>
    decreases entries.len(),
{
    if entries.len() == 0 {
        None
    } else if entries.last().0 == key {
        Some(entries.last().1)
    } else {
        last_value(entries.drop_last(), key)
    }
}

/// `entries` as a map: each key with the value of its last occurrence.
pub open spec fn entry_map<V>(entries: Seq<(Seq<char>, V)>) -> Map<Seq<char>, V> {
    Map::new(
        |key: Seq<char>| last_value(entries, key) is Some,
        |key: Seq<char>| last_value(entries, key)->0,
    )
}

/// What `map` holds under `key`, if it holds anything there.
pub open spec fn lookup<V>(map: Map<Seq<char>, V>, key: Seq<char>) -> Option<V> {
    if map.contains_key(key) {
        Some(map[key])
    } else {
        None
    }
}

/// No key occurs twice in `entries`.
pub open spec fn keys_differ<V>(entries: Seq<(Seq<char>, V)>) -> bool {
    forall|i: int, j: int|
        0 <= i < j < entries.len() ==> (#[trigger] entries[i]).0 != (#[trigger] entries[j]).0
}

/// `key` occurs at most once in `entries`.
pub open spec fn at_most_once<V>(entries: Seq<(Seq<char>, V)>, key: Seq<char>) -> bool {
    forall|i: int, j: int|
        0 <= i < entries.len() && 0 <= j < entries.len() && (#[trigger] entries[i]).0 == key && (
        #[trigger] entries[j]).0 == key ==> i == j
}

/// `at` is where `key` occurs last.
pub(crate) proof fn lemma_last_at<V>(entries: Seq<(Seq<char>, V)>, key: Seq<char>, at: int)
    requires
        0 <= at < entries.len(),
        entries[at].0 == key,
        forall|j: int| at < j < entries.len() ==> (#[trigger] entries[j]).0 != key,
    ensures
        last_value(entries, key) == Some(entries[at].1),
    decreases entries.len(),
{
    if at < entries.len() - 1 {
        assert(entries[entries.len() - 1].0 != key);
        lemma_last_at(entries.drop_last(), key, at);
    }
}

/// A key that occurs nowhere has no value.
pub(crate) proof fn lemma_no_value<V>(entries: Seq<(Seq<char>, V)>, key: Seq<char>)
    requires
        forall|j: int| 0 <= j < entries.len() ==> (#[trigger] entries[j]).0 != key,
    ensures
        last_value(entries, key) is None,
    decreases entries.len(),
{
    if entries.len() > 0 {
        assert(entries[entries.len() - 1].0 != key);
        lemma_no_value(entries.drop_last(), key);
    }
}

/// An entry under another key has no say in what `key` stands for.
pub(crate) proof fn lemma_other_key<V>(
    before: Seq<(Seq<char>, V)>,
    other: (Seq<char>, V),
    after: Seq<(Seq<char>, V)>,
    key: Seq<char>,
)
    requires
        other.0 != key,
    ensures
        last_value(before + seq![other] + after, key) == last_value(before + after, key),
    decreases after.len(),
{
    let with = before + seq![other] + after;
    let without = before + after;
    if after.len() == 0 {
        assert(with.drop_last() =~= without);
    } else {
        lemma_other_key(before, other, after.drop_last(), key);
        assert(with.drop_last() =~= before + seq![other] + after.drop_last());
        assert(without.drop_last() =~= before + after.drop_last());
    }
}

/// A value is always that of some occurrence.
proof fn lemma_value_occurs<V>(entries: Seq<(Seq<char>, V)>, key: Seq<char>)
    requires
        last_value(entries, key) is Some,
    ensures
        entries.contains((key, last_value(entries, key)->0)),
    decreases entries.len(),
{
    if entries.last().0 == key {
        assert(entries[entries.len() - 1] == (key, last_value(entries, key)->0));
    } else {
        lemma_value_occurs(entries.drop_last(), key);
        let at = choose|i: int|
            0 <= i < entries.drop_last().len() && entries.drop_last()[i] == (
                key,
                last_value(entries, key)->0,
            );
        assert(entries[at] == (key, last_value(entries, key)->0));
    }
}

/// A key that occurs somewhere has a value.
proof fn lemma_occurrence_counts<V>(entries: Seq<(Seq<char>, V)>, key: Seq<char>, at: int)
    requires
        0 <= at < entries.len(),
        entries[at].0 == key,
    ensures
        last_value(entries, key) is Some,
    decreases entries.len(),
{
    if entries.last().0 != key {
        lemma_occurrence_counts(entries.drop_last(), key, at);
    }
}

/// In whatever order the entries come, a key that occurs at most once has the same value.
pub proof fn lemma_order_is_free<V>(
    a: Seq<(Seq<char>, V)>,
    b: Seq<(Seq<char>, V)>,
    key: Seq<char>,
)
    requires
        at_most_once(a, key),
        a.to_multiset() == b.to_multiset(),
    ensures
        last_value(a, key) == last_value(b, key),
{
    if last_value(a, key) is Some {
        lemma_value_occurs(a, key);
        lemma_same_entries(a, b, (key, last_value(a, key)->0));
    }
    if last_value(b, key) is Some {
        lemma_value_occurs(b, key);
        lemma_same_entries(b, a, (key, last_value(b, key)->0));
        lemma_value_occurs(a, key);
        let i = choose|i: int| 0 <= i < a.len() && a[i] == (key, last_value(a, key)->0);
        let j = choose|j: int| 0 <= j < a.len() && a[j] == (key, last_value(b, key)->0);
        assert(a[i].0 == key && a[j].0 == key);
    }
}

/// An entry of `a` stands in any rearrangement of `a`, where its key then has a value.
proof fn lemma_same_entries<V>(
    a: Seq<(Seq<char>, V)>,
    b: Seq<(Seq<char>, V)>,
    entry: (Seq<char>, V),
)
    requires
        a.contains(entry),
        a.to_multiset() == b.to_multiset(),
    ensures
        b.contains(entry),
        last_value(b, entry.0) is Some,
{
    a.to_multiset_ensures();
    b.to_multiset_ensures();
    assert(a.to_multiset().count(entry) > 0);
    assert(b.contains(entry));
    let at = choose|i: int| 0 <= i < b.len() && b[i] == entry;
    lemma_occurrence_counts(b, entry.0, at);
}

/// What is done to every value is done to every value that counts.
proof fn lemma_mapped_value<V, W>(
    entries: Seq<(Seq<char>, V)>,
    mapped: Seq<(Seq<char>, W)>,
    f: spec_fn(V) -> W,
    key: Seq<char>,
)
    requires
        entries.len() == mapped.len(),
        forall|i: int|
            0 <= i < entries.len() ==> #[trigger] mapped[i] == (entries[i].0, f(entries[i].1)),
    ensures
        last_value(mapped, key) == match last_value(entries, key) {
            Some(value) => Some(f(value)),
            None => None,
        },
    decreases entries.len(),
{
    if entries.len() > 0 {
        assert(mapped[mapped.len() - 1] == (entries.last().0, f(entries.last().1)));
        lemma_mapped_value(entries.drop_last(), mapped.drop_last(), f, key);
    }
}

/// Mapping the values of a list and then taking the map is taking the map and then mapping its
/// values.
pub(crate) proof fn lemma_mapped_entries<V, W>(
    entries: Seq<(Seq<char>, V)>,
    mapped: Seq<(Seq<char>, W)>,
    f: spec_fn(V) -> W,
)
    requires
        entries.len() == mapped.len(),
        forall|i: int|
            0 <= i < entries.len() ==> #[trigger] mapped[i] == (entries[i].0, f(entries[i].1)),
    ensures
        entry_map(mapped) == entry_map(entries).map_values(f),
{
    assert forall|key: Seq<char>| last_value(mapped, key) == match last_value(entries, key) {
        Some(value) => Some(f(value)),
        None => None,
    } by {
        lemma_mapped_value(entries, mapped, f, key);
    }
    assert(entry_map(mapped) =~= entry_map(entries).map_values(f));
}

/// Finds the last entry under `key`.
pub fn find_last<V>(entries: &Vec<(String, V)>, key: &str) -> (at: Option<usize>)
    ensures
        match at {
            Some(i) => {
                &&& i < entries@.len()
                &&& entries@[i as int].0@ == key@
                &&& forall|j: int| i < j < entries@.len() ==> (#[trigger] entries@[j]).0@ != key@
            },
            None => forall|j: int| 0 <= j < entries@.len() ==> (#[trigger] entries@[j]).0@ != key@,
        },
{
    let mut i: usize = entries.len();
    while i > 0
        invariant
            i <= entries@.len(),
            forall|j: int| i <= j < entries@.len() ==> (#[trigger] entries@[j]).0@ != key@,
        decreases i,
    {
        i = i - 1;
        if same_text(entries[i].0.as_str(), key) {
            return Some(i);
        }
    }
    None
}

/// In the map of a list, a key stands for the value of its last entry.
pub proof fn lemma_last_entry_counts<V>(entries: Seq<(Seq<char>, V)>, key: Seq<char>, at: int)
    requires
        0 <= at < entries.len(),
        entries[at].0 == key,
        forall|j: int| at < j < entries.len() ==> (#[trigger] entries[j]).0 != key,
    ensures
        entry_map(entries).contains_key(key),
        entry_map(entries)[key] == entries[at].1,
{
    lemma_last_at(entries, key, at);
}

/// In the map of a list, a key without an entry stands for nothing.
pub proof fn lemma_no_entry<V>(entries: Seq<(Seq<char>, V)>, key: Seq<char>)
    requires
        forall|j: int| 0 <= j < entries.len() ==> (#[trigger] entries[j]).0 != key,
    ensures
        !entry_map(entries).contains_key(key),
{
    lemma_no_value(entries, key);
}

} // verus!
