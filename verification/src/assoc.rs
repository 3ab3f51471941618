//! Keyed sequences: entries in order, each a text key and a value, where the
//! first entry with a key is the one that counts.

use vstd::prelude::*;
use crate::text::same_text;

verus! {

/// Entry `i` has the key, and no entry before it has.
pub open spec fn is_first_at<V>(entries: Seq<(Seq<char>, V)>, key: Seq<char>, i: int) -> bool {
    &&& 0 <= i < entries.len()
    &&& entries[i].0 == key
    &&& forall|j: int| 0 <= j < i ==> entries[j].0 != key
}

/// Some entry has the key.
pub open spec fn has_key<V>(entries: Seq<(Seq<char>, V)>, key: Seq<char>) -> bool {
    exists|i: int| 0 <= i < entries.len() && #[trigger] entries[i].0 == key
}

/// The position of the first entry with the key.
pub open spec fn first_index<V>(entries: Seq<(Seq<char>, V)>, key: Seq<char>) -> int {
    choose|i: int| is_first_at(entries, key, i)
}

/// The value of the first entry with the key.
pub open spec fn lookup<V>(entries: Seq<(Seq<char>, V)>, key: Seq<char>) -> Option<V> {
    if has_key(entries, key) {
        Some(entries[first_index(entries, key)].1)
    } else {
        None
    }
}

/// The entries with `value` under `key`: in the place of the first entry with
/// that key, or at the end where there is none.
pub open spec fn upsert<V>(entries: Seq<(Seq<char>, V)>, key: Seq<char>, value: V) -> Seq<
    (Seq<char>, V),
> {
    if has_key(entries, key) {
        entries.update(first_index(entries, key), (key, value))
    } else {
        entries.push((key, value))
    }
}

/// The entries without the first one that has the key.
pub open spec fn without<V>(entries: Seq<(Seq<char>, V)>, key: Seq<char>) -> Seq<(Seq<char>, V)> {
    if has_key(entries, key) {
        entries.remove(first_index(entries, key))
    } else {
        entries
    }
}

/// No two entries share a key.
pub open spec fn unique_keys<V>(entries: Seq<(Seq<char>, V)>) -> bool {
    forall|i: int, j: int|
        0 <= i < j < entries.len() ==> #[trigger] entries[i].0 != #[trigger] entries[j].0
}

/// The entries as a map from key to value.
pub open spec fn as_map<V>(entries: Seq<(Seq<char>, V)>) -> Map<Seq<char>, V> {
    Map::new(|key: Seq<char>| has_key(entries, key), |key: Seq<char>| lookup(entries, key)->0)
}

/// A key that occurs has a first occurrence.
pub proof fn lemma_first_exists<V>(entries: Seq<(Seq<char>, V)>, key: Seq<char>)
    requires
        has_key(entries, key),
    ensures
        is_first_at(entries, key, first_index(entries, key)),
{
    let some = choose|i: int| 0 <= i < entries.len() && #[trigger] entries[i].0 == key;
    lemma_first_before(entries, key, some);
}

proof fn lemma_first_before<V>(entries: Seq<(Seq<char>, V)>, key: Seq<char>, at: int)
    requires
        0 <= at < entries.len(),
        entries[at].0 == key,
    ensures
        exists|i: int| is_first_at(entries, key, i),
    decreases at,
{
    if exists|j: int| 0 <= j < at && #[trigger] entries[j].0 == key {
        let j = choose|j: int| 0 <= j < at && #[trigger] entries[j].0 == key;
        lemma_first_before(entries, key, j);
    } else {
        assert(is_first_at(entries, key, at));
    }
}

/// The first occurrence of a key is where `first_index` points.
pub proof fn lemma_first_is<V>(entries: Seq<(Seq<char>, V)>, key: Seq<char>, i: int)
    requires
        is_first_at(entries, key, i),
    ensures
        has_key(entries, key),
        first_index(entries, key) == i,
{
    let f = first_index(entries, key);
    assert(is_first_at(entries, key, f));
    if f < i {
        assert(entries[f].0 != key);
    } else if i < f {
        assert(entries[i].0 != key);
    }
}

/// What `lookup` finds after `upsert`: the new value under the key, and under
/// every other key what was there before.
pub proof fn lemma_lookup_upsert<V>(
    entries: Seq<(Seq<char>, V)>,
    key: Seq<char>,
    value: V,
    other: Seq<char>,
)
    ensures
        lookup(upsert(entries, key, value), other) == if other == key {
            Some(value)
        } else {
            lookup(entries, other)
        },
{
    let after = upsert(entries, key, value);
    let place = if has_key(entries, key) {
        first_index(entries, key)
    } else {
        entries.len() as int
    };
    if has_key(entries, key) {
        lemma_first_exists(entries, key);
    }
    assert(forall|i: int| 0 <= i < entries.len() ==> after[i].0 == entries[i].0);
    if other == key {
        assert(is_first_at(after, key, place));
        lemma_first_is(after, key, place);
    } else if has_key(entries, other) {
        lemma_first_exists(entries, other);
        let at = first_index(entries, other);
        assert(is_first_at(after, other, at));
        lemma_first_is(after, other, at);
    } else {
        assert forall|i: int| 0 <= i < after.len() implies #[trigger] after[i].0 != other by {
            if i < entries.len() {
                assert(entries[i].0 != other);
            }
        }
    }
}

/// What `lookup` finds after `without`, where no two entries share a key:
/// nothing under the key, and under every other key what was there before.
pub proof fn lemma_lookup_without<V>(entries: Seq<(Seq<char>, V)>, key: Seq<char>, other: Seq<char>)
    requires
        unique_keys(entries),
    ensures
        lookup(without(entries, key), other) == if other == key {
            None
        } else {
            lookup(entries, other)
        },
{
    let after = without(entries, key);
    if has_key(entries, key) {
        lemma_first_exists(entries, key);
        let gone = first_index(entries, key);
        assert(forall|i: int| 0 <= i < gone ==> after[i] == entries[i]);
        assert(forall|i: int| gone <= i < after.len() ==> after[i] == entries[i + 1]);
        if other == key {
            assert forall|i: int| 0 <= i < after.len() implies #[trigger] after[i].0 != key by {
                if i < gone {
                    assert(entries[i].0 != entries[gone].0);
                } else {
                    assert(entries[gone].0 != entries[i + 1].0);
                }
            }
        } else if has_key(entries, other) {
            lemma_first_exists(entries, other);
            let at = first_index(entries, other);
            let moved = if at < gone {
                at
            } else {
                at - 1
            };
            assert(after[moved] == entries[at]);
            assert forall|j: int| 0 <= j < moved implies after[j].0 != other by {
                if j < gone {
                    assert(after[j] == entries[j]);
                } else {
                    assert(after[j] == entries[j + 1]);
                }
            }
            assert(is_first_at(after, other, moved));
            lemma_first_is(after, other, moved);
        } else {
            assert forall|i: int| 0 <= i < after.len() implies #[trigger] after[i].0 != other by {
                if i < gone {
                    assert(entries[i].0 != other);
                } else {
                    assert(entries[i + 1].0 != other);
                }
            }
        }
    }
}

/// `upsert` keeps the keys distinct.
pub proof fn lemma_upsert_unique<V>(entries: Seq<(Seq<char>, V)>, key: Seq<char>, value: V)
    requires
        unique_keys(entries),
    ensures
        unique_keys(upsert(entries, key, value)),
{
    let after = upsert(entries, key, value);
    if has_key(entries, key) {
        lemma_first_exists(entries, key);
    }
    assert forall|i: int, j: int| 0 <= i < j < after.len() implies #[trigger] after[i].0
        != #[trigger] after[j].0 by {
        if j < entries.len() {
            assert(entries[i].0 != entries[j].0);
        } else {
            assert(entries[i].0 != key);
        }
    }
}

/// `without` keeps the keys distinct.
pub proof fn lemma_without_unique<V>(entries: Seq<(Seq<char>, V)>, key: Seq<char>)
    requires
        unique_keys(entries),
    ensures
        unique_keys(without(entries, key)),
{
    let after = without(entries, key);
    if has_key(entries, key) {
        lemma_first_exists(entries, key);
        let gone = first_index(entries, key);
        assert forall|i: int, j: int| 0 <= i < j < after.len() implies #[trigger] after[i].0
            != #[trigger] after[j].0 by {
            let a = if i < gone {
                i
            } else {
                i + 1
            };
            let b = if j < gone {
                j
            } else {
                j + 1
            };
            assert(after[i] == entries[a]);
            assert(after[j] == entries[b]);
            assert(entries[a].0 != entries[b].0);
        }
    }
}

/// As a map, `upsert` is an insertion.
pub proof fn lemma_upsert_as_map<V>(entries: Seq<(Seq<char>, V)>, key: Seq<char>, value: V)
    ensures
        as_map(upsert(entries, key, value)) == as_map(entries).insert(key, value),
{
    let after = as_map(upsert(entries, key, value));
    let expected = as_map(entries).insert(key, value);
    assert forall|other: Seq<char>| #[trigger]
        after.dom().contains(other) == expected.dom().contains(other) by {
        lemma_lookup_upsert(entries, key, value, other);
    }
    assert forall|other: Seq<char>| after.dom().contains(other) implies #[trigger] after[other]
        == expected[other] by {
        lemma_lookup_upsert(entries, key, value, other);
    }
    assert(after =~= expected);
}

/// As a map, `without` is a removal, where no two entries share a key.
pub proof fn lemma_without_as_map<V>(entries: Seq<(Seq<char>, V)>, key: Seq<char>)
    requires
        unique_keys(entries),
    ensures
        as_map(without(entries, key)) == as_map(entries).remove(key),
{
    let after = as_map(without(entries, key));
    let expected = as_map(entries).remove(key);
    assert forall|other: Seq<char>| #[trigger]
        after.dom().contains(other) == expected.dom().contains(other) by {
        lemma_lookup_without(entries, key, other);
    }
    assert forall|other: Seq<char>| after.dom().contains(other) implies #[trigger] after[other]
        == expected[other] by {
        lemma_lookup_without(entries, key, other);
    }
    assert(after =~= expected);
}

/// The keys and values of stored entries, each taken by its view.
pub open spec fn keyed<V: View>(entries: Seq<(String, V)>) -> Seq<(Seq<char>, V::V)> {
    Seq::new(entries.len(), |i: int| (entries[i].0@, entries[i].1@))
}

/// The position of the first entry stored under `key`.
pub fn find<V: View>(entries: &Vec<(String, V)>, key: &str) -> (at: Option<usize>)
    ensures
        match at {
            Some(i) => is_first_at(keyed(entries@), key@, i as int),
            None => !has_key(keyed(entries@), key@),
        },
{
    let mut i: usize = 0;
    while i < entries.len()
        invariant
            i <= entries.len(),
            forall|j: int| 0 <= j < i ==> keyed(entries@)[j].0 != key@,
        decreases entries.len() - i,
    {
        if same_text(entries[i].0.as_str(), key) {
            return Some(i);
        }
        i += 1;
    }
    None
}

} // verus!
