//! Ordered association lists: sequences of `(key, value)` pairs whose keys are
//! strings. Both the token registry and the content cache are modelled by such
//! a list, and state their contracts with the functions defined here.

use vstd::prelude::*;

verus! {

/// Some pair of `entries` has the key `key`.
pub open spec fn has_key<V>(entries: Seq<(Seq<char>, V)>, key: Seq<char>) -> bool {
    exists|i: int| 0 <= i < entries.len() && (#[trigger] entries[i]).0 == key
}

/// No two pairs of `entries` share a key.
pub open spec fn distinct_keys<V>(entries: Seq<(Seq<char>, V)>) -> bool {
    forall|i: int, j: int|
        0 <= i < j < entries.len() ==> (#[trigger] entries[i]).0 != (#[trigger] entries[j]).0
}

/// A position at which `key` stands in `entries`; the only one where the keys
/// are distinct. Meaningful only where `has_key(entries, key)`.
pub open spec fn key_index<V>(entries: Seq<(Seq<char>, V)>, key: Seq<char>) -> int {
    choose|i: int| 0 <= i < entries.len() && (#[trigger] entries[i]).0 == key
}

/// The value stored under `key`, if there is one.
pub open spec fn value_of<V>(entries: Seq<(Seq<char>, V)>, key: Seq<char>) -> Option<V> {
    if has_key(entries, key) {
        Some(entries[key_index(entries, key)].1)
    } else {
        None
    }
}

/// `entries` with the pair of `key` taken out and the order of the others kept.
pub open spec fn without_key<V>(entries: Seq<(Seq<char>, V)>, key: Seq<char>) -> Seq<
    (Seq<char>, V),
> {
    if has_key(entries, key) {
        entries.remove(key_index(entries, key))
    } else {
        entries
    }
}

/// Where the keys are distinct, the position of a key is the one position that holds it.
pub proof fn lemma_key_index<V>(entries: Seq<(Seq<char>, V)>, key: Seq<char>, i: int)
    requires
        distinct_keys(entries),
        0 <= i < entries.len(),
        entries[i].0 == key,
    ensures
        has_key(entries, key),
        key_index(entries, key) == i,
        value_of(entries, key) == Some(entries[i].1),
{
    let j = key_index(entries, key);
    assert(0 <= j < entries.len() && entries[j].0 == key);
    if j < i {
        assert(entries[j].0 != entries[i].0);
    } else if i < j {
        assert(entries[i].0 != entries[j].0);
    }
}

/// Taking a key out of a list with distinct keys leaves distinct keys, removes
/// exactly that key, and keeps every other key with its value.
pub proof fn lemma_without_key<V>(entries: Seq<(Seq<char>, V)>, key: Seq<char>)
    requires
        distinct_keys(entries),
    ensures
        distinct_keys(without_key(entries, key)),
        !has_key(without_key(entries, key), key),
        without_key(entries, key).len() == if has_key(entries, key) {
            entries.len() - 1
        } else {
            entries.len() as int
        },
        forall|other: Seq<char>|
            other != key ==> value_of(without_key(entries, key), other) == value_of(
                entries,
                other,
            ),
        forall|other: Seq<char>|
            other != key ==> has_key(without_key(entries, key), other) == has_key(entries, other),
{
    let rest = without_key(entries, key);
    if has_key(entries, key) {
        let k = key_index(entries, key);
        assert forall|i: int| 0 <= i < rest.len() implies (#[trigger] rest[i]) == entries[if i
            < k {
            i
        } else {
            i + 1
        }] by {}
        assert forall|i: int, j: int| 0 <= i < j < rest.len() implies (#[trigger] rest[i]).0 != (
        #[trigger] rest[j]).0 by {
            let ii = if i < k { i } else { i + 1 };
            let jj = if j < k { j } else { j + 1 };
            assert(entries[ii].0 != entries[jj].0);
        }
        if has_key(rest, key) {
            let i = key_index(rest, key);
            let ii = if i < k { i } else { i + 1 };
            assert(rest[i] == entries[ii]);
            lemma_key_index(entries, key, ii);
        }
        assert forall|other: Seq<char>| other != key implies (has_key(rest, other) == has_key(
            entries,
            other,
        ) && value_of(rest, other) == value_of(entries, other)) by {
            if has_key(entries, other) {
                let i = key_index(entries, other);
                let ii = if i < k { i } else { i - 1 };
                assert(rest[ii] == entries[i]);
                lemma_key_index(rest, other, ii);
                lemma_key_index(entries, other, i);
            }
            if has_key(rest, other) {
                let i = key_index(rest, other);
                let ii = if i < k { i } else { i + 1 };
                assert(rest[i] == entries[ii]);
                lemma_key_index(entries, other, ii);
                lemma_key_index(rest, other, i);
            }
        }
    } else {
        assert(rest == entries);
    }
}

} // verus!
