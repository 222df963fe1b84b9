//! Association lists keyed by text: the model of the catalog's label tables
//! and of the plan context. A key is looked up at its first occurrence, and
//! the lists that the library builds hold every key once.
use vstd::prelude::*;
use crate::views::Text;

verus! {

/// The entries as contracts see them: each key's characters with the view of its value.
pub open spec fn entries_view<T: View>(s: Seq<(String, T)>) -> Seq<(Text, T::V)> {
    Seq::new(s.len(), |i: int| (s[i].0@, s[i].1@))
}

/// The keys of the entries, in order.
pub open spec fn keys<V>(entries: Seq<(Text, V)>) -> Seq<Text> {
    Seq::new(entries.len(), |i: int| entries[i].0)
}

/// `true` when some entry has the key.
pub open spec fn has_key<V>(entries: Seq<(Text, V)>, key: Text) -> bool {
    exists|i: int| 0 <= i < entries.len() && entries[i].0 == key
}

/// `true` when `i` is the first position that holds the key.
pub open spec fn is_first<V>(entries: Seq<(Text, V)>, key: Text, i: int) -> bool {
    &&& 0 <= i < entries.len()
    &&& entries[i].0 == key
    &&& forall|j: int| 0 <= j < i ==> entries[j].0 != key
}

/// The first position that holds the key.
pub open spec fn index_of<V>(entries: Seq<(Text, V)>, key: Text) -> int {
    choose|i: int| is_first(entries, key, i)
}

/// The value under the key, if any entry has it.
pub open spec fn lookup<V>(entries: Seq<(Text, V)>, key: Text) -> Option<V> {
    if has_key(entries, key) {
        Some(entries[index_of(entries, key)].1)
    } else {
        None
    }
}

/// The entries with `value` under `key`: in place of the old value where
/// the key is present, at the end where it is not.
pub open spec fn put<V>(entries: Seq<(Text, V)>, key: Text, value: V) -> Seq<(Text, V)> {
    if has_key(entries, key) {
        entries.update(index_of(entries, key), (key, value))
    } else {
        entries.push((key, value))
    }
}

/// No key occurs twice.
pub open spec fn unique_keys<V>(entries: Seq<(Text, V)>) -> bool {
    forall|i: int, j: int| 0 <= i < j < entries.len() ==> entries[i].0 != entries[j].0
}

/// A position that is the first for its key is the one that `index_of` names.
pub proof fn lemma_index_of<V>(entries: Seq<(Text, V)>, key: Text, i: int)
    requires
        is_first(entries, key, i),
    ensures
        has_key(entries, key),
        index_of(entries, key) == i,
        lookup(entries, key) == Some(entries[i].1),
{
    let k = index_of(entries, key);
    assert(is_first(entries, key, k));
    if k < i {
        assert(entries[k].0 != key);
    }
    if i < k {
        assert(entries[i].0 != key);
    }
}

/// A key that some entry holds has a first position.
pub proof fn lemma_has_key_first<V>(entries: Seq<(Text, V)>, key: Text)
    requires
        has_key(entries, key),
    ensures
        is_first(entries, key, index_of(entries, key)),
{
    let w = choose|i: int| 0 <= i < entries.len() && entries[i].0 == key;
    lemma_first_from(entries, key, w);
}

proof fn lemma_first_from<V>(entries: Seq<(Text, V)>, key: Text, w: int)
    requires
        0 <= w < entries.len(),
        entries[w].0 == key,
    ensures
        exists|i: int| is_first(entries, key, i),
    decreases w,
{
    if exists|j: int| 0 <= j < w && entries[j].0 == key {
        let j = choose|j: int| 0 <= j < w && entries[j].0 == key;
        lemma_first_from(entries, key, j);
    } else {
        assert(is_first(entries, key, w));
    }
}

/// Putting a value keeps the keys unique, and the value is what a lookup
/// of the key then gives; other keys keep their values.
pub proof fn lemma_put<V>(entries: Seq<(Text, V)>, key: Text, value: V)
    ensures
        unique_keys(entries) ==> unique_keys(put(entries, key, value)),
        lookup(put(entries, key, value), key) == Some(value),
        has_key(put(entries, key, value), key),
        forall|other: Text|
            other != key ==> lookup(put(entries, key, value), other) == lookup(entries, other)
                && has_key(put(entries, key, value), other) == has_key(entries, other),
{
    let after = put(entries, key, value);
    if has_key(entries, key) {
        lemma_has_key_first(entries, key);
        let i = index_of(entries, key);
        assert(is_first(after, key, i));
        lemma_index_of(after, key, i);
        assert forall|other: Text| other != key implies lookup(after, other) == lookup(
            entries,
            other,
        ) && has_key(after, other) == has_key(entries, other) by {
            if has_key(entries, other) {
                lemma_has_key_first(entries, other);
                let k = index_of(entries, other);
                assert(is_first(after, other, k));
                lemma_index_of(after, other, k);
            } else if has_key(after, other) {
                let k = choose|k: int| 0 <= k < after.len() && after[k].0 == other;
                assert(entries[k].0 == other);
            }
        }
    } else {
        let i = entries.len() as int;
        assert(is_first(after, key, i));
        lemma_index_of(after, key, i);
        assert forall|other: Text| other != key implies lookup(after, other) == lookup(
            entries,
            other,
        ) && has_key(after, other) == has_key(entries, other) by {
            if has_key(entries, other) {
                lemma_has_key_first(entries, other);
                let k = index_of(entries, other);
                assert(is_first(after, other, k));
                lemma_index_of(after, other, k);
            } else if has_key(after, other) {
                let k = choose|k: int| 0 <= k < after.len() && after[k].0 == other;
                assert(entries[k].0 == other);
            }
        }
    }
}

/// Finds the first entry under `key`.
pub fn find<T: View>(entries: &Vec<(String, T)>, key: &String) -> (r: Option<usize>)
    ensures
        r is Some == has_key(entries_view(entries@), key@),
        r matches Some(i) ==> is_first(entries_view(entries@), key@, i as int) && index_of(
            entries_view(entries@),
            key@,
        ) == i,
{
    let mut i: usize = 0;
    while i < entries.len()
        invariant
            i <= entries.len(),
            forall|j: int| 0 <= j < i ==> entries_view(entries@)[j].0 != key@,
        decreases entries.len() - i,
    {
        if entries[i].0 == *key {
            proof {
                assert(entries_view(entries@)[i as int].0 == key@);
                lemma_index_of(entries_view(entries@), key@, i as int);
            }
            return Some(i);
        }
        i += 1;
    }
    None
}

} // verus!
