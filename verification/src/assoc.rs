//! Association lists read as maps.
//!
//! Several tables of this crate are kept as a vector of key-value pairs in
//! which a later pair overrides an earlier one with the same key. The
//! functions here say which map such a list denotes and how finding,
//! appending and replacing relate to it.

use vstd::prelude::*;

verus! {

/// The map that a list of pairs denotes: each key is bound to the value of
/// its last occurrence.
pub open spec fn as_map<K, V>(pairs: Seq<(K, V)>) -> Map<K, V>
    decreases pairs.len(),
{
    if pairs.len() == 0 {
        Map::empty()
    } else {
        as_map(pairs.drop_last()).insert(pairs.last().0, pairs.last().1)
    }
}

/// What the list binds `key` to, if anything.
pub open spec fn lookup<K, V>(pairs: Seq<(K, V)>, key: K) -> Option<V> {
    if as_map(pairs).contains_key(key) {
        Some(as_map(pairs)[key])
    } else {
        None
    }
}

/// Whether no pair from position `from` on has the key `key`.
pub open spec fn absent_from<K, V>(pairs: Seq<(K, V)>, key: K, from: int) -> bool {
    forall|j: int| from <= j < pairs.len() ==> (#[trigger] pairs[j]).0 != key
}

/// Appending a pair binds its key and leaves the other keys as they were.
pub proof fn lemma_push<K, V>(pairs: Seq<(K, V)>, key: K, value: V)
    ensures
        as_map(pairs.push((key, value))) == as_map(pairs).insert(key, value),
{
    assert(pairs.push((key, value)).drop_last() =~= pairs);
}

/// A key that occurs nowhere is unbound.
pub proof fn lemma_absent<K, V>(pairs: Seq<(K, V)>, key: K)
    requires
        absent_from(pairs, key, 0),
    ensures
        lookup(pairs, key) is None,
    decreases pairs.len(),
{
    if pairs.len() > 0 {
        lemma_absent(pairs.drop_last(), key);
    }
}

/// A key is bound to the value of its last occurrence.
pub proof fn lemma_last_occurrence<K, V>(pairs: Seq<(K, V)>, key: K, at: int)
    requires
        0 <= at < pairs.len(),
        pairs[at].0 == key,
        absent_from(pairs, key, at + 1),
    ensures
        lookup(pairs, key) == Some(pairs[at].1),
    decreases pairs.len(),
{
    if at < pairs.len() - 1 {
        lemma_last_occurrence(pairs.drop_last(), key, at);
    }
}

/// Replacing the value at a key's last occurrence rebinds that key and
/// leaves the other keys as they were.
pub proof fn lemma_replace<K, V>(pairs: Seq<(K, V)>, key: K, at: int, value: V)
    requires
        0 <= at < pairs.len(),
        pairs[at].0 == key,
        absent_from(pairs, key, at + 1),
    ensures
        as_map(pairs.update(at, (key, value))) == as_map(pairs).insert(key, value),
    decreases pairs.len(),
{
    let updated = pairs.update(at, (key, value));
    if at < pairs.len() - 1 {
        lemma_replace(pairs.drop_last(), key, at, value);
        assert(updated.drop_last() =~= pairs.drop_last().update(at, (key, value)));
        assert(as_map(updated) =~= as_map(pairs).insert(key, value));
    } else {
        assert(updated.drop_last() =~= pairs.drop_last());
        assert(as_map(updated) =~= as_map(pairs).insert(key, value));
    }
}

} // verus!
