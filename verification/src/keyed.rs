//! Sequences of pairs that are found by their key.
//!
//! Tables, graphs and the store of graphs all keep their contents as a
//! sequence of pairs in which no key occurs twice.  A key is a pair of ids.

use vstd::prelude::*;

verus! {

/// A key: a pair of ids.  Tables file an entity under a scope (a guild id,
/// or 0 where it belongs to no guild) and its id; a graph files an edge
/// under its source and its target; the store files a graph under its guild
/// and its channel.
pub type Key = (u64, u64);

/// The keys of `entries`, in order.
pub open spec fn keys<V>(entries: Seq<(Key, V)>) -> Seq<Key> {
    entries.map_values(|entry: (Key, V)| entry.0)
}

/// Whether `entries` holds a value under `key`.
pub open spec fn has_key<V>(entries: Seq<(Key, V)>, key: Key) -> bool {
    keys(entries).contains(key)
}

/// Where `key` stands in `entries`, if it is there.
pub open spec fn position<V>(entries: Seq<(Key, V)>, key: Key) -> int {
    keys(entries).index_of(key)
}

/// The value under `key`.
pub open spec fn lookup<V>(entries: Seq<(Key, V)>, key: Key) -> Option<V> {
    if has_key(entries, key) {
        Some(entries[position(entries, key)].1)
    } else {
        None
    }
}

/// `entries` without the pair under `key`.
pub open spec fn removed<V>(entries: Seq<(Key, V)>, key: Key) -> Seq<(Key, V)> {
    if has_key(entries, key) {
        entries.remove(position(entries, key))
    } else {
        entries
    }
}

/// The position of a key that is present is its one index.
pub proof fn lemma_position<V>(entries: Seq<(Key, V)>, at: int)
    requires
        keys(entries).no_duplicates(),
        0 <= at < entries.len(),
    ensures
        has_key(entries, entries[at].0),
        position(entries, entries[at].0) == at,
        lookup(entries, entries[at].0) == Some(entries[at].1),
{
    let ks = keys(entries);
    assert(ks[at] == entries[at].0);
    assert(ks.contains(entries[at].0));
    let found = ks.index_of(entries[at].0);
    assert(0 <= found < ks.len() && ks[found] == entries[at].0);
}

/// A key that is present stands at its position.
pub proof fn lemma_has_key<V>(entries: Seq<(Key, V)>, key: Key)
    requires
        has_key(entries, key),
    ensures
        0 <= position(entries, key) < entries.len(),
        entries[position(entries, key)].0 == key,
{
    let ks = keys(entries);
    let found = ks.index_of(key);
    assert(0 <= found < ks.len() && ks[found] == key);
}

/// Taking one element out of a sequence without duplicates leaves none, and
/// the element is gone.
pub proof fn lemma_remove_no_duplicates(ks: Seq<Key>, at: int)
    requires
        ks.no_duplicates(),
        0 <= at < ks.len(),
    ensures
        ks.remove(at).no_duplicates(),
        !ks.remove(at).contains(ks[at]),
        forall|k: Key| k != ks[at] ==> (ks.remove(at).contains(k) <==> ks.contains(k)),
{
    let rest = ks.remove(at);
    assert forall|i: int, j: int| 0 <= i < rest.len() && 0 <= j < rest.len() && i != j implies rest[i]
        != rest[j] by {
        let oi = if i < at { i } else { i + 1 };
        let oj = if j < at { j } else { j + 1 };
        assert(rest[i] == ks[oi] && rest[j] == ks[oj]);
    }
    assert forall|i: int| 0 <= i < rest.len() implies rest[i] != ks[at] by {
        let oi = if i < at { i } else { i + 1 };
        assert(rest[i] == ks[oi]);
    }
    assert forall|k: Key| k != ks[at] implies (rest.contains(k) <==> ks.contains(k)) by {
        if rest.contains(k) {
            let i = choose|i: int| 0 <= i < rest.len() && rest[i] == k;
            let oi = if i < at { i } else { i + 1 };
            assert(ks[oi] == k);
        }
        if ks.contains(k) {
            let o = choose|o: int| 0 <= o < ks.len() && ks[o] == k;
            let i = if o < at { o } else { o - 1 };
            assert(rest[i] == k);
        }
    }
}

/// Putting a new element before a sequence without duplicates leaves none.
pub proof fn lemma_push_front_no_duplicates(ks: Seq<Key>, key: Key)
    requires
        ks.no_duplicates(),
        !ks.contains(key),
    ensures
        (seq![key] + ks).no_duplicates(),
{
    let all = seq![key] + ks;
    assert forall|i: int, j: int| 0 <= i < all.len() && 0 <= j < all.len() && i != j implies all[i]
        != all[j] by {
        if i > 0 {
            assert(all[i] == ks[i - 1]);
            assert(ks.contains(all[i]));
        }
        if j > 0 {
            assert(all[j] == ks[j - 1]);
            assert(ks.contains(all[j]));
        }
    }
}

/// `entries` with `value` under `key`: in the place of the pair that was
/// under the key, or else at the end.
pub open spec fn assigned<V>(entries: Seq<(Key, V)>, key: Key, value: V) -> Seq<(Key, V)> {
    if has_key(entries, key) {
        entries.update(position(entries, key), (key, value))
    } else {
        entries.push((key, value))
    }
}

/// A removal keeps the keys distinct, takes the key out and leaves the
/// other values where they were filed.
pub proof fn lemma_removed<V>(entries: Seq<(Key, V)>, key: Key)
    requires
        keys(entries).no_duplicates(),
    ensures
        keys(removed(entries, key)).no_duplicates(),
        removed(entries, key).len() <= entries.len(),
        !has_key(removed(entries, key), key),
        forall|k: Key| k != key ==> lookup(removed(entries, key), k) == lookup(entries, k),
{
    let ks = keys(entries);
    let after = removed(entries, key);
    if has_key(entries, key) {
        lemma_has_key(entries, key);
        let at = position(entries, key);
        assert(keys(after) =~= ks.remove(at));
        lemma_remove_no_duplicates(ks, at);
        assert forall|k: Key| k != key implies lookup(after, k) == lookup(entries, k) by {
            if has_key(entries, k) {
                lemma_has_key(entries, k);
                let o = position(entries, k);
                let i = if o < at { o } else { o - 1 };
                assert(after[i] == entries[o]);
                lemma_position(after, i);
            }
        }
    }
}

/// An assignment keeps the keys distinct, files the value under its key and
/// leaves the other values where they were filed.
pub proof fn lemma_assigned<V>(entries: Seq<(Key, V)>, key: Key, value: V)
    requires
        keys(entries).no_duplicates(),
    ensures
        keys(assigned(entries, key, value)).no_duplicates(),
        lookup(assigned(entries, key, value), key) == Some(value),
        forall|k: Key| k != key ==> lookup(assigned(entries, key, value), k) == lookup(entries, k),
        forall|k: Key| has_key(assigned(entries, key, value), k) <==> k == key || has_key(entries, k),
{
    let ks = keys(entries);
    let after = assigned(entries, key, value);
    if has_key(entries, key) {
        lemma_has_key(entries, key);
        let at = position(entries, key);
        assert(keys(after) =~= ks);
        lemma_position(after, at);
        assert forall|k: Key| k != key implies lookup(after, k) == lookup(entries, k) by {
            if has_key(entries, k) {
                lemma_has_key(entries, k);
                let o = position(entries, k);
                assert(after[o] == entries[o]);
                lemma_position(after, o);
            }
        }
    } else {
        assert(keys(after) =~= ks.push(key));
        assert forall|i: int, j: int|
            0 <= i < keys(after).len() && 0 <= j < keys(after).len() && i != j implies keys(
            after,
        )[i] != keys(after)[j] by {
            if i < ks.len() {
                assert(ks.contains(keys(after)[i]));
            }
            if j < ks.len() {
                assert(ks.contains(keys(after)[j]));
            }
        }
        lemma_position(after, entries.len() as int);
        assert forall|k: Key| k != key implies lookup(after, k) == lookup(entries, k) by {
            if has_key(entries, k) {
                lemma_has_key(entries, k);
                let o = position(entries, k);
                assert(after[o] == entries[o]);
                lemma_position(after, o);
            } else if has_key(after, k) {
                lemma_has_key(after, k);
                let i = position(after, k);
                assert(ks[i] == k);
            }
        }
        assert forall|k: Key| has_key(after, k) <==> k == key || has_key(entries, k) by {
            if has_key(entries, k) {
                lemma_has_key(entries, k);
                assert(keys(after)[position(entries, k)] == k);
            }
            if has_key(after, k) && k != key {
                lemma_has_key(after, k);
                assert(ks[position(after, k)] == k);
            }
        }
    }
}

} // verus!
