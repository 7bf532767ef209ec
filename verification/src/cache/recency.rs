//! The mathematical model of a bounded table in recency order.
//!
//! A table is a sequence of key-value pairs, the most recently used pair
//! first.  Every use of a key moves its pair to the front; an insertion into
//! a full table drops the last pair, the one least recently used.

use vstd::prelude::*;
pub use crate::keyed::{
    has_key, keys, lemma_has_key, lemma_position, lemma_push_front_no_duplicates,
    lemma_remove_no_duplicates, lookup, position, removed, Key,
};
use crate::keyed::lemma_removed;

verus! {

/// `entries` after a use of `key`: its pair, if any, moves to the front.
pub open spec fn promoted<V>(entries: Seq<(Key, V)>, key: Key) -> Seq<(Key, V)> {
    if has_key(entries, key) {
        let at = position(entries, key);
        seq![entries[at]] + entries.remove(at)
    } else {
        entries
    }
}

/// `entries` after `value` is stored under `key` in a table that holds at
/// most `capacity` pairs.  A pair already under `key` is replaced; else, if
/// the table is full, the last pair leaves.  The new pair stands first.
pub open spec fn inserted<V>(entries: Seq<(Key, V)>, capacity: nat, key: Key, value: V) -> Seq<
    (Key, V),
> {
    if has_key(entries, key) {
        seq![(key, value)] + entries.remove(position(entries, key))
    } else if entries.len() == capacity {
        seq![(key, value)] + entries.drop_last()
    } else {
        seq![(key, value)] + entries
    }
}

/// What every table satisfies: no key occurs twice, and the table holds at
/// most `capacity` pairs, where `capacity` is positive.
pub open spec fn well_formed<V>(entries: Seq<(Key, V)>, capacity: nat) -> bool {
    &&& keys(entries).no_duplicates()
    &&& entries.len() <= capacity
    &&& capacity > 0
}

/// The keys after an insertion: the new key first, then the old keys without
/// it and, where the table was full of other keys, without the last.
pub proof fn lemma_inserted_keys<V>(entries: Seq<(Key, V)>, capacity: nat, key: Key, value: V)
    requires
        capacity > 0,
    ensures
        keys(inserted(entries, capacity, key, value)) == if has_key(entries, key) {
            seq![key] + keys(entries).remove(position(entries, key))
        } else if entries.len() == capacity {
            seq![key] + keys(entries).drop_last()
        } else {
            seq![key] + keys(entries)
        },
{
    let after = inserted(entries, capacity, key, value);
    if has_key(entries, key) {
        lemma_has_key(entries, key);
        assert(keys(after) =~= seq![key] + keys(entries).remove(position(entries, key)));
    } else if entries.len() == capacity {
        assert(keys(after) =~= seq![key] + keys(entries).drop_last());
    } else {
        assert(keys(after) =~= seq![key] + keys(entries));
    }
}

/// The keys after a use: the used key first, then the others in their order.
pub proof fn lemma_promoted_keys<V>(entries: Seq<(Key, V)>, key: Key)
    ensures
        keys(promoted(entries, key)) == if has_key(entries, key) {
            seq![key] + keys(entries).remove(position(entries, key))
        } else {
            keys(entries)
        },
{
    if has_key(entries, key) {
        lemma_has_key(entries, key);
        assert(keys(promoted(entries, key)) =~= seq![key] + keys(entries).remove(
            position(entries, key),
        ));
    }
}

/// An insertion keeps a table well formed.
pub proof fn lemma_inserted_well_formed<V>(
    entries: Seq<(Key, V)>,
    capacity: nat,
    key: Key,
    value: V,
)
    requires
        well_formed(entries, capacity),
    ensures
        well_formed(inserted(entries, capacity, key, value), capacity),
        lookup(inserted(entries, capacity, key, value), key) == Some(value),
{
    let ks = keys(entries);
    let after = inserted(entries, capacity, key, value);
    lemma_inserted_keys(entries, capacity, key, value);
    if has_key(entries, key) {
        lemma_has_key(entries, key);
        lemma_remove_no_duplicates(ks, position(entries, key));
        lemma_push_front_no_duplicates(ks.remove(position(entries, key)), key);
    } else if entries.len() == capacity {
        let rest = ks.drop_last();
        assert(rest.no_duplicates());
        assert(!rest.contains(key)) by {
            if rest.contains(key) {
                let i = choose|i: int| 0 <= i < rest.len() && rest[i] == key;
                assert(ks[i] == key);
            }
        }
        lemma_push_front_no_duplicates(rest, key);
    } else {
        lemma_push_front_no_duplicates(ks, key);
    }
    lemma_position(after, 0);
}

/// A use keeps a table well formed, and keeps every value where it was filed.
pub proof fn lemma_promoted_well_formed<V>(entries: Seq<(Key, V)>, capacity: nat, key: Key)
    requires
        well_formed(entries, capacity),
    ensures
        well_formed(promoted(entries, key), capacity),
        forall|k: Key| lookup(promoted(entries, key), k) == lookup(entries, k),
{
    let ks = keys(entries);
    let after = promoted(entries, key);
    lemma_promoted_keys(entries, key);
    if has_key(entries, key) {
        lemma_has_key(entries, key);
        let at = position(entries, key);
        lemma_remove_no_duplicates(ks, at);
        lemma_push_front_no_duplicates(ks.remove(at), key);
        assert forall|k: Key| lookup(after, k) == lookup(entries, k) by {
            if k == key {
                lemma_position(after, 0);
            } else if has_key(entries, k) {
                lemma_has_key(entries, k);
                let o = position(entries, k);
                let i = if o < at { o + 1 } else { o };
                assert(after[i] == entries[o]);
                lemma_position(after, i);
            } else {
                if has_key(after, k) {
                    lemma_has_key(after, k);
                    let i = position(after, k);
                    let o = if i - 1 < at { i - 1 } else { i };
                    assert(after[i] == entries[o]);
                    assert(ks[o] == k);
                }
            }
        }
    }
}

/// A removal keeps a table well formed, takes the key out and leaves the
/// other values where they were filed.
pub proof fn lemma_removed_well_formed<V>(entries: Seq<(Key, V)>, capacity: nat, key: Key)
    requires
        well_formed(entries, capacity),
    ensures
        well_formed(removed(entries, key), capacity),
        !has_key(removed(entries, key), key),
        forall|k: Key| k != key ==> lookup(removed(entries, key), k) == lookup(entries, k),
{
    lemma_removed(entries, key);
}

/// `entries` after each of `pairs` is stored, in order.
pub open spec fn inserted_all<V>(entries: Seq<(Key, V)>, capacity: nat, pairs: Seq<(Key, V)>) -> Seq<
    (Key, V),
>
    decreases pairs.len(),
{
    if pairs.len() == 0 {
        entries
    } else {
        inserted(
            inserted_all(entries, capacity, pairs.drop_last()),
            capacity,
            pairs.last().0,
            pairs.last().1,
        )
    }
}

/// The pairs of `pairs` that are the last under their key, the latest first:
/// what a table without bound would hold after they were stored in order.
pub open spec fn recent<V>(pairs: Seq<(Key, V)>) -> Seq<(Key, V)>
    decreases pairs.len(),
{
    if pairs.len() == 0 {
        Seq::empty()
    } else {
        seq![pairs.last()] + removed(recent(pairs.drop_last()), pairs.last().0)
    }
}

/// A prefix of a table has the table's keys at the table's positions.
proof fn lemma_prefix_keys<V>(entries: Seq<(Key, V)>, front: Seq<(Key, V)>, key: Key)
    requires
        keys(entries).no_duplicates(),
        front.len() <= entries.len(),
        entries.take(front.len() as int) == front,
    ensures
        keys(front).no_duplicates(),
        has_key(front, key) ==> has_key(entries, key) && position(entries, key) == position(
            front,
            key,
        ) && position(front, key) < front.len(),
        !has_key(front, key) && has_key(entries, key) ==> position(entries, key) >= front.len(),
{
    let ks = keys(entries);
    let fs = keys(front);
    assert forall|i: int| 0 <= i < front.len() implies fs[i] == ks[i] by {
        assert(front[i] == entries[i]);
    }
    if has_key(front, key) {
        lemma_has_key(front, key);
        let at = position(front, key);
        assert(entries[at] == front[at]);
        lemma_position(entries, at);
    }
    if !has_key(front, key) && has_key(entries, key) {
        lemma_has_key(entries, key);
        let at = position(entries, key);
        if at < front.len() {
            assert(fs[at] == key);
        }
    }
}

/// Where a prefix of a table holds the latest pairs, it still does after an
/// insertion, as long as the latest pairs do not outnumber the capacity.
pub proof fn lemma_inserted_prefix<V>(
    entries: Seq<(Key, V)>,
    capacity: nat,
    front: Seq<(Key, V)>,
    key: Key,
    value: V,
)
    requires
        well_formed(entries, capacity),
        front.len() <= entries.len(),
        entries.take(front.len() as int) == front,
        (seq![(key, value)] + removed(front, key)).len() <= capacity,
    ensures
        (seq![(key, value)] + removed(front, key)).len() <= inserted(
            entries,
            capacity,
            key,
            value,
        ).len(),
        inserted(entries, capacity, key, value).take(
            (seq![(key, value)] + removed(front, key)).len() as int,
        ) == seq![(key, value)] + removed(front, key),
{
    let after = inserted(entries, capacity, key, value);
    let new_front = seq![(key, value)] + removed(front, key);
    lemma_prefix_keys(entries, front, key);
    if has_key(front, key) {
        let at = position(front, key);
        assert(after.take(new_front.len() as int) =~= new_front) by {
            assert forall|i: int| 0 <= i < new_front.len() implies after[i] == new_front[i] by {
                if i > 0 {
                    let o = if i - 1 < at { i - 1 } else { i };
                    assert(after[i] == entries[o]);
                    assert(new_front[i] == front[o]);
                    assert(front[o] == entries[o]);
                }
            }
        }
    } else if has_key(entries, key) {
        let at = position(entries, key);
        lemma_has_key(entries, key);
        assert(after.take(new_front.len() as int) =~= new_front) by {
            assert forall|i: int| 0 <= i < new_front.len() implies after[i] == new_front[i] by {
                if i > 0 {
                    assert(after[i] == entries[i - 1]);
                    assert(front[i - 1] == entries[i - 1]);
                }
            }
        }
    } else {
        assert(after.take(new_front.len() as int) =~= new_front) by {
            assert forall|i: int| 0 <= i < new_front.len() implies after[i] == new_front[i] by {
                if i > 0 {
                    assert(after[i] == entries[i - 1]);
                    assert(front[i - 1] == entries[i - 1]);
                }
            }
        }
    }
}

/// The latest pairs have distinct keys, hold every key that was stored, and
/// grow by at most one with each pair.
pub proof fn lemma_recent<V>(pairs: Seq<(Key, V)>)
    ensures
        keys(recent(pairs)).no_duplicates(),
        recent(pairs).len() <= pairs.len(),
        pairs.len() > 0 ==> recent(pairs.drop_last()).len() <= recent(pairs).len(),
        forall|i: int| 0 <= i < pairs.len() ==> has_key(recent(pairs), #[trigger] pairs[i].0),
    decreases pairs.len(),
{
    if pairs.len() == 0 {
        assert(keys(recent(pairs)) =~= Seq::<Key>::empty());
    } else {
        let before = recent(pairs.drop_last());
        let last = pairs.last();
        lemma_recent(pairs.drop_last());
        let bound = (before.len() + 1) as nat;
        lemma_removed_well_formed(before, bound, last.0);
        let rest = removed(before, last.0);
        let now = recent(pairs);
        assert(now == seq![last] + rest);
        assert(keys(now) =~= seq![last.0] + keys(rest));
        lemma_push_front_no_duplicates(keys(rest), last.0);
        if has_key(before, last.0) {
            lemma_has_key(before, last.0);
        }
        lemma_position(now, 0);
        assert forall|i: int| 0 <= i < pairs.len() implies has_key(now, #[trigger] pairs[i].0) by {
            if i < pairs.len() - 1 && pairs[i].0 != last.0 {
                assert(pairs.drop_last()[i] == pairs[i]);
                assert(has_key(before, pairs[i].0));
                assert(lookup(rest, pairs[i].0) == lookup(before, pairs[i].0));
                assert(has_key(rest, pairs[i].0));
                let at = choose|at: int| 0 <= at < keys(rest).len() && keys(rest)[at] == pairs[i].0;
                assert(keys(now)[at + 1] == pairs[i].0);
            }
        }
    }
}

/// After pairs are stored in order, the table begins with the latest of
/// them, as long as those do not outnumber the capacity.
pub proof fn lemma_inserted_all<V>(entries: Seq<(Key, V)>, capacity: nat, pairs: Seq<(Key, V)>)
    requires
        well_formed(entries, capacity),
    ensures
        well_formed(inserted_all(entries, capacity, pairs), capacity),
        recent(pairs).len() <= capacity ==> recent(pairs).len() <= inserted_all(
            entries,
            capacity,
            pairs,
        ).len() && inserted_all(entries, capacity, pairs).take(recent(pairs).len() as int)
            == recent(pairs),
    decreases pairs.len(),
{
    if pairs.len() == 0 {
        assert(entries.take(0) =~= recent(pairs));
    } else {
        let shorter = pairs.drop_last();
        let last = pairs.last();
        lemma_inserted_all(entries, capacity, shorter);
        lemma_recent(pairs);
        let before = inserted_all(entries, capacity, shorter);
        lemma_inserted_well_formed(before, capacity, last.0, last.1);
        if recent(pairs).len() <= capacity {
            lemma_inserted_prefix(before, capacity, recent(shorter), last.0, last.1);
        }
    }
}

/// Pairs with distinct keys are all the latest under their key.
pub proof fn lemma_recent_distinct<V>(pairs: Seq<(Key, V)>)
    requires
        keys(pairs).no_duplicates(),
    ensures
        recent(pairs) == pairs.reverse(),
    decreases pairs.len(),
{
    if pairs.len() == 0 {
        assert(recent(pairs) =~= pairs.reverse());
    } else {
        let shorter = pairs.drop_last();
        let last = pairs.last();
        assert(keys(shorter) =~= keys(pairs).drop_last());
        lemma_recent_distinct(shorter);
        let before = recent(shorter);
        assert(!has_key(before, last.0)) by {
            if has_key(before, last.0) {
                lemma_has_key(before, last.0);
                let at = position(before, last.0);
                let o = shorter.len() - 1 - at;
                assert(before[at] == shorter[o]);
                assert(keys(pairs)[o] == last.0);
                assert(keys(pairs)[pairs.len() - 1] == last.0);
            }
        }
        assert(recent(pairs) =~= pairs.reverse());
    }
}

} // verus!
