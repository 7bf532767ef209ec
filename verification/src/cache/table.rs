//! One bounded table of records, kept by the `lru` crate.

use vstd::prelude::*;
use lru::LruCache;
use std::num::NonZeroUsize;
use crate::cache::entity::{view_of, Record, RecordView};
use crate::cache::recency::{
    inserted, lemma_inserted_well_formed, lemma_promoted_well_formed, lemma_removed_well_formed,
    lookup, promoted, removed, well_formed, Key,
};

verus! {

/// `lru::LruCache`, taken as it is: nothing of its inside is known here.
#[verifier::external_type_specification]
#[verifier::external_body]
#[verifier::reject_recursive_types(K)]
#[verifier::reject_recursive_types(V)]
#[verifier::reject_recursive_types(S)]
pub struct ExLruCache<K, V, S>(LruCache<K, V, S>);

/// `lru::DefaultHasher`, the hasher of an `LruCache` that is given none.
#[verifier::external_type_specification]
#[verifier::external_body]
pub struct ExLruHasher(lru::DefaultHasher);

/// What an `LruCache` holds: its pairs, the most recently used first.
pub uninterp spec fn lru_entries(table: LruCache<Key, Record>) -> Seq<(Key, RecordView)>;

/// The number of pairs that an `LruCache` was made to hold at most.
pub uninterp spec fn lru_capacity(table: LruCache<Key, Record>) -> nat;

/// `LruCache::sparse`: an empty cache that will hold at most `capacity`
/// pairs; nothing is allocated for them yet.
#[verifier::external_body]
fn lru_sparse(capacity: usize) -> (table: LruCache<Key, Record>)
    requires
        capacity > 0,
    ensures
        lru_entries(table) == Seq::<(Key, RecordView)>::empty(),
        lru_capacity(table) == capacity,
{
    LruCache::sparse(NonZeroUsize::new(capacity).unwrap())
}

/// `LruCache::put`: stores the pair and makes it the most recently used.  A
/// value already under the key is replaced and handed back; otherwise a full
/// cache first drops its least recently used pair.
#[verifier::external_body]
fn lru_put(table: &mut LruCache<Key, Record>, key: Key, record: Record) -> (previous: Option<Record>)
    ensures
        lru_entries(*final(table)) == inserted(
            lru_entries(*old(table)),
            lru_capacity(*old(table)),
            key,
            record@,
        ),
        lru_capacity(*final(table)) == lru_capacity(*old(table)),
        view_of(previous) == lookup(lru_entries(*old(table)), key),
{
    table.put(key, record)
}

/// `LruCache::get`: a copy of the value under the key, if there is one, and
/// the pair becomes the most recently used.
#[verifier::external_body]
fn lru_get(table: &mut LruCache<Key, Record>, key: Key) -> (found: Option<Record>)
    ensures
        lru_entries(*final(table)) == promoted(lru_entries(*old(table)), key),
        lru_capacity(*final(table)) == lru_capacity(*old(table)),
        view_of(found) == lookup(lru_entries(*old(table)), key),
{
    table.get(&key).map(|record| record.duplicate())
}

/// `LruCache::pop`: takes the pair under the key out and hands its value back.
#[verifier::external_body]
fn lru_pop(table: &mut LruCache<Key, Record>, key: Key) -> (taken: Option<Record>)
    ensures
        lru_entries(*final(table)) == removed(lru_entries(*old(table)), key),
        lru_capacity(*final(table)) == lru_capacity(*old(table)),
        view_of(taken) == lookup(lru_entries(*old(table)), key),
{
    table.pop(&key)
}

/// `LruCache::len`: the number of pairs held.
#[verifier::external_body]
fn lru_len(table: &LruCache<Key, Record>) -> (count: usize)
    ensures
        count == lru_entries(*table).len(),
{
    table.len()
}

/// A bounded table of records in recency order.
pub struct Table {
    inner: LruCache<Key, Record>,
}

impl View for Table {
    type V = Seq<(Key, RecordView)>;

    /// The pairs held, the most recently used first.
    closed spec fn view(&self) -> Seq<(Key, RecordView)> {
        lru_entries(self.inner)
    }
}

impl Table {
    /// The number of pairs that the table holds at most.
    pub closed spec fn capacity(&self) -> nat {
        lru_capacity(self.inner)
    }

    /// No key occurs twice, and the table holds no more than its capacity.
    pub open spec fn wf(&self) -> bool {
        well_formed(self@, self.capacity())
    }

    /// An empty table that will hold at most `capacity` pairs.
    pub fn new(capacity: usize) -> (table: Table)
        requires
            capacity > 0,
        ensures
            table@ == Seq::<(Key, RecordView)>::empty(),
            table.capacity() == capacity,
            table.wf(),
    {
        Table { inner: lru_sparse(capacity) }
    }

    /// Stores `record` under `key` and makes it the most recently used.
    pub fn put(&mut self, key: Key, record: Record)
        requires
            old(self).wf(),
        ensures
            final(self)@ == inserted(old(self)@, old(self).capacity(), key, record@),
            final(self).capacity() == old(self).capacity(),
            final(self).wf(),
    {
        proof {
            lemma_inserted_well_formed(self@, self.capacity(), key, record@);
        }
        let _ = lru_put(&mut self.inner, key, record);
    }

    /// A copy of the record under `key`; looking it up counts as a use.
    pub fn get(&mut self, key: Key) -> (found: Option<Record>)
        requires
            old(self).wf(),
        ensures
            final(self)@ == promoted(old(self)@, key),
            final(self).capacity() == old(self).capacity(),
            view_of(found) == lookup(old(self)@, key),
            final(self).wf(),
    {
        proof {
            lemma_promoted_well_formed(self@, self.capacity(), key);
        }
        lru_get(&mut self.inner, key)
    }

    /// Takes the record under `key` out of the table.
    pub fn remove(&mut self, key: Key) -> (taken: Option<Record>)
        requires
            old(self).wf(),
        ensures
            final(self)@ == removed(old(self)@, key),
            final(self).capacity() == old(self).capacity(),
            view_of(taken) == lookup(old(self)@, key),
            final(self).wf(),
    {
        proof {
            lemma_removed_well_formed(self@, self.capacity(), key);
        }
        lru_pop(&mut self.inner, key)
    }

    /// The number of records held.
    pub fn len(&self) -> (count: usize)
        ensures
            count == self@.len(),
    {
        lru_len(&self.inner)
    }
}

} // verus!
