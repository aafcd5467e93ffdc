//! An immutable snapshot of the identifier-to-score mapping.
//!
//! A snapshot is built in full from one fetched batch and never mutated
//! afterwards; the store replaces the whole snapshot on each refresh. The
//! entries live in an `ahash::AHashMap`, which this module declares to the
//! verifier and reaches only through the trusted wrappers below.

use crate::scores::IncomingUser;
use crate::scores::empty_scores;
use crate::scores::lemma_scores_of_take_step;
use crate::scores::scores_of;
use vstd::prelude::*;

verus! {

#[verifier::external_type_specification]
#[verifier::external_body]
#[verifier::reject_recursive_types(K)]
#[verifier::reject_recursive_types(V)]
#[verifier::reject_recursive_types(S)]
pub struct ExAHashMap<K, V, S>(ahash::AHashMap<K, V, S>);

#[verifier::external_type_specification]
#[verifier::external_body]
pub struct ExRandomState(ahash::RandomState);

/// The entries an `ahash::AHashMap` holds, as a mathematical map.
pub uninterp spec fn hash_entries(m: ahash::AHashMap<u64, u64>) -> Map<u64, u64>;

/// Relies on `ahash::AHashMap::new`: the new map holds no entries.
#[verifier::external_body]
fn hash_map_new() -> (m: ahash::AHashMap<u64, u64>)
    ensures
        hash_entries(m) == empty_scores(),
{
    ahash::AHashMap::new()
}

/// Relies on `ahash::AHashMap::insert`: afterwards `k` maps to `v` and every
/// other entry is as before.
#[verifier::external_body]
fn hash_map_insert(m: &mut ahash::AHashMap<u64, u64>, k: u64, v: u64)
    ensures
        hash_entries(*final(m)) == hash_entries(*old(m)).insert(k, v),
{
    m.insert(k, v);
}

/// Relies on `ahash::AHashMap::get`: returns the value stored under `k`, or
/// `None` when no entry has that key.
#[verifier::external_body]
fn hash_map_get(m: &ahash::AHashMap<u64, u64>, k: u64) -> (r: Option<u64>)
    ensures
        match r {
            Some(v) => hash_entries(*m).contains_key(k) && hash_entries(*m)[k] == v,
            None => !hash_entries(*m).contains_key(k),
        },
{
    m.get(&k).copied()
}

/// An immutable full mapping from identifier to score, valid until the store
/// replaces it with a newer one.
pub struct Snapshot {
    entries: ahash::AHashMap<u64, u64>,
}

impl View for Snapshot {
    type V = Map<u64, u64>;

    closed spec fn view(&self) -> Map<u64, u64> {
        hash_entries(self.entries)
    }
}

impl Snapshot {
    /// A snapshot with no entries at all.
    pub fn empty() -> (s: Snapshot)
        ensures
            s@ == empty_scores(),
    {
        Snapshot { entries: hash_map_new() }
    }

    /// Builds the snapshot one fetched batch denotes, resolving duplicate
    /// ids last-write-wins.
    pub fn from_records(records: &Vec<IncomingUser>) -> (s: Snapshot)
        ensures
            s@ == scores_of(records@),
    {
        let mut entries = hash_map_new();
        let n = records.len();
        let mut i: usize = 0;
        while i < n
            invariant
                i <= n,
                n == records@.len(),
                hash_entries(entries) == scores_of(records@.take(i as int)),
            decreases n - i,
        {
            proof {
                lemma_scores_of_take_step(records@, i as int);
            }
            hash_map_insert(&mut entries, records[i].id, records[i].xp);
            i = i + 1;
        }
        proof {
            assert(records@.take(n as int) =~= records@);
        }
        Snapshot { entries }
    }

    /// The score recorded for `id` in this snapshot, or `None` when the
    /// snapshot has no entry for `id`.
    pub fn get(&self, id: u64) -> (r: Option<u64>)
        ensures
            match r {
                Some(v) => self@.contains_key(id) && self@[id] == v,
                None => !self@.contains_key(id),
            },
    {
        hash_map_get(&self.entries, id)
    }
}

} // verus!
