//! The snapshot store: one live snapshot at a time, replaced wholesale.
//!
//! A lookup answers from the single snapshot that is current; a refresh
//! installs a whole new snapshot. The store never mutates a published
//! snapshot key by key, so a lookup can never mix entries of two snapshots.

use crate::scores::empty_scores;
use crate::snapshot::Snapshot;
use vstd::prelude::*;

verus! {

/// What a lookup answers on a given mapping: the score under `id`, or
/// `None` when the mapping has no entry for `id`.
pub open spec fn lookup_in(scores: Map<u64, u64>, id: u64) -> Option<u64> {
    if scores.contains_key(id) {
        Some(scores[id])
    } else {
        None
    }
}

/// Holds the one live snapshot and replaces it wholesale on refresh.
pub struct SnapshotStore {
    current: Snapshot,
}

impl View for SnapshotStore {
    type V = Map<u64, u64>;

    closed spec fn view(&self) -> Map<u64, u64> {
        self.current@
    }
}

impl SnapshotStore {
    /// A store created empty: no identifier is known yet.
    pub fn new() -> (s: SnapshotStore)
        ensures
            s@ == empty_scores(),
    {
        SnapshotStore { current: Snapshot::empty() }
    }

    /// The score for `id` as of the most recently published snapshot, or
    /// `None` when that snapshot has no entry for `id`.
    pub fn get(&self, id: u64) -> (r: Option<u64>)
        ensures
            r == lookup_in(self@, id),
    {
        self.current.get(id)
    }

    /// Installs `snapshot` as the current snapshot. The outcome depends on
    /// the new snapshot alone, never on what the store held before.
    pub fn replace(&mut self, snapshot: Snapshot)
        ensures
            final(self)@ == snapshot@,
    {
        self.current = snapshot;
    }
}

/// Law: a lookup never returns a torn read. When the store's live mapping
/// is one of two published snapshots, the answer is wholly the one
/// snapshot's answer or wholly the other's — never a value from neither.
pub proof fn lemma_lookup_untorn(live: Map<u64, u64>, a: Map<u64, u64>, b: Map<u64, u64>, id: u64)
    requires
        live == a || live == b,
    ensures
        lookup_in(live, id) == lookup_in(a, id) || lookup_in(live, id) == lookup_in(b, id),
{
}

/// Law: replacing twice with the same mapping is the same as replacing
/// once. The hypotheses are exactly what `replace` ensures after one and
/// after two installs of a snapshot whose entries are `scores`; every
/// subsequent lookup answers alike.
pub proof fn lemma_replace_idempotent(
    after_once: Map<u64, u64>,
    after_twice: Map<u64, u64>,
    scores: Map<u64, u64>,
)
    requires
        after_once == scores,
        after_twice == scores,
    ensures
        forall|id: u64| lookup_in(after_once, id) == lookup_in(after_twice, id),
{
}

} // verus!
