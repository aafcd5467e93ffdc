//! One refresh cycle: install what a successful fetch returned, keep the
//! previous snapshot when the fetch failed.
//!
//! The host process runs the periodic loop itself (sleep, fetch over the
//! network, repeat forever) and hands each cycle's outcome to
//! [`apply_fetch_result`]; the decision of what a cycle does to the store
//! lives here, where it is verified.

use crate::scores::IncomingUser;
use crate::scores::scores_of;
use crate::snapshot::Snapshot;
use crate::store::SnapshotStore;
use vstd::prelude::*;

verus! {

/// Why a refresh cycle produced no new snapshot. Non-fatal: the cycle is
/// skipped and the previous snapshot stays authoritative.
#[derive(Clone, Copy, Debug, PartialEq, Eq, Structural)]
pub enum FetchError {
    /// The data source could not be reached.
    Unreachable,
    /// The data source answered with a payload that could not be decoded.
    MalformedPayload,
}

impl SnapshotStore {
    /// Applies one fetch-and-install cycle's outcome to the store.
    ///
    /// On a successful fetch, builds the snapshot the batch denotes
    /// (last-write-wins for duplicate ids) and installs it wholesale,
    /// returning `true`. On a failed fetch, leaves the store exactly as it
    /// was and returns `false`: a single failed cycle is contained and
    /// never disturbs lookups.
    pub fn apply_fetch_result(
        &mut self,
        fetched: Result<Vec<IncomingUser>, FetchError>,
    ) -> (installed: bool)
        ensures
            match fetched {
                Ok(records) => installed && final(self)@ == scores_of(records@),
                Err(_) => !installed && final(self)@ == old(self)@,
            },
    {
        match fetched {
            Ok(records) => {
                let snapshot = Snapshot::from_records(&records);
                self.replace(snapshot);
                true
            },
            Err(_) => false,
        }
    }
}

} // verus!
