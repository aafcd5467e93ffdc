//! A read-mostly cache of numeric scores keyed by numeric identifiers.
//!
//! The cache holds one immutable snapshot of an identifier-to-score mapping
//! at a time. A refresh cycle builds a whole new snapshot from a fetched
//! batch of records and installs it atomically; lookups always answer from
//! the single snapshot that is current, and a failed refresh leaves the
//! previous snapshot in place.

pub mod lookup;
pub mod refresh;
pub mod scores;
pub mod snapshot;
pub mod store;
