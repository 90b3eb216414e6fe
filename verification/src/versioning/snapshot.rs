//! Point-in-time snapshots of the version store. Reconstructing the state at
//! an instant is not implemented yet: a snapshot is empty and a diff between
//! two instants reports no change.

use vstd::prelude::*;
use crate::versioning::store::{VersionStore, VersionStoreError};
use crate::versioning::types::{EntityType, SnapshotQuery, Timestamp, VersionedRecord};

verus! {

/// Snapshot engine over a version store.
pub struct SnapshotEngine<'a> {
    store: &'a VersionStore,
}

/// Entities added, removed and modified between two instants.
#[derive(Debug)]
pub struct SnapshotDiff {
    pub from: Timestamp,
    pub to: Timestamp,
    pub added: Vec<String>,
    pub removed: Vec<String>,
    pub modified: Vec<ModifiedEntity>,
}

/// An entity whose version changed between two instants.
#[derive(Debug)]
pub struct ModifiedEntity {
    pub entity_id: String,
    pub from_version: u64,
    pub to_version: u64,
    pub from_hash: String,
    pub to_hash: String,
}

impl<'a> SnapshotEngine<'a> {
    /// The store this engine reads.
    pub closed spec fn source(&self) -> &'a VersionStore {
        self.store
    }

    /// A snapshot engine reading `store`.
    pub fn new(store: &'a VersionStore) -> (e: Self)
        ensures
            e.source() == store,
    {
        SnapshotEngine { store }
    }

    /// The latest version of each entity at or before `query.as_of`; not
    /// implemented yet, so always empty.
    pub fn snapshot_at(&self, query: &SnapshotQuery) -> (r: Result<Vec<VersionedRecord>, VersionStoreError>)
        ensures
            r matches Ok(v) && v@.len() == 0,
    {
        Ok(Vec::new())
    }

    /// The entities added, removed or modified between `from` and `to`; not
    /// implemented yet, so always an empty diff between the two instants.
    pub fn diff(&self, from: Timestamp, to: Timestamp, entity_types: &[EntityType]) -> (r: Result<SnapshotDiff, VersionStoreError>)
        ensures
            r matches Ok(d) && d.from == from && d.to == to && d.added@.len() == 0
                && d.removed@.len() == 0 && d.modified@.len() == 0,
    {
        Ok(SnapshotDiff { from, to, added: Vec::new(), removed: Vec::new(), modified: Vec::new() })
    }
}

} // verus!
