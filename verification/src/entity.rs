//! Shared value types: object kinds, edit origins, document states,
//! persistence configuration and snapshots.

use vstd::prelude::*;

verus! {

/// The kind of collaborative object a document holds.
#[derive(Clone, Copy, PartialEq, Eq, Structural, Debug)]
pub enum CollabType {
    Document,
    Database,
    WorkspaceDatabase,
    Folder,
    DatabaseRow,
    UserAwareness,
}

/// The origin of an edit or message: a client device, the server, or unknown.
#[derive(Clone, Debug)]
pub enum CollabOrigin {
    Client(CollabClient),
    Server,
    Empty,
}

/// Identifies one client device of one user.
#[derive(Clone, Debug)]
pub struct CollabClient {
    pub uid: i64,
    pub device_id: String,
}

/// The encoded state of a collaborative document, as the CRDT engine
/// serializes it. An empty state stands for "no content".
pub type CollabDocState = Vec<u8>;

/// Configuration handed to the document builder: whether and how often the
/// engine should take snapshots while persisting updates.
#[derive(Clone, Copy, PartialEq, Eq, Structural, Debug)]
pub struct CollabPersistenceConfig {
    pub enable_snapshot: bool,
    pub snapshot_per_update: u32,
}

impl CollabPersistenceConfig {
    pub fn new() -> (r: Self)
        ensures
            r.enable_snapshot == false,
            r.snapshot_per_update == 100,
    {
        CollabPersistenceConfig { enable_snapshot: false, snapshot_per_update: 100 }
    }

    pub fn snapshot_per_update(self, n: u32) -> (r: Self)
        ensures
            r.enable_snapshot == self.enable_snapshot,
            r.snapshot_per_update == n,
    {
        CollabPersistenceConfig { snapshot_per_update: n, ..self }
    }
}

/// A snapshot of a document's state captured by the persistence layer.
#[derive(Clone, Debug)]
pub struct CollabSnapshot {
    pub data: Vec<u8>,
    pub created_at: i64,
}

} // verus!
