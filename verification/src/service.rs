//! The collaborator interface this layer is built over.
//!
//! Everything out of scope for the cache and index logic — the CRDT
//! document builder, the remote document-state fetch, and the persistent
//! key-value store — is reached through [`DatabaseCollabService`], which
//! the embedding application implements. Nothing is assumed of an
//! implementation: every contract in this crate states what holds whatever
//! these methods return.

use vstd::prelude::*;

use crate::database::DatabaseBody;
use crate::entity::{CollabDocState, CollabPersistenceConfig, CollabSnapshot, CollabType};
use crate::error::{DatabaseError, PersistenceError};
use crate::rows::{DatabaseRow, Row, RowId};

verus! {

/// Builds CRDT-backed objects, fetches remote document states, and fronts
/// the persistent store for one workspace and user.
pub trait DatabaseCollabService: Sized + Clone {
    /// Whether the shared persistent store handle can still be upgraded.
    /// The store is owned elsewhere and may have been torn down; every
    /// operation that needs it upgrades or fails.
    fn is_collab_db_available(&self) -> bool;

    /// Whether a document for the object exists in the local store.
    fn is_exist(&self, uid: i64, object_id: &str) -> bool;

    /// Deletes the persisted document of the object from the local store.
    fn delete_doc(&self, uid: i64, object_id: &str) -> Result<(), PersistenceError>;

    /// The snapshots the persistence layer has captured for the object.
    fn get_snapshots(&self, uid: i64, object_id: &str) -> Vec<CollabSnapshot>;

    /// Asks the remote service for the full encoded state of one object.
    /// An empty state in a successful reply stands for "not found".
    fn get_collab_doc_state(&self, object_id: &str, object_ty: CollabType) -> Result<
        CollabDocState,
        DatabaseError,
    >;

    /// Asks the remote service for the encoded states of several objects.
    /// Results are returned in the order they resolved, which need not be
    /// the order requested.
    fn batch_get_collab_update(&self, object_ids: Vec<String>, object_ty: CollabType) -> Result<
        Vec<(String, CollabDocState)>,
        DatabaseError,
    >;

    /// Builds the live object of one row document: loads the persisted
    /// document if one exists, applies `doc_state`, writes `initial` into
    /// a fresh document, and returns the content. Must not fail.
    fn build_row_collab(
        &self,
        uid: i64,
        row_id: &RowId,
        doc_state: CollabDocState,
        initial: Option<Row>,
        config: CollabPersistenceConfig,
    ) -> DatabaseRow;

    /// Whether the bytes decode as one CRDT update — the engine's answer.
    /// Restoration asks before handing a snapshot to the builder.
    fn update_decodes(&self, data: &[u8]) -> bool;

    /// Builds the body of one database document, in the same way. Must not
    /// fail.
    fn build_database_collab(
        &self,
        uid: i64,
        object_id: &str,
        doc_state: CollabDocState,
        initial: Option<DatabaseBody>,
        config: CollabPersistenceConfig,
    ) -> DatabaseBody;
}

} // verus!
