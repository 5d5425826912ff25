//! Error types of the storage layer.

use vstd::prelude::*;

verus! {

/// Errors surfaced by collaborative-document plumbing.
#[derive(Clone, Debug)]
pub enum CollabError {
    /// A value could not be serialized or deserialized.
    SerdeJson(String),
    /// A value that must not be empty was empty.
    UnexpectedEmpty,
    /// A write transaction could not be acquired.
    AcquiredWriteTxnFail,
    /// The CRDT engine failed to apply a transaction.
    YrsTransactionError(String),
    /// The undo manager was not enabled for this document.
    UndoManagerNotEnabled,
    /// An encoded update could not be decoded.
    DecodeUpdate,
    /// Any other internal failure.
    Internal(String),
}

/// Errors surfaced by database lifecycle operations.
#[derive(Clone, Debug)]
pub enum DatabaseError {
    /// The requested database is not registered in the metadata index.
    DatabaseNotExist,
    /// The requested view could not be found.
    ViewNotExist,
    /// Parameters for creating a database or view failed validation.
    InvalidParams(String),
    /// The remote service failed to produce a document state.
    ServiceError(String),
    /// Any other internal failure.
    Internal(String),
}

/// Errors surfaced by the persistent key-value store.
#[derive(Clone, Debug)]
pub enum PersistenceError {
    /// The requested document was not found in the store.
    DocumentNotFound,
    /// The store rejected or failed an operation.
    StorageError(String),
    /// An encoded value could not be decoded.
    DecodeError(String),
}

} // verus!
