//! The disk-persistence plugin of one collaborative document, as a state
//! machine: it decides, for each lifecycle event the document raises,
//! what the persistence layer should do, and tracks what it has learned.

use vstd::prelude::*;

use crate::error::CollabError;

verus! {

/// What the persistence layer should do when a document initializes.
#[derive(Clone, Copy, PartialEq, Eq, Structural, Debug)]
pub enum DocInitAction {
    /// The document exists on disk: load it into the transaction.
    LoadFromDisk,
    /// The document is new: create it on disk.
    CreateNewDoc,
}

/// The disk plugin of one document: owner, what it has loaded so far, and
/// whether it may flush merged state back to disk.
#[derive(Debug)]
pub struct CollabDiskPlugin {
    pub uid: i64,
    pub did_load: bool,
    pub initial_update_count: u32,
    pub can_flush: bool,
}

impl CollabDiskPlugin {
    /// A plugin that never flushes merged state.
    pub fn new(uid: i64) -> (r: Result<Self, CollabError>)
        ensures
            r matches Ok(p) && p.uid == uid && !p.did_load && p.initial_update_count == 0
                && !p.can_flush,
    {
        Ok(CollabDiskPlugin { uid, did_load: false, initial_update_count: 0, can_flush: false })
    }

    /// A plugin with the flushing behaviour chosen by the caller.
    pub fn new_with_config(uid: i64, can_flush: bool) -> (r: Result<Self, CollabError>)
        ensures
            r matches Ok(p) && p.uid == uid && !p.did_load && p.initial_update_count == 0
                && p.can_flush == can_flush,
    {
        Ok(CollabDiskPlugin { uid, did_load: false, initial_update_count: 0, can_flush })
    }

    /// The document is initializing: load it when it exists on disk,
    /// create it otherwise.
    pub fn init(&self, doc_exists: bool) -> (r: DocInitAction)
        ensures
            r == (if doc_exists {
                DocInitAction::LoadFromDisk
            } else {
                DocInitAction::CreateNewDoc
            }),
    {
        if doc_exists {
            DocInitAction::LoadFromDisk
        } else {
            DocInitAction::CreateNewDoc
        }
    }

    /// Records how many persisted updates the load brought in.
    pub fn record_loaded_updates(&mut self, update_count: u32)
        ensures
            final(self).initial_update_count == update_count,
            final(self).uid == old(self).uid,
            final(self).did_load == old(self).did_load,
            final(self).can_flush == old(self).can_flush,
    {
        self.initial_update_count = update_count;
    }

    /// Initialization finished: the document should be flushed to disk
    /// exactly when updates were loaded and flushing is allowed. From
    /// here on, incoming updates are persisted.
    pub fn did_init(&mut self) -> (flush: bool)
        ensures
            flush == (old(self).initial_update_count > 0 && old(self).can_flush),
            final(self).did_load,
            final(self).uid == old(self).uid,
            final(self).initial_update_count == old(self).initial_update_count,
            final(self).can_flush == old(self).can_flush,
    {
        let flush = self.initial_update_count > 0 && self.can_flush;
        self.did_load = true;
        flush
    }

    /// An update arrived: it is pushed to disk exactly when the initial
    /// load has finished.
    pub fn did_receive_update(&self) -> (persist: bool)
        ensures
            persist == self.did_load,
    {
        self.did_load
    }
}

} // verus!
