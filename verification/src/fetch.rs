//! The fetch-orchestration queue.
//!
//! A [`BlockTaskController`] decouples "cache miss" from "fetch
//! completed": call sites enqueue load requests without blocking, tagged
//! with a sequence number for diagnostics, and a worker step takes them
//! out in submission order and performs the remote call. The controller
//! itself deduplicates nothing: at-most-one-fetch-per-identifier is the
//! callers' concern, made by checking the cache before submitting.

use vstd::prelude::*;

use crate::rows::RowId;

verus! {

/// One queued load request.
#[derive(Debug)]
pub enum BlockTask {
    /// Load one row from the remote.
    FetchRow { uid: i64, row_id: RowId, seq: u32 },
    /// Load a batch of rows from the remote.
    BatchFetchRow { uid: i64, row_ids: Vec<RowId>, seq: u32 },
}

/// The abstract value of a queued request.
pub enum BlockTaskModel {
    FetchRow { uid: i64, row_id: Seq<char>, seq: u32 },
    BatchFetchRow { uid: i64, row_ids: Seq<Seq<char>>, seq: u32 },
}

impl View for BlockTask {
    type V = BlockTaskModel;

    open spec fn view(&self) -> BlockTaskModel {
        match self {
            BlockTask::FetchRow { uid, row_id, seq } => BlockTaskModel::FetchRow {
                uid: *uid,
                row_id: row_id@,
                seq: *seq,
            },
            BlockTask::BatchFetchRow { uid, row_ids, seq } => BlockTaskModel::BatchFetchRow {
                uid: *uid,
                row_ids: row_ids@.map_values(|r: RowId| r@),
                seq: *seq,
            },
        }
    }
}

/// A queue of pending load requests, served in submission order.
pub struct BlockTaskController {
    pending: Vec<BlockTask>,
}

impl View for BlockTaskController {
    type V = Seq<BlockTaskModel>;

    closed spec fn view(&self) -> Seq<BlockTaskModel> {
        self.pending@.map_values(|t: BlockTask| t@)
    }
}

impl BlockTaskController {
    /// An empty queue.
    pub fn new() -> (r: Self)
        ensures
            r@ == Seq::<BlockTaskModel>::empty(),
    {
        let r = BlockTaskController { pending: Vec::new() };
        proof {
            assert(r@ =~= Seq::<BlockTaskModel>::empty());
        }
        r
    }

    /// Enqueues a request; returns at once.
    pub fn add_task(&mut self, task: BlockTask)
        ensures
            final(self)@ == old(self)@.push(task@),
    {
        let ghost tv = task@;
        self.pending.push(task);
        proof {
            assert(self@ =~= old(self)@.push(tv));
        }
    }

    /// Takes the oldest pending request out, if there is one.
    pub fn take_next(&mut self) -> (r: Option<BlockTask>)
        ensures
            old(self)@.len() == 0 ==> r is None && final(self)@ == old(self)@,
            old(self)@.len() > 0 ==> {
                &&& (r matches Some(t) && t@ == old(self)@[0])
                &&& final(self)@ == old(self)@.drop_first()
            },
    {
        if self.pending.len() == 0 {
            None
        } else {
            let t = self.pending.remove(0);
            proof {
                assert(self@ =~= old(self)@.drop_first());
            }
            Some(t)
        }
    }

    /// The number of pending requests.
    pub fn len(&self) -> (r: usize)
        ensures
            r == self@.len(),
    {
        self.pending.len()
    }
}

} // verus!
