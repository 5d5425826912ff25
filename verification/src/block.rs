//! The row store of one database.
//!
//! A [`Block`] owns the bounded row cache and the fetch-orchestration
//! queue for one database's rows. It resolves reads through the cache,
//! falls back from "not on disk" to an orchestrated remote fetch that
//! never blocks the caller, and announces fetched rows as
//! [`BlockEvent::DidFetchRow`] events that any number of subscribers can
//! observe in delivery order.

use vstd::prelude::*;

use crate::cache::{pushed_keys, put_contents, touched_keys, BoundedObjectCache};
use crate::entity::CollabPersistenceConfig;
use crate::fetch::{BlockTask, BlockTaskController, BlockTaskModel};
use crate::rows::{DatabaseRow, Row, RowDetail, RowDetailModel, RowId, RowMeta};
use crate::service::DatabaseCollabService;

verus! {

/// How many rows one store caches at most.
pub const ROW_CACHE_SIZE: usize = 1000;

/// An event announced by a row store.
#[derive(Debug)]
pub enum BlockEvent {
    /// These rows were fetched from the remote.
    DidFetchRow(Vec<RowDetail>),
}

/// The abstract value of a row store event.
pub enum BlockEventModel {
    DidFetchRow(Seq<RowDetailModel>),
}

impl View for BlockEvent {
    type V = BlockEventModel;

    open spec fn view(&self) -> BlockEventModel {
        match self {
            BlockEvent::DidFetchRow(details) => BlockEventModel::DidFetchRow(
                details@.map_values(|d: RowDetail| d@),
            ),
        }
    }
}

impl Clone for BlockEvent {
    fn clone(&self) -> (r: Self)
        ensures
            r@ == self@,
    {
        match self {
            BlockEvent::DidFetchRow(details) => {
                let mut ds: Vec<RowDetail> = Vec::new();
                let mut i: usize = 0;
                while i < details.len()
                    invariant
                        i <= details.len(),
                        ds@.len() == i as int,
                        forall|j: int| 0 <= j < i ==> ds@[j]@ == details@[j]@,
                    decreases details.len() - i,
                {
                    ds.push(details[i].clone());
                    i = i + 1;
                }
                let r = BlockEvent::DidFetchRow(ds);
                proof {
                    assert(r@->0 =~= self@->0);
                }
                r
            },
        }
    }
}

/// A subscriber's position in a row store's event stream. A subscription
/// observes the events announced after it was taken, in order.
pub struct BlockEventReceiver {
    cursor: usize,
}

impl View for BlockEventReceiver {
    type V = int;

    closed spec fn view(&self) -> int {
        self.cursor as int
    }
}

/// The stored metadata of a live row object, or empty metadata when none
/// is stored.
pub open spec fn meta_or_empty(d: DatabaseRow) -> RowMeta {
    if (d.meta is Some) {
        d.meta->0
    } else {
        (RowMeta { icon_url: None, cover_url: None })
    }
}

/// Whether `d1` is `d0` with its metadata replaced by a result of `f`,
/// applied to the stored metadata or to empty metadata if none is stored.
pub open spec fn meta_updated_by<F: FnOnce(RowMeta) -> RowMeta>(
    f: F,
    d0: DatabaseRow,
    d1: DatabaseRow,
) -> bool {
    exists|out: RowMeta|
        {
            &&& #[trigger] f.ensures((meta_or_empty(d0),), out)
            &&& d1@.meta == Some(out@)
            &&& d1@.row_id == d0@.row_id
            &&& d1@.row == d0@.row
        }
}

/// The sequence number that follows `s`, wrapping around like the atomic
/// counter it stands for.
pub open spec fn next_seq(s: u32) -> u32 {
    if s == u32::MAX {
        0
    } else {
        (s + 1) as u32
    }
}

/// The row store of one database: row cache, fetch queue, sequence
/// counter and event stream.
pub struct Block<S: DatabaseCollabService> {
    pub uid: i64,
    pub collab_service: S,
    pub task_controller: BlockTaskController,
    pub sequence: u32,
    pub cache: BoundedObjectCache<DatabaseRow>,
    pub events: Vec<BlockEvent>,
}

impl<S: DatabaseCollabService> Block<S> {
    /// Internal consistency of the row cache.
    pub open spec fn wf(self) -> bool {
        self.cache.wf()
    }

    /// The event stream so far.
    pub open spec fn events_model(self) -> Seq<BlockEventModel> {
        self.events@.map_values(|e: BlockEvent| e@)
    }

    /// Everything except the fetch queue, the sequence counter and the
    /// event stream is unchanged: same owner, and the cache holds the
    /// same objects in the same recency order.
    pub open spec fn same_rows(self, other: Block<S>) -> bool {
        &&& self.uid == other.uid
        &&& self.cache.keys() == other.cache.keys()
        &&& self.cache.contents() == other.cache.contents()
        &&& self.cache.cap() == other.cache.cap()
    }

    /// The fetch queue, the sequence counter and the event stream are
    /// unchanged.
    pub open spec fn same_orchestration(self, other: Block<S>) -> bool {
        &&& self.task_controller@ == other.task_controller@
        &&& self.sequence == other.sequence
        &&& self.events@ == other.events@
    }

    /// A fresh row store: empty cache of the fixed row capacity, no
    /// pending fetches, no events, sequence zero.
    pub fn new(uid: i64, collab_service: S) -> (r: Self)
        ensures
            r.wf(),
            r.uid == uid,
            r.cache.cap() == ROW_CACHE_SIZE as nat,
            r.cache.keys() == Seq::<Seq<char>>::empty(),
            r.task_controller@ == Seq::<BlockTaskModel>::empty(),
            r.sequence == 0,
            r.events@ == Seq::<BlockEvent>::empty(),
    {
        Block {
            uid,
            collab_service,
            task_controller: BlockTaskController::new(),
            sequence: 0,
            cache: BoundedObjectCache::new(ROW_CACHE_SIZE),
            events: Vec::new(),
        }
    }

    /// Subscribes to the event stream: the receiver observes every event
    /// announced from this point on.
    pub fn subscribe_event(&self) -> (r: BlockEventReceiver)
        ensures
            r@ == self.events@.len(),
    {
        BlockEventReceiver { cursor: self.events.len() }
    }

    /// Hands the subscriber the next event it has not observed yet, if
    /// one has been announced.
    pub fn poll_event(&self, rx: &mut BlockEventReceiver) -> (r: Option<BlockEvent>)
        ensures
            old(rx)@ < self.events@.len() && old(rx)@ >= 0 ==> {
                &&& (r matches Some(e) && e@ == self.events@[old(rx)@]@)
                &&& final(rx)@ == old(rx)@ + 1
            },
            !(old(rx)@ < self.events@.len() && old(rx)@ >= 0) ==> r is None && final(rx)@ == old(rx)@,
    {
        if rx.cursor < self.events.len() {
            let e = self.events[rx.cursor].clone();
            rx.cursor = rx.cursor + 1;
            Some(e)
        } else {
            None
        }
    }

    /// Builds a new row object, caches it under its identifier —
    /// overwriting any same-id entry, with no existence check — and
    /// returns its ordering descriptor.
    pub fn create_row(&mut self, row: Row) -> (r: crate::rows::RowOrder)
        requires
            old(self).wf(),
        ensures
            final(self).wf(),
            final(self).uid == old(self).uid,
            final(self).cache.cap() == old(self).cache.cap(),
            old(self).same_orchestration(*final(self)),
            r.id@ == row.id@,
            r.height == row.height,
            final(self).cache.keys() == pushed_keys(
                old(self).cache.keys(),
                row.id@,
                old(self).cache.cap(),
            ),
            (exists|d: DatabaseRow|
                {
                    &&& d.row_id@ == row.id@
                    &&& d.row matches Some(rr) && rr@ == row@
                    &&& d.meta is None
                    &&& final(self).cache.contents() == put_contents(
                        old(self).cache.keys(),
                        old(self).cache.contents(),
                        row.id@,
                        d,
                        old(self).cache.cap(),
                    )
                }),
            final(self).cache.has(row.id@),
    {
        let row_id = row.id.clone();
        let row_order = crate::rows::RowOrder { id: row.id.clone(), height: row.height };
        let config = CollabPersistenceConfig::new().snapshot_per_update(100);
        let initial = row.clone();
        let _built = self.collab_service.build_row_collab(
            self.uid,
            &row_id,
            Vec::new(),
            Some(initial),
            config,
        );
        let key: String = row_id.as_str().to_owned();
        let cached = DatabaseRow { row_id, row: Some(row), meta: None };
        let ghost dg = cached;
        let _evicted = self.cache.put(key, cached);
        proof {
            assert(self.cache.keys()[0] == dg.row_id@);
            assert(self.cache.has(dg.row_id@));
            assert(dg.row_id@ == row_order.id@);
            assert(self.cache.contents() == put_contents(
                old(self).cache.keys(),
                old(self).cache.contents(),
                dg.row_id@,
                dg,
                old(self).cache.cap(),
            ));
        }
        row_order
    }

    /// Creates one row after another, returning their ordering
    /// descriptors in order.
    pub fn create_rows(&mut self, rows: Vec<Row>) -> (r: Vec<crate::rows::RowOrder>)
        requires
            old(self).wf(),
        ensures
            final(self).wf(),
            final(self).uid == old(self).uid,
            final(self).cache.cap() == old(self).cache.cap(),
            old(self).same_orchestration(*final(self)),
            r@.len() == rows@.len(),
            forall|i: int|
                0 <= i < rows@.len() ==> #[trigger] r@[i].id@ == rows@[i].id@ && r@[i].height
                    == rows@[i].height,
    {
        let mut row_orders: Vec<crate::rows::RowOrder> = Vec::new();
        let mut rest = rows;
        let ghost all = rest@;
        while rest.len() > 0
            invariant
                self.wf(),
                self.uid == old(self).uid,
                self.cache.cap() == old(self).cache.cap(),
                old(self).same_orchestration(*self),
                row_orders@.len() + rest@.len() == all.len(),
                rest@ == all.skip(row_orders@.len() as int),
                forall|j: int|
                    0 <= j < row_orders@.len() ==> #[trigger] row_orders@[j].id@ == all[j].id@
                        && row_orders@[j].height == all[j].height,
            decreases rest@.len(),
        {
            let ghost i = row_orders@.len() as int;
            let row = rest.remove(0);
            proof {
                assert(all.skip(i)[0] == all[i]);
                assert(rest@ =~= all.skip(i + 1));
            }
            let row_order = self.create_row(row);
            row_orders.push(row_order);
        }
        row_orders
    }

    /// Evicts rows from the cache without touching their persisted state.
    /// Used when rows scroll out of visibility.
    pub fn close_rows(&mut self, row_ids: &[RowId])
        requires
            old(self).wf(),
        ensures
            final(self).wf(),
            final(self).uid == old(self).uid,
            final(self).cache.cap() == old(self).cache.cap(),
            old(self).same_orchestration(*final(self)),
            forall|j: int| 0 <= j < row_ids@.len() ==> !final(self).cache.has(row_ids@[j]@),
            forall|x: Seq<char>|
                (forall|j: int| 0 <= j < row_ids@.len() ==> row_ids@[j]@ != x) ==> {
                    &&& #[trigger] final(self).cache.has(x) == old(self).cache.has(x)
                    &&& final(self).cache.contents().contains_key(x) ==> final(self).cache.contents()[x] == old(self).cache.contents()[x]
                },
    {
        let mut i: usize = 0;
        while i < row_ids.len()
            invariant
                self.wf(),
                self.uid == old(self).uid,
                self.cache.cap() == old(self).cache.cap(),
                old(self).same_orchestration(*self),
                i <= row_ids@.len(),
                forall|j: int| 0 <= j < i ==> !self.cache.has(row_ids@[j]@),
                forall|x: Seq<char>|
                    (forall|j: int| 0 <= j < row_ids@.len() ==> row_ids@[j]@ != x) ==> {
                        &&& #[trigger] self.cache.has(x) == old(self).cache.has(x)
                        &&& self.cache.contents().contains_key(x) ==> self.cache.contents()[x]
                            == old(self).cache.contents()[x]
                    },
            decreases row_ids@.len() - i,
        {
            let ghost prev = self.cache;
            let _ = self.cache.pop(row_ids[i].as_str());
            proof {
                let k = row_ids@[i as int]@;
                prev.lemma_wf_keys();
                crate::cache::lemma_remove_value_membership(prev.keys(), k);
                assert forall|j: int| 0 <= j <= i implies !self.cache.has(row_ids@[j]@) by {
                    if j < i {
                        assert(!prev.has(row_ids@[j]@) || row_ids@[j]@ == k);
                    }
                }
                assert forall|x: Seq<char>|
                    (forall|j: int| 0 <= j < row_ids@.len() ==> row_ids@[j]@ != x) implies {
                    &&& self.cache.has(x) == old(self).cache.has(x)
                    &&& self.cache.contents().contains_key(x) ==> self.cache.contents()[x] == old(self).cache.contents()[x]
                } by {
                    assert(row_ids@[i as int]@ != x);
                    assert(x != k);
                    assert(prev.has(x) == old(self).cache.has(x));
                    assert(self.cache.keys().contains(x) == prev.keys().contains(x));
                    if self.cache.contents().contains_key(x) {
                        assert(self.cache.contents()[x] == prev.contents()[x]);
                        assert(prev.contents().contains_key(x));
                    }
                }
            }
            i = i + 1;
        }
    }

    /// Removes a row from the cache and deletes its persisted document;
    /// storage failures are ignored, the logical removal stands.
    pub fn delete_row(&mut self, row_id: &RowId)
        requires
            old(self).wf(),
        ensures
            final(self).wf(),
            final(self).uid == old(self).uid,
            final(self).cache.cap() == old(self).cache.cap(),
            old(self).same_orchestration(*final(self)),
            final(self).cache.keys() == old(self).cache.keys().remove_value(row_id@),
            final(self).cache.contents() == old(self).cache.contents().remove(row_id@),
            !final(self).cache.has(row_id@),
    {
        let ghost prev = self.cache;
        let _row = self.cache.pop(row_id.as_str());
        let _ = self.collab_service.delete_doc(self.uid, row_id.as_str());
        proof {
            prev.lemma_wf_keys();
            crate::cache::lemma_remove_value_membership(prev.keys(), row_id@);
        }
    }

    /// Submits a batch fetch for the given rows, tagged with the next
    /// sequence number. Returns at once; results arrive as events.
    pub fn batch_load_rows(&mut self, row_ids: Vec<RowId>)
        ensures
            final(self).uid == old(self).uid,
            final(self).cache == old(self).cache,
            old(self).same_rows(*final(self)),
            final(self).events@ == old(self).events@,
            final(self).sequence == next_seq(old(self).sequence),
            final(self).task_controller@ == old(self).task_controller@.push(
                BlockTaskModel::BatchFetchRow {
                    uid: old(self).uid,
                    row_ids: row_ids@.map_values(|r: RowId| r@),
                    seq: old(self).sequence,
                },
            ),
    {
        let task = BlockTask::BatchFetchRow {
            uid: self.uid,
            row_ids,
            seq: self.sequence,
        };
        self.task_controller.add_task(task);
        self.sequence = if self.sequence == u32::MAX {
            0
        } else {
            self.sequence + 1
        };
    }

    /// One worker step of the fetch orchestration: takes the oldest
    /// pending request, asks the remote for the encoded states of its
    /// rows, and announces each row that resolved — in resolution order —
    /// as an event. A failed remote call resolves nothing and announces
    /// nothing. The row cache is never touched: rows enter it only
    /// through the resolution path.
    pub fn process_next_task(&mut self)
        requires
            old(self).wf(),
        ensures
            final(self).wf(),
            final(self).uid == old(self).uid,
            final(self).sequence == old(self).sequence,
            final(self).cache.keys() == old(self).cache.keys(),
            final(self).cache.contents() == old(self).cache.contents(),
            final(self).cache.cap() == old(self).cache.cap(),
            old(self).task_controller@.len() == 0 ==> final(self).task_controller@ == old(
                self,
            ).task_controller@ && final(self).events@ == old(self).events@,
            old(self).task_controller@.len() > 0 ==> final(self).task_controller@ == old(
                self,
            ).task_controller@.drop_first(),
            final(self).events@.len() >= old(self).events@.len(),
            forall|i: int|
                0 <= i < old(self).events@.len() ==> #[trigger] final(self).events@[i] == old(
                    self,
                ).events@[i],
            forall|i: int|
                old(self).events@.len() <= i < final(self).events@.len() ==> (#[trigger] final(self).events@[i]@ matches BlockEventModel::DidFetchRow(ds) && ds.len() == 1),
    {
        let task = match self.task_controller.take_next() {
            None => {
                return ;
            },
            Some(t) => t,
        };
        let ids: Vec<RowId> = match task {
            BlockTask::FetchRow { row_id, .. } => {
                let mut v: Vec<RowId> = Vec::new();
                v.push(row_id);
                v
            },
            BlockTask::BatchFetchRow { row_ids, .. } => row_ids,
        };
        let mut id_strings: Vec<String> = Vec::new();
        let mut i: usize = 0;
        while i < ids.len()
            invariant
                i <= ids@.len(),
            decreases ids@.len() - i,
        {
            id_strings.push(ids[i].as_str().to_owned());
            i = i + 1;
        }
        match self.collab_service.batch_get_collab_update(
            id_strings,
            crate::entity::CollabType::DatabaseRow,
        ) {
            Err(_) => {
            },
            Ok(results) => {
                let ghost n0 = self.events@.len();
                let ghost m = results@.len();
                self.deliver_batch_reply(results);
                proof {
                    assert forall|i: int| n0 <= i < self.events@.len() implies (#[trigger] self.events@[i]@ matches BlockEventModel::DidFetchRow(ds)
                        && ds.len() == 1) by {
                        let k = i - n0;
                        assert(0 <= k < m);
                        assert(self.events@[n0 + k]@ matches BlockEventModel::DidFetchRow(ds2)
                            && ds2.len() == 1);
                        assert(n0 + k == i);
                    }
                }
            },
        }
    }

    /// Converts one remote reply into announcements: each pair's row
    /// object is built from its returned state, and exactly one event per
    /// reply pair is announced, in reply order. What a built row holds is
    /// the builder's; a document that holds no row is announced as the
    /// empty row carrying the pair's identifier.
    pub fn deliver_batch_reply(&mut self, results: Vec<(String, crate::entity::CollabDocState)>)
        ensures
            final(self).uid == old(self).uid,
            final(self).cache == old(self).cache,
            old(self).same_rows(*final(self)),
            final(self).task_controller@ == old(self).task_controller@,
            final(self).sequence == old(self).sequence,
            final(self).events@.len() == old(self).events@.len() + results@.len(),
            forall|i: int|
                0 <= i < old(self).events@.len() ==> #[trigger] final(self).events@[i] == old(
                    self,
                ).events@[i],
            forall|i: int|
                0 <= i < results@.len() ==> (#[trigger] final(self).events@[old(
                    self,
                ).events@.len() + i]@ matches BlockEventModel::DidFetchRow(ds) && ds.len() == 1),
    {
        let ghost total = results@.len();
        let mut details: Vec<RowDetail> = Vec::new();
        let mut rest = results;
        while rest.len() > 0
            invariant
                self == old(self),
                details@.len() + rest@.len() == total,
            decreases rest@.len(),
        {
            let (oid, state) = rest.remove(0);
            let rid = RowId::new(oid);
            let config = CollabPersistenceConfig::new().snapshot_per_update(100);
            let built = self.collab_service.build_row_collab(self.uid, &rid, state, None, config);
            let row = match built.row {
                Some(r) => r,
                None => Row::empty(rid),
            };
            let meta = match built.meta {
                Some(m) => m,
                None => RowMeta::empty(),
            };
            details.push(RowDetail { row, meta });
        }
        self.deliver_fetched_rows(details);
    }

    /// Resolves a cache miss from local state: when the row's document
    /// exists locally, builds the live object, caches it and returns it;
    /// otherwise submits a single-row fetch tagged with the next sequence
    /// number and returns nothing, without waiting.
    pub fn init_row_from_local(&mut self, row_id: &RowId, exists_locally: bool) -> (r: Option<
        DatabaseRow,
    >)
        requires
            old(self).wf(),
        ensures
            final(self).wf(),
            final(self).uid == old(self).uid,
            final(self).cache.cap() == old(self).cache.cap(),
            !exists_locally ==> {
                &&& r is None
                &&& old(self).same_rows(*final(self))
                &&& final(self).events@ == old(self).events@
                &&& final(self).sequence == next_seq(old(self).sequence)
                &&& final(self).task_controller@ == old(self).task_controller@.push(
                    BlockTaskModel::FetchRow {
                        uid: old(self).uid,
                        row_id: row_id@,
                        seq: old(self).sequence,
                    },
                )
            },
            exists_locally ==> {
                &&& old(self).same_orchestration(*final(self))
                &&& (r matches Some(d) && d.row_id@ == row_id@ && final(self).cache.has(row_id@)
                    && final(self).cache.contents()[row_id@]@ == d@)
                &&& final(self).cache.keys() == pushed_keys(
                    old(self).cache.keys(),
                    row_id@,
                    old(self).cache.cap(),
                )
                &&& (exists|c: DatabaseRow|
                    final(self).cache.contents() == put_contents(
                        old(self).cache.keys(),
                        old(self).cache.contents(),
                        row_id@,
                        c,
                        old(self).cache.cap(),
                    ))
            },
            forall|k: Seq<char>|
                k != row_id@ && #[trigger] final(self).cache.contents().contains_key(k) ==> old(
                    self,
                ).cache.contents().contains_key(k) && final(self).cache.contents()[k] == old(
                    self,
                ).cache.contents()[k],
            old(self).cache.keys().len() < old(self).cache.cap() ==> (forall|k: Seq<char>|
                k != row_id@ && #[trigger] old(self).cache.contents().contains_key(k) ==> final(self).cache.contents().contains_key(k) && final(self).cache.contents()[k] == old(
                    self,
                ).cache.contents()[k]),
    {
        if exists_locally {
            let config = CollabPersistenceConfig::new().snapshot_per_update(100);
            let built = self.collab_service.build_row_collab(
                self.uid,
                row_id,
                Vec::new(),
                None,
                config,
            );
            let cached = DatabaseRow { row_id: row_id.clone(), row: built.row, meta: built.meta };
            let ghost cg = cached;
            let d = cached.clone();
            let key: String = row_id.as_str().to_owned();
            let _evicted = self.cache.put(key, cached);
            proof {
                assert(self.cache.keys()[0] == row_id@);
                assert(self.cache.has(row_id@));
                assert(self.cache.contents() == put_contents(
                    old(self).cache.keys(),
                    old(self).cache.contents(),
                    row_id@,
                    cg,
                    old(self).cache.cap(),
                ));
                assert(self.cache.contents()[row_id@] == cg);
                assert(d@ == cg@);
            }
            Some(d)
        } else {
            let task = BlockTask::FetchRow {
                uid: self.uid,
                row_id: row_id.clone(),
                seq: self.sequence,
            };
            self.task_controller.add_task(task);
            self.sequence = if self.sequence == u32::MAX {
                0
            } else {
                self.sequence + 1
            };
            None
        }
    }

    /// Resolves a row through the cache: a hit comes straight back; on a
    /// miss the row is built from the local store if its document exists
    /// there, and otherwise a remote fetch is submitted and nothing is
    /// returned — the caller never blocks. Any object returned is the one
    /// now cached under the identifier, so two calls without an eviction
    /// in between hand out the same object.
    pub fn get_or_init_row(&mut self, row_id: &RowId) -> (r: Option<DatabaseRow>)
        requires
            old(self).wf(),
        ensures
            final(self).wf(),
            final(self).uid == old(self).uid,
            final(self).cache.cap() == old(self).cache.cap(),
            r matches Some(d) ==> final(self).cache.has(row_id@) && final(self).cache.contents()[row_id@]@ == d@,
            old(self).cache.has(row_id@) ==> (r is None && *final(self) == *old(self)) || {
                &&& (r matches Some(d) && d@ == old(self).cache.contents()[row_id@]@)
                &&& final(self).cache.contents() == old(self).cache.contents()
                &&& final(self).cache.keys() == touched_keys(old(self).cache.keys(), row_id@)
                &&& old(self).same_orchestration(*final(self))
            },
            !old(self).cache.has(row_id@) ==> (r is None && *final(self) == *old(self)) || {
                ||| {
                    &&& r is None
                    &&& old(self).same_rows(*final(self))
                    &&& final(self).events@ == old(self).events@
                    &&& final(self).sequence == next_seq(old(self).sequence)
                    &&& final(self).task_controller@ == old(self).task_controller@.push(
                        BlockTaskModel::FetchRow {
                            uid: old(self).uid,
                            row_id: row_id@,
                            seq: old(self).sequence,
                        },
                    )
                }
                ||| {
                    &&& (r matches Some(d) && d.row_id@ == row_id@)
                    &&& old(self).same_orchestration(*final(self))
                    &&& final(self).cache.keys() == pushed_keys(
                        old(self).cache.keys(),
                        row_id@,
                        old(self).cache.cap(),
                    )
                    &&& (exists|c: DatabaseRow|
                        final(self).cache.contents() == put_contents(
                            old(self).cache.keys(),
                            old(self).cache.contents(),
                            row_id@,
                            c,
                            old(self).cache.cap(),
                        ))
                }
            },
            forall|k: Seq<char>|
                k != row_id@ && #[trigger] final(self).cache.contents().contains_key(k) ==> old(
                    self,
                ).cache.contents().contains_key(k) && final(self).cache.contents()[k] == old(
                    self,
                ).cache.contents()[k],
            final(self).cache.keys() == old(self).cache.keys() || final(self).cache.keys()
                == touched_keys(old(self).cache.keys(), row_id@) || final(self).cache.keys()
                == pushed_keys(old(self).cache.keys(), row_id@, old(self).cache.cap()),
            old(self).cache.keys().len() < old(self).cache.cap() ==> (forall|k: Seq<char>|
                #[trigger] old(self).cache.contents().contains_key(k) ==> final(self).cache.contents().contains_key(k) && final(self).cache.contents()[k] == old(
                    self,
                ).cache.contents()[k]),
    {
        if !self.collab_service.is_collab_db_available() {
            return None;
        }
        let hit = match self.cache.get(row_id.as_str()) {
            Some(d) => Some(d.clone()),
            None => None,
        };
        match hit {
            Some(d) => {
                proof {
                    assert(self.cache.keys() == touched_keys(
                        old(self).cache.keys(),
                        row_id@,
                    ));
                    assert(self.cache.keys()[0] == row_id@);
                    assert(self.cache.has(row_id@));
                }
                Some(d)
            },
            None => {
                proof {
                    old(self).cache.lemma_wf_dom();
                }
                let exists_locally = self.collab_service.is_exist(self.uid, row_id.as_str());
                self.init_row_from_local(row_id, exists_locally)
            },
        }
    }

    /// The row with the given identifier, read from the cached or locally
    /// built object; an empty row carrying the identifier when the row is
    /// not resolved — a fetch may have been submitted, but this call never
    /// fails and never waits.
    pub fn get_row(&mut self, row_id: &RowId) -> (r: Row)
        requires
            old(self).wf(),
        ensures
            final(self).wf(),
            final(self).uid == old(self).uid,
            final(self).cache.cap() == old(self).cache.cap(),
            r@ == crate::rows::RowView::empty(row_id@) || (final(self).cache.has(row_id@)
                && final(self).cache.contents()[row_id@]@.row == Some(r@)),
            !old(self).cache.has(row_id@) && !final(self).cache.has(row_id@) ==> r@
                == crate::rows::RowView::empty(row_id@),
            old(self).cache.has(row_id@) ==> r@ == crate::rows::RowView::empty(row_id@) || (old(self).cache.contents()[row_id@]@.row matches Some(rv) && r@ == rv),
            forall|k: Seq<char>|
                k != row_id@ && #[trigger] final(self).cache.contents().contains_key(k) ==> old(
                    self,
                ).cache.contents().contains_key(k) && final(self).cache.contents()[k] == old(
                    self,
                ).cache.contents()[k],
            final(self).cache.keys() == old(self).cache.keys() || final(self).cache.keys()
                == touched_keys(old(self).cache.keys(), row_id@) || final(self).cache.keys()
                == pushed_keys(old(self).cache.keys(), row_id@, old(self).cache.cap()),
            old(self).cache.keys().len() < old(self).cache.cap() ==> (forall|k: Seq<char>|
                #[trigger] old(self).cache.contents().contains_key(k) ==> final(self).cache.contents().contains_key(k) && final(self).cache.contents()[k] == old(
                    self,
                ).cache.contents()[k]),
            old(self).same_orchestration(*final(self)) || {
                &&& final(self).events@ == old(self).events@
                &&& final(self).sequence == next_seq(old(self).sequence)
                &&& final(self).task_controller@ == old(self).task_controller@.push(
                    BlockTaskModel::FetchRow {
                        uid: old(self).uid,
                        row_id: row_id@,
                        seq: old(self).sequence,
                    },
                )
            },
    {
        match self.get_or_init_row(row_id) {
            Some(d) => match d.row {
                Some(rr) => rr,
                None => Row::empty(row_id.clone()),
            },
            None => Row::empty(row_id.clone()),
        }
    }

    /// The metadata of the row: empty metadata when the row resolves but
    /// has none stored, and nothing at all when the row itself could not
    /// be resolved.
    pub fn get_row_meta(&mut self, row_id: &RowId) -> (r: Option<RowMeta>)
        requires
            old(self).wf(),
        ensures
            final(self).wf(),
            final(self).uid == old(self).uid,
            final(self).cache.cap() == old(self).cache.cap(),
            r matches Some(m) ==> final(self).cache.has(row_id@) && {
                ||| final(self).cache.contents()[row_id@]@.meta == Some(m@)
                ||| (final(self).cache.contents()[row_id@]@.meta is None && m@
                    == crate::rows::RowMetaView::empty())
            },
            !old(self).cache.has(row_id@) && !final(self).cache.has(row_id@) ==> r is None,
            forall|k: Seq<char>|
                k != row_id@ && #[trigger] final(self).cache.contents().contains_key(k) ==> old(
                    self,
                ).cache.contents().contains_key(k) && final(self).cache.contents()[k] == old(
                    self,
                ).cache.contents()[k],
            final(self).cache.keys() == old(self).cache.keys() || final(self).cache.keys()
                == touched_keys(old(self).cache.keys(), row_id@) || final(self).cache.keys()
                == pushed_keys(old(self).cache.keys(), row_id@, old(self).cache.cap()),
            old(self).cache.keys().len() < old(self).cache.cap() ==> (forall|k: Seq<char>|
                #[trigger] old(self).cache.contents().contains_key(k) ==> final(self).cache.contents().contains_key(k) && final(self).cache.contents()[k] == old(
                    self,
                ).cache.contents()[k]),
            old(self).same_orchestration(*final(self)) || {
                &&& final(self).events@ == old(self).events@
                &&& final(self).sequence == next_seq(old(self).sequence)
                &&& final(self).task_controller@ == old(self).task_controller@.push(
                    BlockTaskModel::FetchRow {
                        uid: old(self).uid,
                        row_id: row_id@,
                        seq: old(self).sequence,
                    },
                )
            },
    {
        match self.get_or_init_row(row_id) {
            Some(d) => match d.meta {
                Some(m) => Some(m),
                None => Some(RowMeta::empty()),
            },
            None => None,
        }
    }

    /// One cell of the row, or nothing when the row is unresolved or the
    /// field is absent.
    pub fn get_cell(&mut self, row_id: &RowId, field_id: &str) -> (r: Option<crate::rows::Cell>)
        requires
            old(self).wf(),
        ensures
            final(self).wf(),
            final(self).uid == old(self).uid,
            final(self).cache.cap() == old(self).cache.cap(),
            r matches Some(c) ==> final(self).cache.has(row_id@) && (final(self).cache.contents()[row_id@]@.row matches Some(rv) && crate::rows::spec_cell_in(
                rv.cells,
                field_id@,
            ) == Some(c@)),
            !old(self).cache.has(row_id@) && !final(self).cache.has(row_id@) ==> r is None,
            forall|k: Seq<char>|
                k != row_id@ && #[trigger] final(self).cache.contents().contains_key(k) ==> old(
                    self,
                ).cache.contents().contains_key(k) && final(self).cache.contents()[k] == old(
                    self,
                ).cache.contents()[k],
            final(self).cache.keys() == old(self).cache.keys() || final(self).cache.keys()
                == touched_keys(old(self).cache.keys(), row_id@) || final(self).cache.keys()
                == pushed_keys(old(self).cache.keys(), row_id@, old(self).cache.cap()),
            old(self).cache.keys().len() < old(self).cache.cap() ==> (forall|k: Seq<char>|
                #[trigger] old(self).cache.contents().contains_key(k) ==> final(self).cache.contents().contains_key(k) && final(self).cache.contents()[k] == old(
                    self,
                ).cache.contents()[k]),
            old(self).same_orchestration(*final(self)) || {
                &&& final(self).events@ == old(self).events@
                &&& final(self).sequence == next_seq(old(self).sequence)
                &&& final(self).task_controller@ == old(self).task_controller@.push(
                    BlockTaskModel::FetchRow {
                        uid: old(self).uid,
                        row_id: row_id@,
                        seq: old(self).sequence,
                    },
                )
            },
    {
        match self.get_or_init_row(row_id) {
            Some(d) => match d.row {
                Some(rr) => rr.get_cell(field_id),
                None => None,
            },
            None => None,
        }
    }

    /// The rows of the given ordering descriptors, one each and in order;
    /// a row that does not resolve is returned empty, carrying its
    /// identifier. Rows not named by any descriptor are never modified,
    /// and while the cache has room for every descriptor, nothing is
    /// evicted: every previously cached row survives unchanged and every
    /// returned row is either the empty row of its descriptor or the
    /// content of the object cached under the descriptor's id.
    pub fn get_rows_from_row_orders(&mut self, row_orders: &[crate::rows::RowOrder]) -> (r: Vec<
        Row,
    >)
        requires
            old(self).wf(),
        ensures
            final(self).wf(),
            final(self).uid == old(self).uid,
            final(self).cache.cap() == old(self).cache.cap(),
            r@.len() == row_orders@.len(),
            forall|k: Seq<char>|
                (forall|j: int| 0 <= j < row_orders@.len() ==> row_orders@[j].id@ != k)
                    && #[trigger] final(self).cache.contents().contains_key(k) ==> old(self).cache.contents().contains_key(k) && final(self).cache.contents()[k] == old(self).cache.contents()[k],
            final(self).events@ == old(self).events@,
            final(self).task_controller@.len() >= old(self).task_controller@.len(),
            final(self).task_controller@.len() <= old(self).task_controller@.len()
                + row_orders@.len(),
            final(self).task_controller@.subrange(0, old(self).task_controller@.len() as int)
                == old(self).task_controller@,
            forall|j: int|
                old(self).task_controller@.len() <= j < final(self).task_controller@.len()
                    ==> #[trigger] final(self).task_controller@[j] is FetchRow,
            old(self).cache.keys().len() + row_orders@.len() <= old(self).cache.cap() ==> {
                &&& (forall|k: Seq<char>| #[trigger]
                    old(self).cache.contents().contains_key(k) ==> final(self).cache.contents().contains_key(k) && final(self).cache.contents()[k] == old(self).cache.contents()[k])
                &&& (forall|i: int|
                    #![trigger row_orders@[i]]
                    0 <= i < row_orders@.len() ==> r@[i]@ == crate::rows::RowView::empty(
                        row_orders@[i].id@,
                    ) || (final(self).cache.contents().contains_key(row_orders@[i].id@) && final(self).cache.contents()[row_orders@[i].id@]@.row == Some(r@[i]@)))
                &&& (forall|i: int|
                    #![trigger row_orders@[i]]
                    0 <= i < row_orders@.len() && old(self).cache.contents().contains_key(
                        row_orders@[i].id@,
                    ) ==> r@[i]@ == crate::rows::RowView::empty(row_orders@[i].id@) || (old(self).cache.contents()[row_orders@[i].id@]@.row matches Some(rv) && r@[i]@
                        == rv))
            },
    {
        let ghost m0 = old(self).cache.contents();
        let ghost ks0len = old(self).cache.keys().len();
        let ghost cap = old(self).cache.cap();
        let ghost small = ks0len + row_orders@.len() <= cap;
        let ghost tc0 = old(self).task_controller@;
        let mut rows: Vec<Row> = Vec::new();
        let mut i: usize = 0;
        while i < row_orders.len()
            invariant
                self.wf(),
                self.uid == old(self).uid,
                self.cache.cap() == cap,
                m0 == old(self).cache.contents(),
                ks0len == old(self).cache.keys().len(),
                small == (ks0len + row_orders@.len() <= cap),
                tc0 == old(self).task_controller@,
                i <= row_orders@.len(),
                rows@.len() == i as int,
                self.events@ == old(self).events@,
                tc0.len() <= self.task_controller@.len() <= tc0.len() + i,
                self.task_controller@.subrange(0, tc0.len() as int) == tc0,
                forall|j: int|
                    tc0.len() <= j < self.task_controller@.len() ==> #[trigger] self.task_controller@[j] is FetchRow,
                forall|k: Seq<char>|
                    (forall|j: int| 0 <= j < row_orders@.len() ==> row_orders@[j].id@ != k)
                        && #[trigger] self.cache.contents().contains_key(k) ==> m0.contains_key(
                        k,
                    ) && self.cache.contents()[k] == m0[k],
                small ==> {
                    &&& self.cache.keys().len() <= ks0len + i
                    &&& (forall|k: Seq<char>| #[trigger]
                        m0.contains_key(k) ==> self.cache.contents().contains_key(k)
                            && self.cache.contents()[k] == m0[k])
                    &&& (forall|j: int|
                        #![trigger row_orders@[j]]
                        0 <= j < i ==> rows@[j]@ == crate::rows::RowView::empty(
                            row_orders@[j].id@,
                        ) || (self.cache.contents().contains_key(row_orders@[j].id@)
                            && self.cache.contents()[row_orders@[j].id@]@.row == Some(
                            rows@[j]@,
                        )))
                    &&& (forall|j: int|
                        #![trigger row_orders@[j]]
                        0 <= j < i && m0.contains_key(row_orders@[j].id@) ==> rows@[j]@
                            == crate::rows::RowView::empty(row_orders@[j].id@) || (m0[row_orders@[j].id@]@.row matches Some(rv) && rows@[j]@ == rv))
                },
            decreases row_orders@.len() - i,
        {
            let ghost pre_keys = self.cache.keys();
            let ghost pre_m = self.cache.contents();
            let ghost pre_tc = self.task_controller@;
            proof {
                self.cache.lemma_wf_keys();
                self.cache.lemma_wf_dom();
            }
            let row = self.get_row(&row_orders[i].id);
            proof {
                if self.task_controller@ != pre_tc {
                    assert(self.task_controller@.len() == pre_tc.len() + 1);
                    assert(self.task_controller@.subrange(0, pre_tc.len() as int) =~= pre_tc);
                    assert(self.task_controller@.subrange(0, tc0.len() as int) =~= tc0) by {
                        assert(forall|j: int|
                            0 <= j < tc0.len() ==> self.task_controller@[j] == pre_tc[j]);
                        assert(pre_tc.subrange(0, tc0.len() as int) == tc0);
                        assert(forall|j: int|
                            0 <= j < tc0.len() ==> pre_tc[j] == pre_tc.subrange(
                                0,
                                tc0.len() as int,
                            )[j]);
                    }
                    assert(self.task_controller@[pre_tc.len() as int] is FetchRow);
                    assert forall|j: int|
                        tc0.len() <= j < self.task_controller@.len() implies #[trigger] self.task_controller@[j] is FetchRow by {
                        if j < pre_tc.len() {
                            assert(self.task_controller@[j] == pre_tc[j]);
                        }
                    }
                }
                self.cache.lemma_wf_dom();
                let id = row_orders@[i as int].id@;
                // The recency order grows by at most one key per step.
                crate::cache::lemma_remove_value_membership(pre_keys, id);
                assert(pre_keys.remove_value(id).len() <= pre_keys.len()) by {
                    pre_keys.index_of_first_ensures(id);
                }
                assert(self.cache.keys().len() <= pre_keys.len() + 1);
                if small {
                    assert(pre_keys.len() < cap);
                    assert(forall|k: Seq<char>| #[trigger]
                        pre_m.contains_key(k) ==> self.cache.contents().contains_key(k)
                            && self.cache.contents()[k] == pre_m[k]);
                    if pre_m.contains_key(id) {
                        assert(self.cache.contents()[id] == pre_m[id]);
                    }
                }
            }
            rows.push(row);
            i = i + 1;
        }
        rows
    }

    /// Applies a mutation to the cached row object's content. A row that
    /// is not cached is left alone: mutation never triggers a fetch.
    pub fn update_row<F: FnOnce(Row) -> Row>(&mut self, row_id: &RowId, f: F)
        requires
            old(self).wf(),
            forall|rr: Row| f.requires((rr,)),
        ensures
            final(self).wf(),
            final(self).uid == old(self).uid,
            final(self).cache.cap() == old(self).cache.cap(),
            old(self).same_orchestration(*final(self)),
            !old(self).cache.has(row_id@) ==> final(self).cache.keys() == old(self).cache.keys()
                && final(self).cache.contents() == old(self).cache.contents(),
            old(self).cache.has(row_id@) ==> {
                &&& final(self).cache.keys() == touched_keys(old(self).cache.keys(), row_id@)
                &&& final(self).cache.has(row_id@)
                &&& ({
                    let d0 = old(self).cache.contents()[row_id@];
                    let d1 = final(self).cache.contents()[row_id@];
                    match d0.row {
                        Some(rr) => (exists|out: Row|
                            {
                                &&& #[trigger] f.ensures((rr,), out)
                                &&& d1@.row == Some(out@)
                                &&& d1@.row_id == d0@.row_id
                                &&& d1@.meta == d0@.meta
                            }),
                        None => d1@ == d0@,
                    }
                })
                &&& (forall|x: Seq<char>|
                    x != row_id@ ==> #[trigger] final(self).cache.contents().contains_key(x) == old(self).cache.contents().contains_key(x) && (final(self).cache.contents().contains_key(x) ==> final(self).cache.contents()[x] == old(self).cache.contents()[x]))
            },
    {
        let ghost prev = self.cache;
        match self.cache.pop(row_id.as_str()) {
            None => {
                proof {
                    prev.lemma_wf_keys();
                    prev.lemma_wf_dom();
                    crate::cache::lemma_remove_value_membership(prev.keys(), row_id@);
                    assert(!prev.contents().contains_key(row_id@));
                    assert(self.cache.contents() =~= prev.contents());
                }
            },
            Some(d) => {
                let DatabaseRow { row_id: rid, row, meta } = d;
                let row2 = match row {
                    Some(rr) => Some(f(rr)),
                    None => None,
                };
                let d2 = DatabaseRow { row_id: rid, row: row2, meta };
                let ghost d2g = d2;
                let key: String = row_id.as_str().to_owned();
                let _ = self.cache.put(key, d2);
                proof {
                    prev.lemma_wf_keys();
                    crate::cache::lemma_remove_value_membership(prev.keys(), row_id@);
                    let mid_keys = prev.keys().remove_value(row_id@);
                    assert(!mid_keys.contains(row_id@));
                    assert(mid_keys.len() < prev.cap());
                    assert(self.cache.keys() == seq![row_id@] + mid_keys);
                    assert(self.cache.keys() == touched_keys(prev.keys(), row_id@));
                    assert(self.cache.contents() =~= prev.contents().insert(row_id@, d2g));
                    assert(self.cache.has(row_id@)) by {
                        assert(self.cache.keys()[0] == row_id@);
                    }
                }
            },
        }
    }

    /// Applies a mutation to the cached row object's metadata, starting
    /// from empty metadata where none is stored. A row that is not cached
    /// is left alone.
    pub fn update_row_meta<F: FnOnce(RowMeta) -> RowMeta>(&mut self, row_id: &RowId, f: F)
        requires
            old(self).wf(),
            forall|m: RowMeta| f.requires((m,)),
        ensures
            final(self).wf(),
            final(self).uid == old(self).uid,
            final(self).cache.cap() == old(self).cache.cap(),
            old(self).same_orchestration(*final(self)),
            !old(self).cache.has(row_id@) ==> final(self).cache.keys() == old(self).cache.keys()
                && final(self).cache.contents() == old(self).cache.contents(),
            old(self).cache.has(row_id@) ==> {
                &&& final(self).cache.keys() == touched_keys(old(self).cache.keys(), row_id@)
                &&& final(self).cache.has(row_id@)
                &&& meta_updated_by(
                    f,
                    old(self).cache.contents()[row_id@],
                    final(self).cache.contents()[row_id@],
                )
            },
    {
        let ghost prev = self.cache;
        match self.cache.pop(row_id.as_str()) {
            None => {
                proof {
                    prev.lemma_wf_keys();
                    prev.lemma_wf_dom();
                    crate::cache::lemma_remove_value_membership(prev.keys(), row_id@);
                    assert(!prev.contents().contains_key(row_id@));
                    assert(self.cache.contents() =~= prev.contents());
                }
            },
            Some(d) => {
                let ghost dg = d;
                let DatabaseRow { row_id: rid, row, meta } = d;
                let meta0 = match meta {
                    Some(m) => m,
                    None => RowMeta { icon_url: None, cover_url: None },
                };
                let ghost m0g = meta0;
                let meta2 = f(meta0);
                let ghost m2g = meta2;
                let d2 = DatabaseRow { row_id: rid, row, meta: Some(meta2) };
                let ghost d2g = d2;
                let key: String = row_id.as_str().to_owned();
                let _ = self.cache.put(key, d2);
                proof {
                    prev.lemma_wf_keys();
                    crate::cache::lemma_remove_value_membership(prev.keys(), row_id@);
                    let mid_keys = prev.keys().remove_value(row_id@);
                    assert(!mid_keys.contains(row_id@));
                    assert(mid_keys.len() < prev.cap());
                    assert(self.cache.keys() == seq![row_id@] + mid_keys);
                    assert(self.cache.keys() == touched_keys(prev.keys(), row_id@));
                    assert(self.cache.contents() =~= prev.contents().insert(row_id@, d2g));
                    assert(self.cache.has(row_id@)) by {
                        assert(self.cache.keys()[0] == row_id@);
                    }
                    assert(self.cache.contents()[row_id@] == d2g);
                    assert(prev.contents()[row_id@] == dg);
                    assert(f.ensures((m0g,), m2g));
                    assert(meta_or_empty(dg) == m0g);
                    assert(f.ensures((meta_or_empty(dg),), m2g));
                    assert(d2g@.meta == Some(m2g@));
                    assert(d2g@.row_id == dg@.row_id);
                    assert(d2g@.row == dg@.row);
                    assert(meta_updated_by(f, dg, d2g));
                }
            },
        }
    }

    /// The identifier of the document holding the row's long-form
    /// content, derived from the row identifier alone.
    pub fn get_row_document_id(&self, row_id: &RowId) -> (r: Option<String>)
        ensures
            match r {
                Some(s) => crate::rows::parsed_uuid(row_id@) is Some && s@
                    == crate::rows::uuid_v5_str(
                    crate::rows::parsed_uuid(row_id@)->0,
                    crate::rows::RowMetaKey::DocumentId.spec_str(),
                ),
                None => crate::rows::parsed_uuid(row_id@) is None,
            },
    {
        crate::rows::row_document_id(row_id)
    }

    /// Releases every cached row object. Persisted state is untouched,
    /// and the event stream and fetch queue stay as they are.
    pub fn close(&mut self)
        ensures
            final(self).wf(),
            final(self).uid == old(self).uid,
            final(self).cache.cap() == ROW_CACHE_SIZE as nat,
            old(self).same_orchestration(*final(self)),
            final(self).cache.keys() == Seq::<Seq<char>>::empty(),
            final(self).cache.contents() == Map::<Seq<char>, DatabaseRow>::empty(),
    {
        let cap_old: usize = ROW_CACHE_SIZE;
        self.cache = BoundedObjectCache::new(cap_old);
    }

    /// Announces fetched rows to the subscribers: one event per row, in
    /// the order the rows resolved.
    pub fn deliver_fetched_rows(&mut self, details: Vec<RowDetail>)
        ensures
            final(self).uid == old(self).uid,
            final(self).cache == old(self).cache,
            old(self).same_rows(*final(self)),
            final(self).task_controller@ == old(self).task_controller@,
            final(self).sequence == old(self).sequence,
            final(self).events@.len() == old(self).events@.len() + details@.len(),
            forall|i: int|
                0 <= i < old(self).events@.len() ==> #[trigger] final(self).events@[i] == old(self).events@[i],
            forall|i: int|
                0 <= i < details@.len() ==> #[trigger] final(self).events@[old(self).events@.len() + i]@ == BlockEventModel::DidFetchRow(seq![details@[i]@]),
    {
        let mut rest = details;
        let ghost all = rest@;
        let ghost mut i: int = 0;
        while rest.len() > 0
            invariant
                self.uid == old(self).uid,
                self.cache == old(self).cache,
                old(self).same_rows(*self),
                self.task_controller@ == old(self).task_controller@,
                self.sequence == old(self).sequence,
                i + rest@.len() == all.len(),
                0 <= i,
                rest@ == all.skip(i),
                self.events@.len() == old(self).events@.len() + i,
                forall|j: int|
                    0 <= j < old(self).events@.len() ==> #[trigger] self.events@[j] == old(self).events@[j],
                forall|j: int|
                    0 <= j < i ==> #[trigger] self.events@[old(self).events@.len() + j]@
                        == BlockEventModel::DidFetchRow(seq![all[j]@]),
            decreases rest@.len(),
        {
            let d = rest.remove(0);
            proof {
                assert(all.skip(i)[0] == all[i]);
                assert(rest@ =~= all.skip(i + 1));
            }
            let mut one: Vec<RowDetail> = Vec::new();
            one.push(d);
            let ev = BlockEvent::DidFetchRow(one);
            proof {
                assert(ev@->0 =~= seq![all[i]@]);
            }
            self.events.push(ev);
            proof {
                i = i + 1;
            }
        }
    }
}

} // verus!
