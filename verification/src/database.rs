//! The database object: its content body and the operations the index
//! performs on it.

use vstd::prelude::*;

use crate::block::Block;
use crate::error::DatabaseError;
use crate::rows::{Row, RowOrder};
use crate::service::DatabaseCollabService;
use crate::views::{CreateDatabaseParams, CreateViewParams, DatabaseView, DatabaseViewModel, Field,
    FieldModel};

verus! {

/// How many rows are asked from the remote when a database opens without
/// local data.
pub const INITIAL_ROW_LOAD_LIMIT: usize = 100;

/// Keeps the views that are not the one being deleted.
pub open spec fn keeps_view(view_id: Seq<char>) -> spec_fn(DatabaseViewModel) -> bool {
    |v: DatabaseViewModel| v.id != view_id
}

/// The content of one database document: identity, views, fields and the
/// order of its rows. Row content lives in row documents of their own.
#[derive(Debug)]
pub struct DatabaseBody {
    pub database_id: String,
    pub inline_view_id: String,
    pub name: String,
    pub views: Vec<DatabaseView>,
    pub fields: Vec<Field>,
    pub row_orders: Vec<RowOrder>,
}

/// The abstract value of a database body.
pub struct DatabaseBodyModel {
    pub database_id: Seq<char>,
    pub inline_view_id: Seq<char>,
    pub name: Seq<char>,
    pub views: Seq<DatabaseViewModel>,
    pub fields: Seq<FieldModel>,
    pub row_orders: Seq<(Seq<char>, i32)>,
}

impl View for DatabaseBody {
    type V = DatabaseBodyModel;

    open spec fn view(&self) -> DatabaseBodyModel {
        DatabaseBodyModel {
            database_id: self.database_id@,
            inline_view_id: self.inline_view_id@,
            name: self.name@,
            views: self.views@.map_values(|v: DatabaseView| v@),
            fields: self.fields@.map_values(|f: Field| f@),
            row_orders: self.row_orders@.map_values(|r: RowOrder| (r.id@, r.height)),
        }
    }
}

impl Clone for DatabaseBody {
    fn clone(&self) -> (r: Self)
        ensures
            r@ == self@,
    {
        let mut views: Vec<DatabaseView> = Vec::new();
        let mut i: usize = 0;
        while i < self.views.len()
            invariant
                i <= self.views.len(),
                views@.len() == i as int,
                forall|j: int| 0 <= j < i ==> views@[j]@ == self.views@[j]@,
            decreases self.views.len() - i,
        {
            views.push(self.views[i].clone());
            i = i + 1;
        }
        let mut fields: Vec<Field> = Vec::new();
        let mut i2: usize = 0;
        while i2 < self.fields.len()
            invariant
                i2 <= self.fields.len(),
                fields@.len() == i2 as int,
                forall|j: int| 0 <= j < i2 ==> fields@[j]@ == self.fields@[j]@,
            decreases self.fields.len() - i2,
        {
            fields.push(self.fields[i2].clone());
            i2 = i2 + 1;
        }
        let mut row_orders: Vec<RowOrder> = Vec::new();
        let mut i3: usize = 0;
        while i3 < self.row_orders.len()
            invariant
                i3 <= self.row_orders.len(),
                row_orders@.len() == i3 as int,
                forall|j: int| 0 <= j < i3 ==> row_orders@[j].id@ == self.row_orders@[j].id@
                    && row_orders@[j].height == self.row_orders@[j].height,
            decreases self.row_orders.len() - i3,
        {
            row_orders.push(self.row_orders[i3].clone());
            i3 = i3 + 1;
        }
        let r = DatabaseBody {
            database_id: self.database_id.clone(),
            inline_view_id: self.inline_view_id.clone(),
            name: self.name.clone(),
            views,
            fields,
            row_orders,
        };
        proof {
            assert(r@.views =~= self@.views);
            assert(r@.fields =~= self@.fields);
            assert(r@.row_orders =~= self@.row_orders);
        }
        r
    }
}

/// The change-notifier attached to a live database. Restoration from a
/// snapshot attaches none: it is a one-shot reconstruction.
#[derive(Debug)]
pub struct DatabaseNotify;

impl Clone for DatabaseNotify {
    fn clone(&self) -> (r: Self) {
        DatabaseNotify
    }
}

impl Default for DatabaseNotify {
    fn default() -> (r: Self) {
        DatabaseNotify
    }
}

/// Everything a database object is built over: the owner, the built
/// document body, the collaborator service and an optional notifier.
pub struct DatabaseContext<S: DatabaseCollabService> {
    pub uid: i64,
    pub collab: DatabaseBody,
    pub collab_service: S,
    pub notifier: Option<DatabaseNotify>,
}

/// A full export of one database: its inline view, fields and rows. Used
/// to duplicate a database or restore one from a backup.
#[derive(Debug)]
pub struct DatabaseData {
    pub view: DatabaseView,
    pub fields: Vec<Field>,
    pub rows: Vec<Row>,
}

/// A live database object: its content body and the row store serving its
/// rows.
pub struct Database<S: DatabaseCollabService> {
    pub body: DatabaseBody,
    pub block: Block<S>,
    pub notifier: Option<DatabaseNotify>,
}

impl<S: DatabaseCollabService> Database<S> {
    /// Internal consistency of the row store.
    pub open spec fn wf(self) -> bool {
        self.block.wf()
    }

    /// Interprets an already built document body as the database with the
    /// given id, attaching a fresh row store.
    pub fn get_or_create(database_id: &str, context: DatabaseContext<S>) -> (r: Result<
        Database<S>,
        DatabaseError,
    >)
        ensures
            r is Ok <==> database_id@.len() > 0,
            r matches Err(e) ==> e is InvalidParams,
            r matches Ok(db) ==> {
                &&& db.wf()
                &&& db.body.database_id@ == database_id@
                &&& db.body@.inline_view_id == context.collab@.inline_view_id
                &&& db.body@.name == context.collab@.name
                &&& db.body@.views == context.collab@.views
                &&& db.body@.fields == context.collab@.fields
                &&& db.body@.row_orders == context.collab@.row_orders
                &&& db.block.uid == context.uid
                &&& db.block.cache.keys() == Seq::<Seq<char>>::empty()
                &&& db.block.task_controller@.len() == 0
                &&& db.block.events@.len() == 0
                &&& db.notifier == context.notifier
            },
    {
        if database_id.unicode_len() == 0 {
            return Err(
                DatabaseError::InvalidParams(String::from_str("database id is empty")),
            );
        }
        let DatabaseContext { uid, collab, collab_service, notifier } = context;
        let mut body = collab;
        body.database_id = database_id.to_owned();
        let block = Block::new(uid, collab_service);
        Ok(Database { body, block, notifier })
    }

    /// Builds a fresh database around its inline view: the body carries
    /// the view, the fields and the order of the given rows, and the rows
    /// themselves are created in the row store.
    pub fn create_with_inline_view(params: CreateDatabaseParams, context: DatabaseContext<S>) -> (r:
        Result<Database<S>, DatabaseError>)
        ensures
            r is Ok <==> params.database_id@.len() > 0 && params.view_id@.len() > 0,
            r matches Err(e) ==> e is InvalidParams,
            r matches Ok(db) ==> {
                &&& db.wf()
                &&& db.body.database_id@ == params.database_id@
                &&& db.body.inline_view_id@ == params.view_id@
                &&& db.body@.name == params.name@
                &&& db.body@.views == seq![
                    DatabaseViewModel {
                        id: params.view_id@,
                        database_id: params.database_id@,
                        name: params.name@,
                    },
                ]
                &&& db.body@.fields == params.fields@.map_values(|f: Field| f@)
                &&& db.body@.row_orders.len() == params.rows@.len()
                &&& (forall|i: int|
                    0 <= i < params.rows@.len() ==> #[trigger] db.body@.row_orders[i] == (
                        params.rows@[i].id@,
                        params.rows@[i].height,
                    ))
                &&& db.block.uid == context.uid
                &&& db.notifier == context.notifier
            },
    {
        if params.database_id.as_str().unicode_len() == 0 {
            return Err(
                DatabaseError::InvalidParams(String::from_str("database id is empty")),
            );
        }
        if params.view_id.as_str().unicode_len() == 0 {
            return Err(DatabaseError::InvalidParams(String::from_str("view id is empty")));
        }
        let CreateDatabaseParams { database_id, view_id, name, fields, rows } = params;
        let DatabaseContext { uid, collab: _, collab_service, notifier } = context;
        let mut block = Block::new(uid, collab_service);
        let ghost rows_g = rows@;
        let row_orders = block.create_rows(rows);
        let view = DatabaseView {
            id: view_id.clone(),
            database_id: database_id.clone(),
            name: name.clone(),
        };
        let mut views: Vec<DatabaseView> = Vec::new();
        views.push(view);
        let body = DatabaseBody {
            database_id,
            inline_view_id: view_id,
            name,
            views,
            fields,
            row_orders,
        };
        let db = Database { body, block, notifier };
        proof {
            assert(db.body@.views =~= seq![
                DatabaseViewModel {
                    id: db.body.inline_view_id@,
                    database_id: db.body.database_id@,
                    name: db.body.name@,
                },
            ]);
            assert(db.body@.fields =~= db.body.fields@.map_values(|f: Field| f@));
            assert forall|i: int| 0 <= i < rows_g.len() implies #[trigger] db.body@.row_orders[i]
                == (rows_g[i].id@, rows_g[i].height) by {
                assert(db.body.row_orders@[i].id@ == rows_g[i].id@);
            }
        }
        Ok(db)
    }

    /// Asks the remote for an initial batch of this database's rows: the
    /// first rows of the order, up to the fixed limit. Returns at once.
    pub fn load_all_rows(&mut self)
        requires
            old(self).wf(),
        ensures
            final(self).wf(),
            final(self).body == old(self).body,
            final(self).notifier == old(self).notifier,
            old(self).block.same_rows(final(self).block),
            final(self).block.events@ == old(self).block.events@,
            final(self).block.sequence == crate::block::next_seq(old(self).block.sequence),
            ({
                let n = if old(self).body@.row_orders.len() <= INITIAL_ROW_LOAD_LIMIT as int {
                    old(self).body@.row_orders.len() as int
                } else {
                    INITIAL_ROW_LOAD_LIMIT as int
                };
                final(self).block.task_controller@ == old(self).block.task_controller@.push(
                    crate::fetch::BlockTaskModel::BatchFetchRow {
                        uid: old(self).block.uid,
                        row_ids: Seq::new(n as nat, |i: int| old(self).body@.row_orders[i].0),
                        seq: old(self).block.sequence,
                    },
                )
            }),
    {
        let mut ids: Vec<crate::rows::RowId> = Vec::new();
        let mut i: usize = 0;
        let n: usize = if self.body.row_orders.len() <= INITIAL_ROW_LOAD_LIMIT {
            self.body.row_orders.len()
        } else {
            INITIAL_ROW_LOAD_LIMIT
        };
        while i < n
            invariant
                i <= n,
                n <= self.body.row_orders@.len(),
                ids@.len() == i as int,
                forall|j: int| 0 <= j < i ==> ids@[j]@ == self.body@.row_orders[j].0,
            decreases n - i,
        {
            ids.push(self.body.row_orders[i].id.clone());
            i = i + 1;
        }
        let ghost ids_g = ids@;
        self.block.batch_load_rows(ids);
        proof {
            assert(ids_g.map_values(|r: crate::rows::RowId| r@) =~= Seq::new(
                n as nat,
                |i: int| old(self).body@.row_orders[i].0,
            ));
        }
    }

    /// Whether the given view is this database's inline (primary) view,
    /// whose deletion cascades to the whole database.
    pub fn is_inline_view(&self, view_id: &str) -> (r: bool)
        ensures
            r == (view_id@ == self.body.inline_view_id@),
    {
        crate::text::str_eq(self.body.inline_view_id.as_str(), view_id)
    }

    /// Removes the view from the database's body. The inline view id and
    /// everything else stay as they are; cascading is the index's job.
    pub fn delete_view(&mut self, view_id: &str)
        requires
            old(self).wf(),
        ensures
            final(self).wf(),
            final(self).body@.views == old(self).body@.views.filter(keeps_view(view_id@)),
            final(self).body@.database_id == old(self).body@.database_id,
            final(self).body@.inline_view_id == old(self).body@.inline_view_id,
            final(self).body@.name == old(self).body@.name,
            final(self).body@.fields == old(self).body@.fields,
            final(self).body@.row_orders == old(self).body@.row_orders,
            final(self).block == old(self).block,
            final(self).notifier == old(self).notifier,
    {
        broadcast use Seq::lemma_filter_push;

        let ghost pred = keeps_view(view_id@);
        let ghost all = self.body@.views;
        let mut kept: Vec<DatabaseView> = Vec::new();
        let mut i: usize = 0;
        while i < self.body.views.len()
            invariant
                i <= self.body.views@.len(),
                self.body == old(self).body,
                all == self.body@.views,
                pred == keeps_view(view_id@),
                kept@.map_values(|v: DatabaseView| v@) == all.take(i as int).filter(pred),
                self.body@.views.len() == self.body.views@.len(),
            decreases self.body.views@.len() - i,
        {
            let ghost prefix = all.take(i as int);
            let ghost elem = all[i as int];
            proof {
                assert(all.take(i as int + 1) =~= prefix.push(elem));
                prefix.lemma_filter_push(elem, pred);
            }
            if !crate::text::str_eq(self.body.views[i].id.as_str(), view_id) {
                kept.push(self.body.views[i].clone());
                proof {
                    assert(pred(elem));
                    assert(kept@.map_values(|v: DatabaseView| v@) =~= prefix.filter(pred).push(
                        elem,
                    ));
                }
            } else {
                proof {
                    assert(!pred(elem));
                }
            }
            i = i + 1;
        }
        proof {
            assert(all.take(self.body.views@.len() as int) =~= all);
        }
        self.body.views = kept;
    }

    /// Adds a linked view that presents this database's data. The caller
    /// validates the parameters; linking the same view twice is the
    /// index's concern.
    pub fn create_linked_view(&mut self, params: CreateViewParams) -> (r: Result<
        (),
        DatabaseError,
    >)
        requires
            old(self).wf(),
        ensures
            r is Ok,
            final(self).wf(),
            final(self).body@.views == old(self).body@.views.push(
                DatabaseViewModel {
                    id: params.view_id@,
                    database_id: old(self).body@.database_id,
                    name: params.name@,
                },
            ),
            final(self).body@.database_id == old(self).body@.database_id,
            final(self).body@.inline_view_id == old(self).body@.inline_view_id,
            final(self).body@.fields == old(self).body@.fields,
            final(self).body@.row_orders == old(self).body@.row_orders,
            final(self).block == old(self).block,
            final(self).notifier == old(self).notifier,
    {
        let view = DatabaseView {
            id: params.view_id,
            database_id: self.body.database_id.clone(),
            name: params.name,
        };
        let ghost vg = view@;
        self.body.views.push(view);
        proof {
            assert(self.body@.views =~= old(self).body@.views.push(vg));
        }
        Ok(())
    }

    /// Exports the database: its inline view, its fields and all its
    /// rows, read back through the row store. While the row cache has
    /// room for every row of the order, each exported row is either the
    /// empty row of its descriptor or the content held for it — in
    /// particular, rows already cached are exported as cached.
    pub fn duplicate_database(&mut self) -> (r: DatabaseData)
        requires
            old(self).wf(),
        ensures
            final(self).wf(),
            final(self).body == old(self).body,
            final(self).notifier == old(self).notifier,
            r.view@.id == old(self).body@.inline_view_id,
            r.view@.database_id == old(self).body@.database_id,
            r.fields@.map_values(|f: Field| f@) == old(self).body@.fields,
            r.rows@.len() == old(self).body@.row_orders.len(),
            old(self).block.cache.keys().len() + old(self).body@.row_orders.len() <= old(self).block.cache.cap() ==> (forall|i: int|
                #![trigger r.rows@[i]]
                0 <= i < old(self).body@.row_orders.len() && old(self).block.cache.contents().contains_key(old(self).body@.row_orders[i].0) ==> r.rows@[i]@
                    == crate::rows::RowView::empty(old(self).body@.row_orders[i].0) || (old(self).block.cache.contents()[old(self).body@.row_orders[i].0]@.row
                    matches Some(rv) && r.rows@[i]@ == rv)),
    {
        let view = DatabaseView {
            id: self.body.inline_view_id.clone(),
            database_id: self.body.database_id.clone(),
            name: self.body.name.clone(),
        };
        let mut fields: Vec<Field> = Vec::new();
        let mut i: usize = 0;
        while i < self.body.fields.len()
            invariant
                i <= self.body.fields@.len(),
                fields@.len() == i as int,
                forall|j: int| 0 <= j < i ==> fields@[j]@ == self.body.fields@[j]@,
            decreases self.body.fields@.len() - i,
        {
            fields.push(self.body.fields[i].clone());
            i = i + 1;
        }
        let mut orders: Vec<RowOrder> = Vec::new();
        let mut k: usize = 0;
        while k < self.body.row_orders.len()
            invariant
                k <= self.body.row_orders@.len(),
                orders@.len() == k as int,
                self.body == old(self).body,
                forall|j: int|
                    0 <= j < k ==> #[trigger] orders@[j].id@ == self.body@.row_orders[j].0,
            decreases self.body.row_orders@.len() - k,
        {
            orders.push(self.body.row_orders[k].clone());
            k = k + 1;
        }
        let ghost pre_block = self.block;
        let rows = self.block.get_rows_from_row_orders(orders.as_slice());
        proof {
            assert(fields@.map_values(|f: Field| f@) =~= old(self).body@.fields);
            if pre_block.cache.keys().len() + old(self).body@.row_orders.len()
                <= pre_block.cache.cap() {
                assert(orders@.len() == old(self).body@.row_orders.len());
                assert forall|i: int|
                    0 <= i < old(self).body@.row_orders.len()
                        && pre_block.cache.contents().contains_key(
                        old(self).body@.row_orders[i].0,
                    ) implies #[trigger] rows@[i]@ == crate::rows::RowView::empty(
                    old(self).body@.row_orders[i].0,
                ) || (pre_block.cache.contents()[old(self).body@.row_orders[i].0]@.row
                    matches Some(rv) && rows@[i]@ == rv) by {
                    assert(orders@[i].id@ == old(self).body@.row_orders[i].0);
                }
            }
        }
        DatabaseData { view, fields, rows }
    }

    /// Closes the database: releases every cached row object. Persisted
    /// state and the body are untouched.
    pub fn close(&mut self)
        requires
            old(self).wf(),
        ensures
            final(self).wf(),
            final(self).body == old(self).body,
            final(self).block.cache.keys() == Seq::<Seq<char>>::empty(),
    {
        self.block.close();
    }
}

} // verus!
