//! The workspace-level database index.
//!
//! A [`WorkspaceDatabase`] indexes the databases of one workspace: it owns
//! the metadata index (the authoritative record of which databases exist),
//! a bounded cache of live database objects, and a bounded cache of raw
//! database documents, and it carries the lifecycle operations — create,
//! open, close, delete, duplicate, restore from snapshot — across all
//! three consistently.

use vstd::prelude::*;

use crate::cache::{touched_keys, BoundedObjectCache};
use crate::database::{
    Database, DatabaseBody, DatabaseBodyModel, DatabaseContext, DatabaseData, DatabaseNotify,
};
use crate::db_meta::{spec_db_for_view, spec_db_index, spec_has_db, DatabaseMeta, DatabaseMetaList};
use crate::entity::{CollabDocState, CollabPersistenceConfig, CollabSnapshot, CollabType};
use crate::error::DatabaseError;
use crate::service::DatabaseCollabService;
use crate::views::{CreateDatabaseParams, CreateViewParams, CreateViewParamsValidator};

verus! {

/// How many live database objects one workspace caches at most.
pub const DATABASE_CACHE_SIZE: usize = 5;

/// How many raw database documents one workspace caches at most.
pub const DATABASE_DOC_CACHE_SIZE: usize = 10;

/// A raw database document held by the document cache: the object id and
/// the built body.
#[derive(Debug)]
pub struct CollabDoc {
    pub object_id: String,
    pub body: DatabaseBody,
}

/// The abstract value of a raw database document.
pub struct CollabDocModel {
    pub object_id: Seq<char>,
    pub body: DatabaseBodyModel,
}

impl View for CollabDoc {
    type V = CollabDocModel;

    open spec fn view(&self) -> CollabDocModel {
        CollabDocModel { object_id: self.object_id@, body: self.body@ }
    }
}

impl Clone for CollabDoc {
    fn clone(&self) -> (r: Self)
        ensures
            r@ == self@,
    {
        CollabDoc { object_id: self.object_id.clone(), body: self.body.clone() }
    }
}

/// Keeps exactly the successful, non-empty remote replies: an empty state
/// or a failed call stands for "not found".
pub fn accept_fetched_state(fetched: Result<CollabDocState, DatabaseError>) -> (r: Option<
    CollabDocState,
>)
    ensures
        r is Some <==> (fetched matches Ok(s) && s@.len() > 0),
        r matches Some(s) ==> (fetched matches Ok(s0) && s0 == s),
{
    match fetched {
        Ok(state) => {
            if state.len() > 0 {
                Some(state)
            } else {
                None
            }
        },
        Err(_) => None,
    }
}

/// The workspace database index.
pub struct WorkspaceDatabase<S: DatabaseCollabService> {
    pub uid: i64,
    pub collab_service: S,
    pub config: CollabPersistenceConfig,
    pub meta_list: DatabaseMetaList,
    pub databases: BoundedObjectCache<Database<S>>,
    pub database_collabs: BoundedObjectCache<CollabDoc>,
}

impl<S: DatabaseCollabService> WorkspaceDatabase<S> {
    /// Internal consistency: the index is duplicate-free, both caches are
    /// consistent, and every cached database object is well-formed and
    /// filed under its own id.
    pub open spec fn wf(self) -> bool {
        &&& self.meta_list.wf()
        &&& self.databases.wf()
        &&& self.database_collabs.wf()
        &&& forall|k: Seq<char>| #[trigger]
            self.databases.contents().contains_key(k) ==> self.databases.contents()[k].wf()
                && self.databases.contents()[k].body.database_id@ == k
    }

    /// Every database id held by the handle cache is registered in the
    /// metadata index — the index is the source of truth for existence.
    /// The index is shared workspace state that callers may edit
    /// directly, so this is stated as a property every operation
    /// preserves rather than as an unconditional type invariant.
    pub open spec fn cache_indexed(self) -> bool {
        forall|k: Seq<char>| #[trigger]
            self.databases.contents().contains_key(k) ==> spec_has_db(self.meta_list@, k)
    }

    /// Opens the index of one workspace over its decoded metadata.
    pub fn open(
        uid: i64,
        meta_list: DatabaseMetaList,
        config: CollabPersistenceConfig,
        collab_service: S,
    ) -> (r: Self)
        requires
            meta_list.wf(),
        ensures
            r.wf(),
            r.uid == uid,
            r.meta_list@ == meta_list@,
            r.config == config,
            r.databases.keys() == Seq::<Seq<char>>::empty(),
            r.database_collabs.keys() == Seq::<Seq<char>>::empty(),
            r.databases.cap() == DATABASE_CACHE_SIZE as nat,
            r.database_collabs.cap() == DATABASE_DOC_CACHE_SIZE as nat,
    {
        WorkspaceDatabase {
            uid,
            collab_service,
            config,
            meta_list,
            databases: BoundedObjectCache::new(DATABASE_CACHE_SIZE),
            database_collabs: BoundedObjectCache::new(DATABASE_DOC_CACHE_SIZE),
        }
    }

    /// The raw document of the database: from the document cache, else
    /// built from local state, else fetched from the remote. A successful
    /// remote reply with an empty state counts as "not found": nothing is
    /// returned and nothing enters the cache.
    pub fn get_database_collab(&mut self, database_id: &str) -> (r: Option<CollabDoc>)
        requires
            old(self).wf(),
        ensures
            final(self).wf(),
            final(self).uid == old(self).uid,
            final(self).meta_list@ == old(self).meta_list@,
            final(self).databases.keys() == old(self).databases.keys(),
            final(self).databases.contents() == old(self).databases.contents(),
            old(self).cache_indexed() ==> final(self).cache_indexed(),
            r matches Some(doc) ==> final(self).database_collabs.has(database_id@) && final(self).database_collabs.contents()[database_id@]@ == doc@,
            !old(self).database_collabs.has(database_id@) && r is None ==> final(self).database_collabs.keys() == old(self).database_collabs.keys() && final(self).database_collabs.contents() == old(self).database_collabs.contents(),
            old(self).database_collabs.has(database_id@) ==> {
                &&& final(self).database_collabs.keys() == touched_keys(
                    old(self).database_collabs.keys(),
                    database_id@,
                )
                &&& final(self).database_collabs.contents() == old(self).database_collabs.contents()
                &&& (r matches Some(doc) ==> doc@ == old(self).database_collabs.contents()[database_id@]@)
            },
    {
        let hit = match self.database_collabs.get(database_id) {
            Some(d) => Some(d.clone()),
            None => None,
        };
        proof {
            if old(self).database_collabs.has(database_id@) {
                assert(self.database_collabs.keys()[0] == database_id@);
                assert(self.database_collabs.has(database_id@));
            }
        }
        if !self.collab_service.is_collab_db_available() {
            return None;
        }
        match hit {
            Some(doc) => Some(doc),
            None => {
                let exists = self.collab_service.is_exist(self.uid, database_id);
                let state_opt: Option<CollabDocState> = if exists {
                    Some(Vec::new())
                } else {
                    accept_fetched_state(
                        self.collab_service.get_collab_doc_state(
                            database_id,
                            CollabType::Database,
                        ),
                    )
                };
                match state_opt {
                    None => None,
                    Some(state) => {
                        let body = self.collab_service.build_database_collab(
                            self.uid,
                            database_id,
                            state,
                            None,
                            self.config,
                        );
                        let doc = CollabDoc { object_id: database_id.to_owned(), body };
                        let d = doc.clone();
                        let ghost dg = doc;
                        let _ = self.database_collabs.put(database_id.to_owned(), doc);
                        proof {
                            assert(self.database_collabs.keys()[0] == database_id@);
                            assert(self.database_collabs.has(database_id@));
                            assert(self.database_collabs.contents()[database_id@] == dg);
                        }
                        Some(d)
                    },
                }
            },
        }
    }

    /// Takes the live database object out of the cache, building it first
    /// if it is not there. The metadata index is authoritative: an id it
    /// does not hold resolves to nothing, whatever the caches hold. The
    /// caller puts the object back through `store_database`.
    fn take_database(&mut self, database_id: &str) -> (r: Option<Database<S>>)
        requires
            old(self).wf(),
        ensures
            final(self).wf(),
            final(self).uid == old(self).uid,
            final(self).meta_list@ == old(self).meta_list@,
            old(self).cache_indexed() ==> final(self).cache_indexed(),
            !spec_has_db(old(self).meta_list@, database_id@) ==> r is None && final(self).databases.keys() == old(self).databases.keys() && final(self).databases.contents()
                == old(self).databases.contents() && final(self).database_collabs.keys() == old(self).database_collabs.keys() && final(self).database_collabs.contents() == old(self).database_collabs.contents(),
            r matches Some(db) ==> {
                &&& db.wf()
                &&& db.body.database_id@ == database_id@
                &&& spec_has_db(old(self).meta_list@, database_id@)
                &&& !final(self).databases.has(database_id@)
            },
            r matches Some(db) ==> (old(self).databases.has(database_id@) ==> db == old(self).databases.contents()[database_id@]),
            r matches Some(db) ==> (!old(self).databases.has(database_id@) ==> {
                &&& db.block.task_controller@.len() <= 1
                &&& (db.block.task_controller@.len() == 1 ==> (db.block.task_controller@[0]
                    matches crate::fetch::BlockTaskModel::BatchFetchRow { row_ids, .. }
                    && row_ids == Seq::new(
                    if db.body@.row_orders.len() <= crate::database::INITIAL_ROW_LOAD_LIMIT as int {
                        db.body@.row_orders.len() as nat
                    } else {
                        crate::database::INITIAL_ROW_LOAD_LIMIT as nat
                    },
                    |i: int| db.body@.row_orders[i].0,
                )))
            }),
            r is None ==> final(self).databases.contents() == old(self).databases.contents(),
    {
        if !self.meta_list.contains(database_id) {
            return None;
        }
        let ghost prev = self.databases;
        let popped = self.databases.pop(database_id);
        proof {
            prev.lemma_wf_keys();
            prev.lemma_wf_dom();
            crate::cache::lemma_remove_value_membership(prev.keys(), database_id@);
        }
        if !self.collab_service.is_collab_db_available() {
            match popped {
                Some(db) => {
                    let key: String = database_id.to_owned();
                    let ghost dbg = db;
                    let _ = self.databases.put(key, db);
                    proof {
                        assert(self.databases.contents() =~= prev.contents().remove(
                            database_id@,
                        ).insert(database_id@, dbg));
                        assert(self.databases.contents() =~= prev.contents());
                        self.lemma_databases_wf_restored(prev);
                    }
                },
                None => {
                    proof {
                        assert(self.databases.contents() =~= prev.contents());
                    }
                },
            }
            return None;
        }
        match popped {
            Some(db) => {
                proof {
                    assert(prev.contents().contains_key(database_id@));
                    assert(db == prev.contents()[database_id@]);
                    assert(db.wf() && db.body.database_id@ == database_id@);
                }
                Some(db)
            },
            None => {
                proof {
                    assert(self.databases.contents() =~= prev.contents());
                }
                let exists = self.collab_service.is_exist(self.uid, database_id);
                match self.get_database_collab(database_id) {
                    None => None,
                    Some(doc) => {
                        let context = DatabaseContext {
                            uid: self.uid,
                            collab: doc.body,
                            collab_service: self.collab_service.clone(),
                            notifier: Some(DatabaseNotify),
                        };
                        match Database::get_or_create(database_id, context) {
                            Err(_) => None,
                            Ok(mut db) => {
                                if !exists {
                                    db.load_all_rows();
                                }
                                Some(db)
                            },
                        }
                    },
                }
            },
        }
    }

    /// Every cached database object stays well-formed and filed under its
    /// own id when the cache model is unchanged.
    proof fn lemma_databases_wf_restored(self, prev: BoundedObjectCache<Database<S>>)
        requires
            forall|k: Seq<char>| #[trigger]
                prev.contents().contains_key(k) ==> prev.contents()[k].wf()
                    && prev.contents()[k].body.database_id@ == k,
            self.databases.contents() == prev.contents(),
        ensures
            forall|k: Seq<char>| #[trigger]
                self.databases.contents().contains_key(k) ==> self.databases.contents()[k].wf()
                    && self.databases.contents()[k].body.database_id@ == k,
    {
    }

    /// Puts a live database object back into the cache, filed under its
    /// own id and marked most recently used.
    fn store_database(&mut self, db: Database<S>)
        requires
            old(self).wf(),
            db.wf(),
            spec_has_db(old(self).meta_list@, db.body.database_id@),
        ensures
            final(self).wf(),
            old(self).cache_indexed() ==> final(self).cache_indexed(),
            final(self).uid == old(self).uid,
            final(self).meta_list@ == old(self).meta_list@,
            final(self).database_collabs.keys() == old(self).database_collabs.keys(),
            final(self).database_collabs.contents() == old(self).database_collabs.contents(),
            final(self).databases.has(db.body.database_id@),
            final(self).databases.contents()[db.body.database_id@] == db,
            final(self).databases.keys() == crate::cache::pushed_keys(
                old(self).databases.keys(),
                db.body.database_id@,
                old(self).databases.cap(),
            ),
            forall|x: Seq<char>|
                x != db.body.database_id@ && #[trigger] final(self).databases.contents().contains_key(x) ==> old(self).databases.contents().contains_key(x) && final(self).databases.contents()[x]
                    == old(self).databases.contents()[x],
    {
        let key: String = db.body.database_id.as_str().to_owned();
        let ghost dbg = db;
        let ghost prev = self.databases;
        let _ = self.databases.put(key, db);
        proof {
            assert(self.databases.keys()[0] == dbg.body.database_id@);
            assert(self.databases.has(dbg.body.database_id@));
            assert(self.databases.contents()[dbg.body.database_id@] == dbg);
            prev.lemma_wf_dom();
            assert forall|k: Seq<char>| #[trigger]
                self.databases.contents().contains_key(k) implies self.databases.contents()[k].wf()
                && self.databases.contents()[k].body.database_id@ == k by {
                if k != dbg.body.database_id@ {
                    assert(prev.contents().contains_key(k));
                    assert(self.databases.contents()[k] == prev.contents()[k]);
                }
            }
        }
    }

    /// The database with the given id: nothing when the id is unknown to
    /// the metadata index, whatever the caches hold; otherwise the body of
    /// the live object, resolved through the cache and built on a miss.
    pub fn get_database(&mut self, database_id: &str) -> (r: Option<DatabaseBody>)
        requires
            old(self).wf(),
        ensures
            final(self).wf(),
            final(self).uid == old(self).uid,
            final(self).meta_list@ == old(self).meta_list@,
            old(self).cache_indexed() ==> final(self).cache_indexed(),
            !spec_has_db(old(self).meta_list@, database_id@) ==> r is None && final(self).databases.keys() == old(self).databases.keys() && final(self).databases.contents()
                == old(self).databases.contents() && final(self).database_collabs.keys() == old(self).database_collabs.keys() && final(self).database_collabs.contents() == old(self).database_collabs.contents(),
            r matches Some(b) ==> {
                &&& b.database_id@ == database_id@
                &&& spec_has_db(old(self).meta_list@, database_id@)
                &&& final(self).databases.has(database_id@)
                &&& final(self).databases.contents()[database_id@].body@ == b@
            },
            r matches Some(b) ==> (old(self).databases.has(database_id@) ==> b@ == old(self).databases.contents()[database_id@].body@),
            r is None ==> final(self).databases.contents() == old(self).databases.contents(),
            r matches Some(b) ==> (!old(self).databases.has(database_id@) ==> ({
                let db = final(self).databases.contents()[database_id@];
                &&& db.block.task_controller@.len() <= 1
                &&& (db.block.task_controller@.len() == 1 ==> (db.block.task_controller@[0]
                    matches crate::fetch::BlockTaskModel::BatchFetchRow { row_ids, .. }
                    && row_ids == Seq::new(
                    if b@.row_orders.len() <= crate::database::INITIAL_ROW_LOAD_LIMIT as int {
                        b@.row_orders.len() as nat
                    } else {
                        crate::database::INITIAL_ROW_LOAD_LIMIT as nat
                    },
                    |i: int| b@.row_orders[i].0,
                )))
            })),
    {
        match self.take_database(database_id) {
            None => None,
            Some(db) => {
                let ghost dbg = db;
                let body = db.body.clone();
                self.store_database(db);
                proof {
                    assert(self.databases.contents()[database_id@] == dbg);
                    if !old(self).databases.has(database_id@)
                        && dbg.block.task_controller@.len() == 1 {
                        let n: nat = if dbg.body@.row_orders.len()
                            <= crate::database::INITIAL_ROW_LOAD_LIMIT as int {
                            dbg.body@.row_orders.len() as nat
                        } else {
                            crate::database::INITIAL_ROW_LOAD_LIMIT as nat
                        };
                        assert(Seq::new(n, |i: int| dbg.body@.row_orders[i].0) =~= Seq::new(
                            n,
                            |i: int| body@.row_orders[i].0,
                        ));
                    }
                }
                Some(body)
            },
        }
    }

    /// The database that the view presents, resolved through the
    /// view-to-database mapping of the metadata index.
    pub fn get_database_with_view_id(&mut self, view_id: &str) -> (r: Option<DatabaseBody>)
        requires
            old(self).wf(),
        ensures
            final(self).wf(),
            final(self).uid == old(self).uid,
            final(self).meta_list@ == old(self).meta_list@,
            old(self).cache_indexed() ==> final(self).cache_indexed(),
            spec_db_for_view(old(self).meta_list@, view_id@) is None ==> r is None,
            r matches Some(b) ==> spec_db_for_view(old(self).meta_list@, view_id@) == Some(
                b.database_id@,
            ) && final(self).databases.has(b.database_id@),
    {
        match self.get_database_id_with_view_id(view_id) {
            None => None,
            Some(database_id) => self.get_database(database_id.as_str()),
        }
    }

    /// The database id the view maps to, read from the metadata index.
    pub fn get_database_id_with_view_id(&self, view_id: &str) -> (r: Option<String>)
        ensures
            match r {
                Some(s) => spec_db_for_view(self.meta_list@, view_id@) == Some(s@),
                None => spec_db_for_view(self.meta_list@, view_id@) is None,
            },
    {
        match self.meta_list.get_database_meta_with_view_id(view_id) {
            Some(meta) => Some(meta.database_id),
            None => None,
        }
    }

    /// Creates a database with its inline view: registers the metadata
    /// record — the inline view as its sole linked view — builds the
    /// document, creates the rows and caches the live object. Empty ids
    /// are a programming error, ruled out up front.
    pub fn create_database(&mut self, params: CreateDatabaseParams) -> (r: Result<
        DatabaseBody,
        DatabaseError,
    >)
        requires
            old(self).wf(),
            params.database_id@.len() > 0,
            params.view_id@.len() > 0,
        ensures
            final(self).wf(),
            final(self).uid == old(self).uid,
            old(self).cache_indexed() ==> final(self).cache_indexed(),
            r is Ok,
            ({
                let m = crate::db_meta::DatabaseMetaModel {
                    database_id: params.database_id@,
                    inline_view_id: params.view_id@,
                    linked_views: seq![params.view_id@],
                };
                if spec_has_db(old(self).meta_list@, params.database_id@) {
                    final(self).meta_list@ == old(self).meta_list@.update(
                        spec_db_index(old(self).meta_list@, params.database_id@),
                        m,
                    )
                } else {
                    final(self).meta_list@ == old(self).meta_list@.push(m)
                }
            }),
            spec_has_db(final(self).meta_list@, params.database_id@),
            r matches Ok(b) ==> {
                &&& b.database_id@ == params.database_id@
                &&& b.inline_view_id@ == params.view_id@
                &&& b@.name == params.name@
                &&& b@.fields == params.fields@.map_values(|f: crate::views::Field| f@)
                &&& b@.row_orders.len() == params.rows@.len()
                &&& (forall|i: int|
                    0 <= i < params.rows@.len() ==> #[trigger] b@.row_orders[i] == (
                        params.rows@[i].id@,
                        params.rows@[i].height,
                    ))
                &&& final(self).databases.has(params.database_id@)
                &&& final(self).databases.contents()[params.database_id@].body@ == b@
            },
    {
        let mut linked: Vec<String> = Vec::new();
        linked.push(params.view_id.clone());
        let ghost lg = linked@;
        self.meta_list.add_database(params.database_id.as_str(), linked);
        proof {
            assert(lg.map_values(|v: String| v@) =~= seq![params.view_id@]);
        }
        let context = DatabaseContext {
            uid: self.uid,
            collab: DatabaseBody {
                database_id: String::new(),
                inline_view_id: String::new(),
                name: String::new(),
                views: Vec::new(),
                fields: Vec::new(),
                row_orders: Vec::new(),
            },
            collab_service: self.collab_service.clone(),
            notifier: Some(DatabaseNotify),
        };
        match Database::create_with_inline_view(params, context) {
            Err(e) => Err(e),
            Ok(db) => {
                let _ = self.collab_service.build_database_collab(
                    self.uid,
                    db.body.database_id.as_str(),
                    Vec::new(),
                    Some(db.body.clone()),
                    self.config,
                );
                let body = db.body.clone();
                self.store_database(db);
                Ok(body)
            },
        }
    }

    /// Registers metadata for a database whose document already exists
    /// elsewhere, without building a document.
    pub fn track_database(&mut self, database_id: &str, database_view_ids: Vec<String>)
        requires
            old(self).wf(),
        ensures
            final(self).wf(),
            final(self).uid == old(self).uid,
            spec_has_db(final(self).meta_list@, database_id@),
            final(self).databases.keys() == old(self).databases.keys(),
            final(self).databases.contents() == old(self).databases.contents(),
            old(self).cache_indexed() ==> final(self).cache_indexed(),
    {
        self.meta_list.add_database(database_id, database_view_ids);
    }

    /// Materializes exported content as a new, independent database: a
    /// fresh database id and view id are generated and the fields and
    /// rows are carried over. The copy never keeps the source's id.
    pub fn create_database_with_data(&mut self, data: DatabaseData) -> (r: Result<
        DatabaseBody,
        DatabaseError,
    >)
        requires
            old(self).wf(),
        ensures
            final(self).wf(),
            final(self).uid == old(self).uid,
            old(self).cache_indexed() ==> final(self).cache_indexed(),
            r is Err ==> final(self).meta_list@ == old(self).meta_list@ && final(self).databases.contents() == old(self).databases.contents(),
            r matches Ok(b) ==> {
                &&& b.database_id@ != data.view.database_id@
                &&& spec_has_db(final(self).meta_list@, b.database_id@)
                &&& b@.name == data.view@.name
                &&& b@.fields == data.fields@.map_values(|f: crate::views::Field| f@)
                &&& b@.row_orders.len() == data.rows@.len()
                &&& (forall|i: int|
                    0 <= i < data.rows@.len() ==> #[trigger] b@.row_orders[i] == (
                        data.rows@[i].id@,
                        data.rows@[i].height,
                    ))
                &&& final(self).databases.has(b.database_id@)
            },
    {
        let DatabaseData { view, fields, rows } = data;
        let source_db_id = view.database_id.clone();
        let params = CreateDatabaseParams::from_view(view, fields, rows);
        if params.database_id.as_str().unicode_len() == 0 || params.view_id.as_str().unicode_len()
            == 0 {
            return Err(
                DatabaseError::Internal(String::from_str("generated identifier is empty")),
            );
        }
        if crate::text::str_eq(params.database_id.as_str(), source_db_id.as_str()) {
            return Err(
                DatabaseError::Internal(
                    String::from_str("generated identifier collides with the source"),
                ),
            );
        }
        self.create_database(params)
    }

    /// Duplicates the database that contains the view: exports its inline
    /// view, fields and rows, and materializes them as a new database
    /// under a fresh id.
    pub fn duplicate_database(&mut self, view_id: &str) -> (r: Result<
        DatabaseBody,
        DatabaseError,
    >)
        requires
            old(self).wf(),
        ensures
            final(self).wf(),
            final(self).uid == old(self).uid,
            old(self).cache_indexed() ==> final(self).cache_indexed(),
            spec_db_for_view(old(self).meta_list@, view_id@) is None ==> (r matches Err(e)
                && e is DatabaseNotExist),
            r matches Ok(b) ==> {
                &&& (spec_db_for_view(old(self).meta_list@, view_id@) matches Some(src)
                    && b.database_id@ != src)
                &&& spec_has_db(final(self).meta_list@, b.database_id@)
                &&& final(self).databases.has(b.database_id@)
            },
            r matches Ok(b) ==> ({
                let src = spec_db_for_view(old(self).meta_list@, view_id@)->0;
                old(self).databases.has(src) ==> {
                    &&& b@.fields == old(self).databases.contents()[src].body@.fields
                    &&& b@.row_orders.len() == old(self).databases.contents()[src].body@.row_orders.len()
                    &&& ({
                        let d0 = old(self).databases.contents()[src];
                        d0.block.cache.keys().len() + d0.body@.row_orders.len()
                            <= d0.block.cache.cap() ==> (forall|i: int|
                            #![trigger b@.row_orders[i]]
                            0 <= i < d0.body@.row_orders.len()
                                && d0.block.cache.contents().contains_key(
                                d0.body@.row_orders[i].0,
                            ) ==> b@.row_orders[i] == (d0.body@.row_orders[i].0, 60i32) || (
                            d0.block.cache.contents()[d0.body@.row_orders[i].0]@.row
                                matches Some(rv) && b@.row_orders[i] == (rv.id, rv.height)))
                    })
                }
            }),
    {
        match self.get_database_duplicated_data(view_id) {
            Err(e) => Err(e),
            Ok(data) => {
                let ghost src = data.view@.database_id;
                let ghost datag = data;
                let out = self.create_database_with_data(data);
                proof {
                    if out is Ok && old(self).databases.has(src) {
                        let b = out->Ok_0;
                        let d0 = old(self).databases.contents()[src];
                        if d0.block.cache.keys().len() + d0.body@.row_orders.len()
                            <= d0.block.cache.cap() {
                            assert forall|i: int|
                                0 <= i < d0.body@.row_orders.len()
                                    && d0.block.cache.contents().contains_key(
                                    d0.body@.row_orders[i].0,
                                ) implies #[trigger] b@.row_orders[i] == (
                                d0.body@.row_orders[i].0,
                                60i32,
                            ) || (d0.block.cache.contents()[d0.body@.row_orders[i].0]@.row
                                matches Some(rv) && b@.row_orders[i] == (rv.id, rv.height)) by {
                                assert(b@.row_orders[i] == (datag.rows@[i].id@, datag.rows@[i].height));
                                assert(datag.rows@[i]@.id == datag.rows@[i].id@);
                                assert(datag.rows@[i]@.height == datag.rows@[i].height);
                            }
                        }
                    }
                }
                out
            },
        }
    }

    /// Exports the full content — inline view, fields, rows — of the
    /// database that contains the view.
    pub fn get_database_duplicated_data(&mut self, view_id: &str) -> (r: Result<
        DatabaseData,
        DatabaseError,
    >)
        requires
            old(self).wf(),
        ensures
            final(self).wf(),
            final(self).uid == old(self).uid,
            final(self).meta_list@ == old(self).meta_list@,
            old(self).cache_indexed() ==> final(self).cache_indexed(),
            spec_db_for_view(old(self).meta_list@, view_id@) is None ==> (r matches Err(e)
                && e is DatabaseNotExist),
            r matches Ok(data) ==> {
                &&& spec_db_for_view(old(self).meta_list@, view_id@) == Some(
                    data.view@.database_id,
                )
                &&& data.view@.id == final(self).databases.contents()[data.view@.database_id].body@.inline_view_id
                &&& final(self).databases.has(data.view@.database_id)
            },
            r matches Ok(data) ==> (old(self).databases.has(data.view@.database_id) ==> {
                &&& data.fields@.map_values(|f: crate::views::Field| f@) == old(self).databases.contents()[data.view@.database_id].body@.fields
                &&& data.rows@.len() == old(self).databases.contents()[data.view@.database_id].body@.row_orders.len()
                &&& ({
                    let d0 = old(self).databases.contents()[data.view@.database_id];
                    d0.block.cache.keys().len() + d0.body@.row_orders.len()
                        <= d0.block.cache.cap() ==> (forall|i: int|
                        #![trigger data.rows@[i]]
                        0 <= i < d0.body@.row_orders.len()
                            && d0.block.cache.contents().contains_key(d0.body@.row_orders[i].0)
                            ==> data.rows@[i]@ == crate::rows::RowView::empty(
                            d0.body@.row_orders[i].0,
                        ) || (d0.block.cache.contents()[d0.body@.row_orders[i].0]@.row
                            matches Some(rv) && data.rows@[i]@ == rv))
                })
            }),
    {
        let database_id = match self.get_database_id_with_view_id(view_id) {
            None => {
                return Err(DatabaseError::DatabaseNotExist);
            },
            Some(id) => id,
        };
        match self.take_database(database_id.as_str()) {
            None => Err(DatabaseError::DatabaseNotExist),
            Some(mut db) => {
                let data = db.duplicate_database();
                self.store_database(db);
                Ok(data)
            },
        }
    }

    /// Deletes the database: the metadata record is removed first — the
    /// index is authoritative — then the persisted document is deleted on
    /// a best-effort basis, and any cached live object is evicted and
    /// closed.
    pub fn delete_database(&mut self, database_id: &str)
        requires
            old(self).wf(),
        ensures
            final(self).wf(),
            final(self).uid == old(self).uid,
            old(self).cache_indexed() ==> final(self).cache_indexed(),
            !spec_has_db(final(self).meta_list@, database_id@),
            !final(self).databases.has(database_id@),
            spec_has_db(old(self).meta_list@, database_id@) ==> final(self).meta_list@ == old(self).meta_list@.remove(spec_db_index(old(self).meta_list@, database_id@)),
            !spec_has_db(old(self).meta_list@, database_id@) ==> final(self).meta_list@ == old(self).meta_list@,
            final(self).databases.keys() == old(self).databases.keys().remove_value(database_id@),
            final(self).databases.contents() == old(self).databases.contents().remove(
                database_id@,
            ),
            final(self).database_collabs.keys() == old(self).database_collabs.keys(),
            final(self).database_collabs.contents() == old(self).database_collabs.contents(),
    {
        self.meta_list.delete_database(database_id);
        if self.collab_service.is_collab_db_available() {
            let _ = self.collab_service.delete_doc(self.uid, database_id);
        }
        let ghost prev = self.databases;
        proof {
            prev.lemma_wf_keys();
            prev.lemma_wf_dom();
            crate::cache::lemma_remove_value_membership(prev.keys(), database_id@);
        }
        match self.databases.pop(database_id) {
            Some(mut db) => {
                proof {
                    assert(prev.contents().contains_key(database_id@));
                    assert(db.wf());
                }
                db.close();
            },
            None => {
            },
        }
    }

    /// Evicts and closes the cached live object without touching the
    /// metadata record or the persisted document.
    pub fn close_database(&mut self, database_id: &str)
        requires
            old(self).wf(),
        ensures
            final(self).wf(),
            final(self).uid == old(self).uid,
            final(self).meta_list@ == old(self).meta_list@,
            old(self).cache_indexed() ==> final(self).cache_indexed(),
            !final(self).databases.has(database_id@),
            final(self).databases.keys() == old(self).databases.keys().remove_value(database_id@),
            final(self).databases.contents() == old(self).databases.contents().remove(
                database_id@,
            ),
            final(self).database_collabs.keys() == old(self).database_collabs.keys(),
            final(self).database_collabs.contents() == old(self).database_collabs.contents(),
    {
        let ghost prev = self.databases;
        proof {
            prev.lemma_wf_keys();
            prev.lemma_wf_dom();
            crate::cache::lemma_remove_value_membership(prev.keys(), database_id@);
        }
        match self.databases.pop(database_id) {
            Some(mut db) => {
                proof {
                    assert(prev.contents().contains_key(database_id@));
                    assert(db.wf());
                }
                db.close();
            },
            None => {
            },
        }
    }

    /// All metadata records, copied out in index order.
    pub fn get_all_database_meta(&self) -> (r: Vec<DatabaseMeta>)
        ensures
            r@.map_values(|m: DatabaseMeta| m@) == self.meta_list@,
    {
        self.meta_list.get_all_database_meta()
    }

    /// The snapshots the persistence layer holds for the database: empty
    /// when the shared store is no longer available. What the store
    /// returns is its own; nothing further is promised of the contents.
    pub fn get_database_snapshots(&self, database_id: &str) -> Vec<CollabSnapshot> {
        if self.collab_service.is_collab_db_available() {
            self.collab_service.get_snapshots(self.uid, database_id)
        } else {
            Vec::new()
        }
    }

    /// Rebuilds a database from a captured snapshot: the engine must
    /// accept the snapshot as one CRDT update, which is applied to a
    /// fresh document; the result carries no change-notifier —
    /// restoration is a one-shot, non-interactive reconstruction. The
    /// caches are left alone. Whether the bytes decode is the engine's
    /// answer; a rejected snapshot is an internal error, an empty id an
    /// invalid parameter.
    pub fn restore_database_from_snapshot(&mut self, database_id: &str, snapshot: CollabSnapshot)
        -> (r: Result<Database<S>, DatabaseError>)
        requires
            old(self).wf(),
        ensures
            final(self).wf(),
            final(self).uid == old(self).uid,
            final(self).meta_list@ == old(self).meta_list@,
            final(self).databases.keys() == old(self).databases.keys(),
            final(self).databases.contents() == old(self).databases.contents(),
            final(self).database_collabs.keys() == old(self).database_collabs.keys(),
            final(self).database_collabs.contents() == old(self).database_collabs.contents(),
            old(self).cache_indexed() ==> final(self).cache_indexed(),
            database_id@.len() == 0 ==> r is Err,
            r matches Ok(db) ==> {
                &&& db.wf()
                &&& db.body.database_id@ == database_id@
                &&& db.notifier is None
                &&& database_id@.len() > 0
            },
            r matches Err(e) ==> (e is Internal || e is InvalidParams),
    {
        if !self.collab_service.update_decodes(snapshot.data.as_slice()) {
            return Err(DatabaseError::Internal(String::from_str("snapshot does not decode")));
        }
        let body = self.collab_service.build_database_collab(
            self.uid,
            database_id,
            snapshot.data,
            None,
            self.config,
        );
        let context = DatabaseContext {
            uid: self.uid,
            collab: body,
            collab_service: self.collab_service.clone(),
            notifier: None,
        };
        Database::get_or_create(database_id, context)
    }

    /// Deletes the view from its database. Deleting a linked view leaves
    /// the database in place with that view removed from its body;
    /// deleting the inline (primary) view cascades: the whole database is
    /// deleted, from the metadata index and from the cache. An id the
    /// index does not hold changes nothing anywhere.
    pub fn delete_view(&mut self, database_id: &str, view_id: &str)
        requires
            old(self).wf(),
        ensures
            final(self).wf(),
            final(self).uid == old(self).uid,
            old(self).cache_indexed() ==> final(self).cache_indexed(),
            !spec_has_db(old(self).meta_list@, database_id@) ==> {
                &&& final(self).meta_list@ == old(self).meta_list@
                &&& final(self).databases.keys() == old(self).databases.keys()
                &&& final(self).databases.contents() == old(self).databases.contents()
                &&& final(self).database_collabs.keys() == old(self).database_collabs.keys()
                &&& final(self).database_collabs.contents() == old(self).database_collabs.contents()
            },
            spec_has_db(old(self).meta_list@, database_id@) ==> final(self).meta_list@ == old(self).meta_list@ || (final(self).meta_list@ == old(self).meta_list@.remove(
                spec_db_index(old(self).meta_list@, database_id@),
            ) && !final(self).databases.has(database_id@)),
            ({
                let cached_inline = old(self).databases.has(database_id@) && old(self).databases.contents()[database_id@].body.inline_view_id@ == view_id@
                    && spec_has_db(old(self).meta_list@, database_id@);
                cached_inline ==> {
                    ||| (!spec_has_db(final(self).meta_list@, database_id@) && !final(self).databases.has(database_id@))
                    ||| {
                        &&& final(self).meta_list@ == old(self).meta_list@
                        &&& final(self).databases.has(database_id@)
                        &&& final(self).databases.contents() == old(self).databases.contents()
                    }
                }
            }),
            ({
                let cached_noninline = old(self).databases.has(database_id@) && old(self).databases.contents()[database_id@].body.inline_view_id@ != view_id@
                    && spec_has_db(old(self).meta_list@, database_id@);
                cached_noninline ==> {
                    &&& final(self).meta_list@ == old(self).meta_list@
                    &&& final(self).databases.has(database_id@)
                    &&& ({
                        let d0 = old(self).databases.contents()[database_id@];
                        let d1 = final(self).databases.contents()[database_id@];
                        ||| {
                            &&& d1.body@.views == d0.body@.views.filter(
                                crate::database::keeps_view(view_id@),
                            )
                            &&& d1.body@.database_id == d0.body@.database_id
                            &&& d1.body@.inline_view_id == d0.body@.inline_view_id
                            &&& d1.body@.name == d0.body@.name
                            &&& d1.body@.fields == d0.body@.fields
                            &&& d1.body@.row_orders == d0.body@.row_orders
                        }
                        ||| d1 == d0
                    })
                }
            }),
    {
        match self.take_database(database_id) {
            None => {
                proof {
                    old(self).databases.lemma_wf_dom();
                    self.databases.lemma_wf_dom();
                    if old(self).databases.has(database_id@) {
                        assert(old(self).databases.contents().contains_key(database_id@));
                        assert(self.databases.contents().contains_key(database_id@));
                        assert(self.databases.has(database_id@));
                        assert(self.databases.contents()[database_id@] == old(self).databases.contents()[database_id@]);
                    }
                }
            },
            Some(mut db) => {
                let ghost d0 = db;
                db.delete_view(view_id);
                if db.is_inline_view(view_id) {
                    db.close();
                    self.delete_database(database_id);
                } else {
                    let ghost db_edited = db;
                    self.store_database(db);
                    proof {
                        assert(self.databases.contents()[database_id@] == db_edited);
                        assert(db_edited.body@.views == d0.body@.views.filter(
                            crate::database::keeps_view(view_id@),
                        ));
                    }
                }
            },
        }
    }

    /// Creates a linked view on an existing database: validates the
    /// parameters, fails with `DatabaseNotExist` when the database cannot
    /// be resolved, and otherwise links the view in the metadata record —
    /// idempotently — and registers it on the database object.
    pub fn create_database_linked_view(&mut self, params: CreateViewParams) -> (r: Result<
        (),
        DatabaseError,
    >)
        requires
            old(self).wf(),
        ensures
            final(self).wf(),
            final(self).uid == old(self).uid,
            old(self).cache_indexed() ==> final(self).cache_indexed(),
            !(params.database_id@.len() > 0 && params.view_id@.len() > 0) ==> (r matches Err(e)
                && e is InvalidParams) && final(self).meta_list@ == old(self).meta_list@,
            !spec_has_db(old(self).meta_list@, params.database_id@) ==> r is Err,
            (params.database_id@.len() > 0 && params.view_id@.len() > 0) ==> (r matches Err(e)
                ==> e is DatabaseNotExist),
            r is Err ==> final(self).meta_list@ == old(self).meta_list@,
            r is Ok ==> spec_has_db(old(self).meta_list@, params.database_id@) && final(self).databases.has(params.database_id@) && ({
                let i = spec_db_index(old(self).meta_list@, params.database_id@);
                final(self).meta_list@ == (if old(self).meta_list@[i].linked_views.contains(
                    params.view_id@,
                ) {
                    old(self).meta_list@
                } else {
                    old(self).meta_list@.update(
                        i,
                        crate::db_meta::DatabaseMetaModel {
                            database_id: old(self).meta_list@[i].database_id,
                            inline_view_id: old(self).meta_list@[i].inline_view_id,
                            linked_views: old(self).meta_list@[i].linked_views.push(
                                params.view_id@,
                            ),
                        },
                    )
                })
            }),
    {
        let params = match CreateViewParamsValidator::validate(params) {
            Ok(p) => p,
            Err(e) => {
                return Err(e);
            },
        };
        match self.take_database(params.database_id.as_str()) {
            None => Err(DatabaseError::DatabaseNotExist),
            Some(mut db) => {
                self.meta_list.link_view(params.database_id.as_str(), params.view_id.as_str());
                let out = db.create_linked_view(params);
                match out {
                    Ok(_) => {
                        self.store_database(db);
                        Ok(())
                    },
                    Err(e) => {
                        self.store_database(db);
                        Err(e)
                    },
                }
            },
        }
    }
}

/// All database records of a workspace metadata index, in index order.
pub fn get_all_database_meta(meta_list: &DatabaseMetaList) -> (r: Vec<DatabaseMeta>)
    ensures
        r@.map_values(|m: DatabaseMeta| m@) == meta_list@,
{
    meta_list.get_all_database_meta()
}

} // verus!
