//! End-to-end tests of the row store and the workspace database index,
//! driven through an in-memory collaborator service.

use std::collections::HashMap;
use std::sync::{Arc, Mutex};

use workspace_database::block::{Block, BlockEvent};
use workspace_database::cache::BoundedObjectCache;
use workspace_database::database::{DatabaseBody, DatabaseData};
use workspace_database::db_meta::DatabaseMetaList;
use workspace_database::entity::{CollabDocState, CollabPersistenceConfig, CollabSnapshot, CollabType};
use workspace_database::error::{DatabaseError, PersistenceError};
use workspace_database::rows::{Cell, DatabaseRow, Row, RowId, RowMeta};
use workspace_database::service::DatabaseCollabService;
use workspace_database::user_db::WorkspaceDatabase;
use workspace_database::views::{CreateDatabaseParams, CreateViewParams};
use yrs::{ReadTxn, Text, Transact};

#[derive(Default)]
struct MockInner {
    existing: HashMap<String, ()>,
    rows: HashMap<String, Row>,
    bodies: HashMap<String, DatabaseBody>,
    remote_states: HashMap<String, Vec<u8>>,
    remote_error: bool,
    available: bool,
    batch_reply: Option<Vec<(String, Vec<u8>)>>,
    fetch_log: Vec<String>,
}

#[derive(Clone)]
struct MockService {
    inner: Arc<Mutex<MockInner>>,
}

impl MockService {
    fn new() -> Self {
        let mut inner = MockInner::default();
        inner.available = true;
        MockService { inner: Arc::new(Mutex::new(inner)) }
    }

    fn set_available(&self, available: bool) {
        self.inner.lock().unwrap().available = available;
    }

    fn set_remote_state(&self, object_id: &str, state: Vec<u8>) {
        self.inner.lock().unwrap().remote_states.insert(object_id.to_string(), state);
    }

    fn set_batch_reply(&self, reply: Vec<(String, Vec<u8>)>) {
        self.inner.lock().unwrap().batch_reply = Some(reply);
    }

    fn add_existing_row(&self, row: Row) {
        let mut inner = self.inner.lock().unwrap();
        let id = row.id.as_str().to_string();
        inner.existing.insert(id.clone(), ());
        inner.rows.insert(id, row);
    }

    fn fetch_count(&self) -> usize {
        self.inner.lock().unwrap().fetch_log.len()
    }
}

fn clone_body(body: &DatabaseBody) -> DatabaseBody {
    body.clone()
}

impl DatabaseCollabService for MockService {
    fn is_collab_db_available(&self) -> bool {
        self.inner.lock().unwrap().available
    }

    fn is_exist(&self, _uid: i64, object_id: &str) -> bool {
        self.inner.lock().unwrap().existing.contains_key(object_id)
    }

    fn delete_doc(&self, _uid: i64, object_id: &str) -> Result<(), PersistenceError> {
        let mut inner = self.inner.lock().unwrap();
        inner.existing.remove(object_id);
        inner.rows.remove(object_id);
        inner.bodies.remove(object_id);
        Ok(())
    }

    fn get_snapshots(&self, _uid: i64, _object_id: &str) -> Vec<CollabSnapshot> {
        Vec::new()
    }

    fn update_decodes(&self, data: &[u8]) -> bool {
        <yrs::Update as yrs::updates::decoder::Decode>::decode_v1(data).is_ok()
    }

    fn get_collab_doc_state(
        &self,
        object_id: &str,
        _object_ty: CollabType,
    ) -> Result<CollabDocState, DatabaseError> {
        let mut inner = self.inner.lock().unwrap();
        inner.fetch_log.push(object_id.to_string());
        if inner.remote_error {
            return Err(DatabaseError::ServiceError("remote failed".to_string()));
        }
        Ok(inner.remote_states.get(object_id).cloned().unwrap_or_default())
    }

    fn batch_get_collab_update(
        &self,
        object_ids: Vec<String>,
        _object_ty: CollabType,
    ) -> Result<Vec<(String, CollabDocState)>, DatabaseError> {
        let mut inner = self.inner.lock().unwrap();
        for id in &object_ids {
            inner.fetch_log.push(id.clone());
        }
        if let Some(reply) = inner.batch_reply.take() {
            return Ok(reply);
        }
        Ok(object_ids.into_iter().map(|id| (id, Vec::new())).collect())
    }

    fn build_row_collab(
        &self,
        _uid: i64,
        row_id: &RowId,
        _doc_state: CollabDocState,
        initial: Option<Row>,
        _config: CollabPersistenceConfig,
    ) -> DatabaseRow {
        let mut inner = self.inner.lock().unwrap();
        let id = row_id.as_str().to_string();
        match initial {
            Some(row) => {
                inner.existing.insert(id.clone(), ());
                let copy = row.clone();
                inner.rows.insert(id, copy);
                DatabaseRow { row_id: row.id.clone(), row: Some(row), meta: None }
            }
            None => {
                let row = inner.rows.get(&id).map(|r| r.clone());
                DatabaseRow { row_id: RowId::new(id), row, meta: None }
            }
        }
    }

    fn build_database_collab(
        &self,
        _uid: i64,
        object_id: &str,
        _doc_state: CollabDocState,
        initial: Option<DatabaseBody>,
        _config: CollabPersistenceConfig,
    ) -> DatabaseBody {
        let mut inner = self.inner.lock().unwrap();
        match initial {
            Some(body) => {
                inner.existing.insert(object_id.to_string(), ());
                let copy = clone_body(&body);
                inner.bodies.insert(object_id.to_string(), copy);
                body
            }
            None => match inner.bodies.get(object_id) {
                Some(body) => clone_body(body),
                None => DatabaseBody {
                    database_id: object_id.to_string(),
                    inline_view_id: String::new(),
                    name: String::new(),
                    views: Vec::new(),
                    fields: Vec::new(),
                    row_orders: Vec::new(),
                },
            },
        }
    }
}

fn make_row(id: &str, cells: Vec<(&str, &str)>) -> Row {
    Row {
        id: RowId::new(id.to_string()),
        height: 60,
        visibility: true,
        cells: cells
            .into_iter()
            .map(|(f, d)| Cell { field_id: f.to_string(), data: d.to_string() })
            .collect(),
    }
}

fn make_field(id: &str, name: &str) -> workspace_database::views::Field {
    workspace_database::views::Field { id: id.to_string(), name: name.to_string(), field_type: 0 }
}

fn fresh_workspace(svc: MockService) -> WorkspaceDatabase<MockService> {
    WorkspaceDatabase::open(1, DatabaseMetaList::new(), CollabPersistenceConfig::new(), svc)
}

fn create_params(db_id: &str, view_id: &str, rows: Vec<Row>) -> CreateDatabaseParams {
    CreateDatabaseParams {
        database_id: db_id.to_string(),
        view_id: view_id.to_string(),
        name: "grid".to_string(),
        fields: vec![make_field("f1", "name"), make_field("f2", "status")],
        rows,
    }
}

#[test]
fn unknown_database_id_resolves_to_nothing() {
    let svc = MockService::new();
    let mut wd = fresh_workspace(svc.clone());
    // The index is authoritative: an unknown id yields nothing even when a
    // database with that id was once built and cached under another record.
    assert!(wd.get_database("missing").is_none());
    let params = create_params("d1", "v1", vec![]);
    wd.create_database(params).unwrap();
    assert!(wd.get_database("d1").is_some());
    // Remove only the metadata record; the cached handle must stop counting.
    wd.meta_list.delete_database("d1");
    assert!(wd.get_database("d1").is_none());
}

#[test]
fn unresolved_row_reads_back_empty() {
    let svc = MockService::new();
    let mut block: Block<MockService> = Block::new(1, svc.clone());
    let rid = RowId::new("r-unknown".to_string());
    let row = block.get_row(&rid);
    assert_eq!(row.id.as_str(), "r-unknown");
    assert!(row.cells.is_empty());
    assert_eq!(row.height, 60);
    // The miss queued exactly one fetch request.
    assert_eq!(block.task_controller.len(), 1);
}

#[test]
fn get_or_init_returns_the_cached_object() {
    let svc = MockService::new();
    svc.add_existing_row(make_row("r1", vec![("f1", "alpha")]));
    let mut block: Block<MockService> = Block::new(1, svc.clone());
    let rid = RowId::new("r1".to_string());
    let first = block.get_or_init_row(&rid).expect("row exists locally");
    let second = block.get_or_init_row(&rid).expect("row is cached");
    assert_eq!(block.cache.len(), 1);
    assert_eq!(first.row_id.as_str(), second.row_id.as_str());
    let a = first.row.as_ref().unwrap();
    let b = second.row.as_ref().unwrap();
    assert_eq!(a.cells.len(), b.cells.len());
    assert_eq!(a.cells[0].data, "alpha");
    assert_eq!(b.cells[0].data, "alpha");
}

#[test]
fn deleting_the_inline_view_deletes_the_database() {
    let svc = MockService::new();
    let mut wd = fresh_workspace(svc.clone());
    let params = create_params("d1", "v1", vec![make_row("r1", vec![])]);
    wd.create_database(params).unwrap();
    assert_eq!(wd.get_all_database_meta().len(), 1);
    wd.delete_view("d1", "v1");
    // Cascade: record gone, cache gone.
    assert_eq!(wd.get_all_database_meta().len(), 0);
    assert!(!wd.databases.contains("d1"));
    assert!(wd.get_database("d1").is_none());
}

#[test]
fn deleting_a_linked_view_keeps_the_database() {
    let svc = MockService::new();
    let mut wd = fresh_workspace(svc.clone());
    wd.create_database(create_params("d1", "v1", vec![])).unwrap();
    wd.create_database_linked_view(CreateViewParams {
        database_id: "d1".to_string(),
        view_id: "v2".to_string(),
        name: "board".to_string(),
    })
    .unwrap();
    wd.delete_view("d1", "v2");
    assert_eq!(wd.get_all_database_meta().len(), 1);
    let body = wd.get_database("d1").expect("database survives");
    // The linked view is gone from the body; the inline view stays.
    assert!(body.views.iter().all(|v| v.id != "v2"));
    assert!(body.views.iter().any(|v| v.id == "v1"));
}

#[test]
fn duplicated_database_matches_but_for_the_id() {
    let svc = MockService::new();
    let mut wd = fresh_workspace(svc.clone());
    let rows = vec![make_row("r1", vec![("f1", "a")]), make_row("r2", vec![("f1", "b")])];
    wd.create_database(create_params("d1", "v1", rows)).unwrap();
    let copy = wd.duplicate_database("v1").unwrap();
    assert_ne!(copy.database_id, "d1");
    assert_eq!(copy.fields.len(), 2);
    assert_eq!(copy.fields[0].name, "name");
    assert_eq!(copy.row_orders.len(), 2);
    // Export both and compare the content structurally.
    let original: DatabaseData = wd.get_database_duplicated_data("v1").unwrap();
    let duplicate: DatabaseData = wd
        .get_database_duplicated_data(copy.inline_view_id.as_str())
        .unwrap();
    assert_eq!(original.fields.len(), duplicate.fields.len());
    for (a, b) in original.fields.iter().zip(duplicate.fields.iter()) {
        assert_eq!(a.id, b.id);
        assert_eq!(a.name, b.name);
    }
    assert_eq!(original.rows.len(), duplicate.rows.len());
    for (a, b) in original.rows.iter().zip(duplicate.rows.iter()) {
        assert_eq!(a.id.as_str(), b.id.as_str());
        assert_eq!(a.cells.len(), b.cells.len());
        for (ca, cb) in a.cells.iter().zip(b.cells.iter()) {
            assert_eq!(ca.field_id, cb.field_id);
            assert_eq!(ca.data, cb.data);
        }
    }
    assert_ne!(original.view.database_id, duplicate.view.database_id);
}

#[test]
fn closed_database_reopens_from_local_storage() {
    let svc = MockService::new();
    let mut wd = fresh_workspace(svc.clone());
    let rows = vec![
        make_row("r1", vec![("f1", "one")]),
        make_row("r2", vec![("f1", "two")]),
        make_row("r3", vec![("f1", "three")]),
    ];
    wd.create_database(create_params("d1", "v1", rows)).unwrap();
    wd.close_database("d1");
    assert!(!wd.databases.contains("d1"));
    let body = wd.get_database("d1").expect("reopens from local storage");
    assert_eq!(body.row_orders.len(), 3);
    // Reading the rows back goes through the local store, not the remote.
    let data = wd.get_database_duplicated_data("v1").unwrap();
    assert_eq!(data.rows.len(), 3);
    let texts: Vec<String> = data.rows.iter().map(|r| r.cells[0].data.clone()).collect();
    assert_eq!(texts, vec!["one", "two", "three"]);
    assert_eq!(svc.fetch_count(), 0);
}

#[test]
fn empty_remote_state_is_not_found_and_not_cached() {
    let svc = MockService::new();
    let mut wd = fresh_workspace(svc.clone());
    svc.set_remote_state("missing-id", Vec::new());
    let doc = wd.get_database_collab("missing-id");
    assert!(doc.is_none());
    assert!(!wd.database_collabs.contains("missing-id"));
    assert_eq!(svc.fetch_count(), 1);
}

#[test]
fn batch_results_are_announced_in_resolution_order() {
    let svc = MockService::new();
    let mut block: Block<MockService> = Block::new(1, svc.clone());
    let mut rx = block.subscribe_event();
    block.batch_load_rows(vec![
        RowId::new("r1".to_string()),
        RowId::new("r2".to_string()),
    ]);
    // The remote resolves r2 before r1.
    svc.set_batch_reply(vec![("r2".to_string(), Vec::new()), ("r1".to_string(), Vec::new())]);
    block.process_next_task();
    let first = block.poll_event(&mut rx).expect("first event");
    let second = block.poll_event(&mut rx).expect("second event");
    assert!(block.poll_event(&mut rx).is_none());
    let BlockEvent::DidFetchRow(details) = first;
    assert_eq!(details.len(), 1);
    assert_eq!(details[0].row.id.as_str(), "r2");
    let BlockEvent::DidFetchRow(details2) = second;
    assert_eq!(details2.len(), 1);
    assert_eq!(details2[0].row.id.as_str(), "r1");
}

#[test]
fn cache_capacity_evicts_least_recently_inserted() {
    let mut cache: BoundedObjectCache<String> = BoundedObjectCache::new(3);
    cache.put("a".to_string(), "1".to_string());
    cache.put("b".to_string(), "2".to_string());
    cache.put("c".to_string(), "3".to_string());
    let evicted = cache.put("d".to_string(), "4".to_string());
    assert!(!cache.contains("a"));
    assert!(cache.contains("b"));
    assert!(cache.contains("c"));
    assert!(cache.contains("d"));
    assert_eq!(cache.len(), 3);
    let (k, v) = evicted.expect("the least recently inserted entry leaves");
    assert_eq!(k, "a");
    assert_eq!(v, "1");
}

#[test]
fn cache_get_marks_recently_used() {
    let mut cache: BoundedObjectCache<i64> = BoundedObjectCache::new(2);
    cache.put("a".to_string(), 1);
    cache.put("b".to_string(), 2);
    assert_eq!(cache.get("a").copied(), Some(1));
    // "b" is now the least recently used entry and leaves first.
    cache.put("c".to_string(), 3);
    assert!(cache.contains("a"));
    assert!(!cache.contains("b"));
    assert!(cache.contains("c"));
    assert_eq!(cache.get("missing"), None);
    assert_eq!(cache.pop("a"), Some(1));
    assert!(!cache.contains("a"));
}

#[test]
fn update_row_mutates_only_cached_rows() {
    let svc = MockService::new();
    svc.add_existing_row(make_row("r1", vec![("f1", "old")]));
    let mut block: Block<MockService> = Block::new(1, svc.clone());
    let rid = RowId::new("r1".to_string());
    // Not cached yet: the update is silently dropped.
    block.update_row(&rid, |mut r: Row| {
        r.height = 99;
        r
    });
    assert_eq!(block.cache.len(), 0);
    // Cache it, then update.
    block.get_or_init_row(&rid).unwrap();
    block.update_row(&rid, |mut r: Row| {
        r.cells[0].data = "new".to_string();
        r
    });
    let row = block.get_row(&rid);
    assert_eq!(row.cells[0].data, "new");
}

#[test]
fn row_meta_reads_back_empty_when_unset() {
    let svc = MockService::new();
    svc.add_existing_row(make_row("r1", vec![]));
    let mut block: Block<MockService> = Block::new(1, svc.clone());
    let rid = RowId::new("r1".to_string());
    let meta = block.get_row_meta(&rid).expect("row resolves");
    assert!(meta.icon_url.is_none());
    assert!(meta.cover_url.is_none());
    // An unresolved row yields no metadata at all.
    let rid2 = RowId::new("r-absent".to_string());
    assert!(block.get_row_meta(&rid2).is_none());
    // Stored metadata comes back through the update path.
    block.update_row_meta(&rid, |mut m: RowMeta| {
        m.icon_url = Some("icon".to_string());
        m
    });
    let meta2 = block.get_row_meta(&rid).unwrap();
    assert_eq!(meta2.icon_url.as_deref(), Some("icon"));
}

#[test]
fn get_cell_resolves_row_and_field() {
    let svc = MockService::new();
    svc.add_existing_row(make_row("r1", vec![("f1", "x"), ("f2", "y")]));
    let mut block: Block<MockService> = Block::new(1, svc.clone());
    let rid = RowId::new("r1".to_string());
    let cell = block.get_cell(&rid, "f2").expect("field present");
    assert_eq!(cell.data, "y");
    assert!(block.get_cell(&rid, "f9").is_none());
    assert!(block.get_cell(&RowId::new("nope".to_string()), "f1").is_none());
}

#[test]
fn close_rows_evicts_without_deleting() {
    let svc = MockService::new();
    svc.add_existing_row(make_row("r1", vec![]));
    svc.add_existing_row(make_row("r2", vec![]));
    let mut block: Block<MockService> = Block::new(1, svc.clone());
    let r1 = RowId::new("r1".to_string());
    let r2 = RowId::new("r2".to_string());
    block.get_or_init_row(&r1).unwrap();
    block.get_or_init_row(&r2).unwrap();
    assert_eq!(block.cache.len(), 2);
    block.close_rows(&[r1.clone()]);
    assert_eq!(block.cache.len(), 1);
    // Still on disk: it resolves again.
    assert!(block.get_or_init_row(&r1).is_some());
    // delete_row removes the persisted document too.
    block.delete_row(&r2);
    assert!(block.get_or_init_row(&r2).is_none());
}

#[test]
fn create_rows_returns_orders_in_order() {
    let svc = MockService::new();
    let mut block: Block<MockService> = Block::new(1, svc.clone());
    let orders = block.create_rows(vec![make_row("r1", vec![]), make_row("r2", vec![])]);
    assert_eq!(orders.len(), 2);
    assert_eq!(orders[0].id.as_str(), "r1");
    assert_eq!(orders[1].id.as_str(), "r2");
    assert!(block.cache.contains("r1"));
    assert!(block.cache.contains("r2"));
}

#[test]
fn linked_view_is_registered_once() {
    let svc = MockService::new();
    let mut wd = fresh_workspace(svc.clone());
    wd.create_database(create_params("d1", "v1", vec![])).unwrap();
    let params = CreateViewParams {
        database_id: "d1".to_string(),
        view_id: "v2".to_string(),
        name: "board".to_string(),
    };
    wd.create_database_linked_view(params.clone()).unwrap();
    wd.create_database_linked_view(params).unwrap();
    let metas = wd.get_all_database_meta();
    assert_eq!(metas.len(), 1);
    assert_eq!(metas[0].linked_views, vec!["v1".to_string(), "v2".to_string()]);
    assert_eq!(
        wd.get_database_id_with_view_id("v2").as_deref(),
        Some("d1")
    );
}

#[test]
fn linked_view_requires_an_existing_database() {
    let svc = MockService::new();
    let mut wd = fresh_workspace(svc.clone());
    let err = wd
        .create_database_linked_view(CreateViewParams {
            database_id: "ghost".to_string(),
            view_id: "v9".to_string(),
            name: "board".to_string(),
        })
        .unwrap_err();
    assert!(matches!(err, DatabaseError::DatabaseNotExist));
    let err2 = wd
        .create_database_linked_view(CreateViewParams {
            database_id: String::new(),
            view_id: "v9".to_string(),
            name: "board".to_string(),
        })
        .unwrap_err();
    assert!(matches!(err2, DatabaseError::InvalidParams(_)));
}

#[test]
fn delete_database_is_logical_first() {
    let svc = MockService::new();
    let mut wd = fresh_workspace(svc.clone());
    wd.create_database(create_params("d1", "v1", vec![])).unwrap();
    wd.create_database(create_params("d2", "v2", vec![])).unwrap();
    wd.delete_database("d1");
    let metas = wd.get_all_database_meta();
    assert_eq!(metas.len(), 1);
    assert_eq!(metas[0].database_id, "d2");
    assert!(wd.get_database("d1").is_none());
    assert!(wd.get_database("d2").is_some());
}

#[test]
fn track_database_registers_without_building() {
    let svc = MockService::new();
    let mut wd = fresh_workspace(svc.clone());
    wd.track_database("shared", vec!["va".to_string(), "vb".to_string()]);
    let metas = wd.get_all_database_meta();
    assert_eq!(metas.len(), 1);
    assert_eq!(metas[0].database_id, "shared");
    assert_eq!(metas[0].inline_view_id, "va");
    assert_eq!(
        wd.get_database_id_with_view_id("vb").as_deref(),
        Some("shared")
    );
}

#[test]
fn restore_from_snapshot_needs_a_decodable_update() {
    let svc = MockService::new();
    let mut wd = fresh_workspace(svc.clone());
    let bad = CollabSnapshot { data: vec![0xff, 0xff, 0xff, 0xff], created_at: 0 };
    assert!(wd.restore_database_from_snapshot("d1", bad).is_err());
    // A state captured from a real document decodes and restores.
    let doc = yrs::Doc::new();
    {
        let text = doc.get_or_insert_text("content");
        let mut txn = doc.transact_mut();
        text.insert(&mut txn, 0, "snapshot");
    }
    let data = {
        let txn = doc.transact();
        txn.encode_state_as_update_v1(&yrs::StateVector::default())
    };
    let good = CollabSnapshot { data, created_at: 1 };
    let restored = wd.restore_database_from_snapshot("d1", good).expect("decodes");
    assert_eq!(restored.body.database_id, "d1");
    assert!(restored.notifier.is_none());
}

#[test]
fn initial_row_load_is_bounded() {
    let svc = MockService::new();
    // A small database asks for all of its rows; a large one for the
    // first hundred.
    let mut small: workspace_database::database::Database<MockService> =
        workspace_database::database::Database::create_with_inline_view(
            create_params("d-small", "v-small", vec![make_row("r1", vec![]), make_row("r2", vec![])]),
            workspace_database::database::DatabaseContext {
                uid: 1,
                collab: DatabaseBody {
                    database_id: String::new(),
                    inline_view_id: String::new(),
                    name: String::new(),
                    views: Vec::new(),
                    fields: Vec::new(),
                    row_orders: Vec::new(),
                },
                collab_service: svc.clone(),
                notifier: None,
            },
        )
        .unwrap();
    small.load_all_rows();
    match small.block.task_controller.take_next().unwrap() {
        workspace_database::fetch::BlockTask::BatchFetchRow { row_ids, .. } => {
            assert_eq!(row_ids.len(), 2);
        }
        _ => panic!("expected a batch request"),
    }

    let many: Vec<Row> = (0..120).map(|i| make_row(&format!("row-{i}"), vec![])).collect();
    let mut large: workspace_database::database::Database<MockService> =
        workspace_database::database::Database::create_with_inline_view(
            create_params("d-large", "v-large", many),
            workspace_database::database::DatabaseContext {
                uid: 1,
                collab: DatabaseBody {
                    database_id: String::new(),
                    inline_view_id: String::new(),
                    name: String::new(),
                    views: Vec::new(),
                    fields: Vec::new(),
                    row_orders: Vec::new(),
                },
                collab_service: svc.clone(),
                notifier: None,
            },
        )
        .unwrap();
    large.load_all_rows();
    match large.block.task_controller.take_next().unwrap() {
        workspace_database::fetch::BlockTask::BatchFetchRow { row_ids, .. } => {
            assert_eq!(row_ids.len(), 100);
            assert_eq!(row_ids[0].as_str(), "row-0");
            assert_eq!(row_ids[99].as_str(), "row-99");
        }
        _ => panic!("expected a batch request"),
    }
}

#[test]
fn views_resolve_to_their_database() {
    let svc = MockService::new();
    let mut wd = fresh_workspace(svc.clone());
    wd.create_database(create_params("d1", "v1", vec![])).unwrap();
    assert_eq!(wd.get_database_id_with_view_id("v1").as_deref(), Some("d1"));
    assert!(wd.get_database_id_with_view_id("v-unknown").is_none());
    let body = wd.get_database_with_view_id("v1").expect("view resolves");
    assert_eq!(body.database_id, "d1");
    assert!(wd.get_database_with_view_id("v-unknown").is_none());
}

#[test]
fn subscribers_observe_only_later_events() {
    let svc = MockService::new();
    let mut block: Block<MockService> = Block::new(1, svc.clone());
    block.batch_load_rows(vec![RowId::new("r1".to_string())]);
    block.process_next_task();
    // Subscribing after the first delivery skips it.
    let mut rx = block.subscribe_event();
    assert!(block.poll_event(&mut rx).is_none());
    block.batch_load_rows(vec![RowId::new("r2".to_string())]);
    block.process_next_task();
    let BlockEvent::DidFetchRow(details) = block.poll_event(&mut rx).expect("later event");
    assert_eq!(details[0].row.id.as_str(), "r2");
    assert!(block.poll_event(&mut rx).is_none());
}

#[test]
fn failed_remote_fetch_resolves_nothing() {
    let svc = MockService::new();
    svc.inner.lock().unwrap().remote_error = true;
    let mut wd = fresh_workspace(svc.clone());
    assert!(wd.get_database_collab("d-remote").is_none());
    assert!(!wd.database_collabs.contains("d-remote"));
}

#[test]
fn unavailable_store_resolves_nothing() {
    let svc = MockService::new();
    svc.add_existing_row(make_row("r1", vec![]));
    let mut block: Block<MockService> = Block::new(1, svc.clone());
    svc.set_available(false);
    assert!(block.get_or_init_row(&RowId::new("r1".to_string())).is_none());
    svc.set_available(true);
    assert!(block.get_or_init_row(&RowId::new("r1".to_string())).is_some());
}
