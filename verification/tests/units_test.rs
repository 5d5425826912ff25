//! Unit tests of the protocol messages, the derived identifiers, the
//! metadata index, the disk plugin and the smaller value types.

use workspace_database::db_meta::{DatabaseMetaList};
use workspace_database::disk_plugin::{CollabDiskPlugin, DocInitAction};
use workspace_database::entity::{CollabOrigin, CollabPersistenceConfig, CollabType};
use workspace_database::error::DatabaseError;
use workspace_database::fetch::{BlockTask, BlockTaskController};
use workspace_database::kv::{KVEntry, RocksDBEntry};
use workspace_database::msg::{
    md5, ClientCollabInit, ClientCollabUpdate, CollabMessage, CollabServerAck,
    CollabServerBroadcast, CollabServerResponse, CollabServerSync, CSAwarenessUpdate,
};
use workspace_database::rows::{row_document_id, Row, RowId};
use workspace_database::user_db::{accept_fetched_state, get_all_database_meta};
use workspace_database::views::{CreateViewParams, CreateViewParamsValidator};
use std::cmp::Ordering;

#[test]
fn md5_digest_matches_reference() {
    assert_eq!(md5(b"hello"), "5d41402abc4b2a76b9719d911017c592");
    assert_eq!(md5(b""), "d41d8cd98f00b204e9800998ecf8427e");
}

#[test]
fn row_document_id_derives_the_v5_uuid() {
    let rid = RowId::new("67e55044-10b1-426f-9247-bb680e5fe0c8".to_string());
    let derived = row_document_id(&rid).expect("well-formed row id");
    let expected = uuid::Uuid::new_v5(
        &uuid::Uuid::parse_str("67e55044-10b1-426f-9247-bb680e5fe0c8").unwrap(),
        b"document_id",
    )
    .to_string();
    assert_eq!(derived, expected);
    assert_ne!(derived, "67e55044-10b1-426f-9247-bb680e5fe0c8");
    assert!(row_document_id(&RowId::new("not-a-uuid".to_string())).is_none());
}

#[test]
fn client_init_carries_the_payload_digest() {
    let msg = ClientCollabInit::new(
        CollabOrigin::Empty,
        "oid".to_string(),
        CollabType::Database,
        "wid".to_string(),
        7,
        b"payload".to_vec(),
    );
    assert_eq!(msg.md5, format!("{:x}", md5::compute(b"payload")));
    assert_eq!(msg.msg_id, 7);
}

#[test]
fn message_ids_and_payloads_read_back() {
    let ack = CollabMessage::ServerAck(CollabServerAck::new("o1".to_string(), 3, None));
    assert_eq!(ack.msg_id(), Some(3));
    assert!(ack.is_empty());
    assert_eq!(ack.object_id(), "o1");
    assert!(ack.payload().is_none());
    assert_eq!(ack.business_id(), 1);
    assert!(!ack.is_init());

    let update = CollabMessage::ClientUpdate(ClientCollabUpdate::new(
        CollabOrigin::Empty,
        "o2".to_string(),
        9,
        vec![1, 2, 3],
    ));
    assert_eq!(update.msg_id(), Some(9));
    assert!(!update.is_empty());
    assert_eq!(update.payload().unwrap().as_slice(), &[1, 2, 3]);
    assert_eq!(update.into_payload(), vec![1, 2, 3]);

    let aware = CollabMessage::AwarenessUpdate(CSAwarenessUpdate::new(
        "o3".to_string(),
        Vec::new(),
    ));
    assert_eq!(aware.msg_id(), None);
    assert!(aware.is_empty());

    let response = CollabMessage::ServerResponse(CollabServerResponse::new(
        None,
        "o4".to_string(),
        vec![9],
    ));
    assert_eq!(response.msg_id(), None);
    assert!(response.origin().is_none());

    let broadcast = CollabMessage::ServerBroadcast(CollabServerBroadcast::new(
        CollabOrigin::Server,
        "o5".to_string(),
        vec![8],
    ));
    assert!(broadcast.origin().is_some());
    assert_eq!(broadcast.into_payload(), vec![8]);
}

#[test]
fn sink_order_puts_init_first_then_sync_then_descending_ids() {
    let init = CollabMessage::ClientInit(ClientCollabInit::new(
        CollabOrigin::Empty,
        "o".to_string(),
        CollabType::Database,
        "w".to_string(),
        1,
        Vec::new(),
    ));
    let sync = CollabMessage::ServerSync(CollabServerSync::new(
        CollabOrigin::Server,
        "o".to_string(),
        Vec::new(),
        2,
    ));
    let low = CollabMessage::ServerAck(CollabServerAck::new("o".to_string(), 1, None));
    let high = CollabMessage::ServerAck(CollabServerAck::new("o".to_string(), 5, None));
    assert_eq!(init.sink_order(&sync), Ordering::Greater);
    assert_eq!(sync.sink_order(&low), Ordering::Greater);
    assert_eq!(low.sink_order(&high), Ordering::Greater);
    assert_eq!(high.sink_order(&low), Ordering::Less);
    assert_eq!(low.sink_order(&low), Ordering::Equal);
    // Equality tracks the message id.
    let low_twin = CollabMessage::ServerAck(CollabServerAck::new("other".to_string(), 1, None));
    assert!(low == low_twin);
    assert!(!(low == high));
}

#[test]
fn view_params_validation_requires_both_ids() {
    let ok = CreateViewParamsValidator::validate(CreateViewParams {
        database_id: "d".to_string(),
        view_id: "v".to_string(),
        name: "n".to_string(),
    });
    assert!(ok.is_ok());
    let no_db = CreateViewParamsValidator::validate(CreateViewParams {
        database_id: String::new(),
        view_id: "v".to_string(),
        name: "n".to_string(),
    });
    assert!(matches!(no_db.unwrap_err(), DatabaseError::InvalidParams(_)));
    let no_view = CreateViewParamsValidator::validate(CreateViewParams {
        database_id: "d".to_string(),
        view_id: String::new(),
        name: "n".to_string(),
    });
    assert!(no_view.is_err());
}

#[test]
fn meta_list_links_views_idempotently() {
    let mut metas = DatabaseMetaList::new();
    metas.add_database("d1", vec!["v1".to_string()]);
    metas.link_view("d1", "v2");
    metas.link_view("d1", "v2");
    metas.link_view("ghost", "v3");
    let all = metas.get_all_database_meta();
    assert_eq!(all.len(), 1);
    assert_eq!(all[0].linked_views, vec!["v1".to_string(), "v2".to_string()]);
    let found = metas.get_database_meta_with_view_id("v2").unwrap();
    assert_eq!(found.database_id, "d1");
    assert!(metas.get_database_meta_with_view_id("v3").is_none());
    metas.delete_database("d1");
    assert!(!metas.contains("d1"));
    assert_eq!(get_all_database_meta(&metas).len(), 0);
}

#[test]
fn meta_list_replaces_records_by_id() {
    let mut metas = DatabaseMetaList::new();
    metas.add_database("d1", vec!["v1".to_string()]);
    metas.add_database("d1", vec!["v9".to_string()]);
    let all = metas.get_all_database_meta();
    assert_eq!(all.len(), 1);
    assert_eq!(all[0].inline_view_id, "v9");
    assert_eq!(all[0].linked_views, vec!["v9".to_string()]);
}

#[test]
fn disk_plugin_decides_per_lifecycle_event() {
    let mut plugin = CollabDiskPlugin::new_with_config(1, true).unwrap();
    assert_eq!(plugin.init(false), DocInitAction::CreateNewDoc);
    assert_eq!(plugin.init(true), DocInitAction::LoadFromDisk);
    // Nothing loaded yet: no flush, and updates are not persisted yet.
    assert!(!plugin.did_receive_update());
    plugin.record_loaded_updates(3);
    assert!(plugin.did_init());
    assert!(plugin.did_receive_update());
    // Without the flush flag, loaded updates never flush.
    let mut quiet = CollabDiskPlugin::new(1).unwrap();
    quiet.record_loaded_updates(5);
    assert!(!quiet.did_init());
    assert!(quiet.did_receive_update());
}

#[test]
fn task_controller_serves_in_submission_order() {
    let mut controller = BlockTaskController::new();
    assert!(controller.take_next().is_none());
    controller.add_task(BlockTask::FetchRow {
        uid: 1,
        row_id: RowId::new("r1".to_string()),
        seq: 0,
    });
    controller.add_task(BlockTask::BatchFetchRow {
        uid: 1,
        row_ids: vec![RowId::new("r2".to_string())],
        seq: 1,
    });
    assert_eq!(controller.len(), 2);
    match controller.take_next().unwrap() {
        BlockTask::FetchRow { row_id, seq, .. } => {
            assert_eq!(row_id.as_str(), "r1");
            assert_eq!(seq, 0);
        }
        _ => panic!("expected the single-row request first"),
    }
    match controller.take_next().unwrap() {
        BlockTask::BatchFetchRow { row_ids, seq, .. } => {
            assert_eq!(row_ids.len(), 1);
            assert_eq!(seq, 1);
        }
        _ => panic!("expected the batch request second"),
    }
    assert!(controller.take_next().is_none());
}

#[test]
fn kv_entry_hands_back_its_bytes() {
    let entry = RocksDBEntry::new(vec![1, 2], vec![3]);
    assert_eq!(entry.key(), &[1, 2]);
    assert_eq!(entry.value(), &[3]);
}

#[test]
fn persistence_config_builds_by_steps() {
    let config = CollabPersistenceConfig::new().snapshot_per_update(100);
    assert!(!config.enable_snapshot);
    assert_eq!(config.snapshot_per_update, 100);
}

#[test]
fn fetched_states_are_accepted_only_when_non_empty() {
    assert!(accept_fetched_state(Ok(Vec::new())).is_none());
    assert!(accept_fetched_state(Err(DatabaseError::ServiceError("x".to_string()))).is_none());
    assert_eq!(accept_fetched_state(Ok(vec![1])).unwrap(), vec![1]);
}

#[test]
fn empty_rows_carry_their_id() {
    let row = Row::empty(RowId::new("rid".to_string()));
    assert_eq!(row.id.as_str(), "rid");
    assert_eq!(row.height, 60);
    assert!(row.visibility);
    assert!(row.cells.is_empty());
    assert!(row.get_cell("anything").is_none());
}
