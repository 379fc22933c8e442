use teddy_sync::error::AppError;
use teddy_sync::ids::Uuid;
use teddy_sync::instant::Instant;
use teddy_sync::json::{Field, Json};
use teddy_sync::sync::config::cache::{
    choose_new_id, key_token_text, resolve_config_target, target_facts, CachedConfig, ConfigBatch,
    ConfigTarget, ExistingConfig, TargetFacts,
};
use teddy_sync::sync::config::download::{
    announce_deletions, config_items, echoes_anything, fetch_config_download, item_of_config,
    lookups_of_changes, lookups_of_items,
};
use teddy_sync::sync::config::processor::{
    process_config_changes, process_config_sync_items, ConfigOutcome, ConfigUpload,
};
use teddy_sync::sync::config::upload::{
    ConfigAction, ConfigBroadcast, ConfigContext, ConfigEvent, ConfigStore, ConfigWrite,
};
use teddy_sync::sync::device::{ItemDeviceRule, RegisteredDevices};
use teddy_sync::sync::drawing::{
    fetch_drawings_for_response, fetch_remote_drawing_mutations, process_drawing_changes,
    process_drawing_sync_items, DrawingAction, DrawingContext, DrawingEvent, DrawingRow,
    DrawingUpload, DrawingWrite,
};
use teddy_sync::sync::handler::{
    caches_to_move, carries_grocery, carries_mutations, consolidate, download_page, item_rule,
    merge_changes, receive, request_device, response_configs, response_drawings, sync_plan,
    sync_response, writing_client, RemoteScribble, RemoteTodo, ResponseDrawings, SyncPart,
    UploadReport,
};
use teddy_sync::sync::download::ReplyCursor;
use teddy_sync::sync::grocery::remote_mutations::{GroceryRows, RemoteGrocery};
use teddy_sync::sync::limits::SyncLimits;
use teddy_sync::sync::remote_mutations::{fetch_remote_mutations, RemoteRows};
use teddy_sync::sync::request::{
    ConfigChangeDelta, ConfigData, ConfigSyncItem, DrawingChangeDelta, DrawingData,
    DrawingSyncItem, SyncRequest,
};
use teddy_sync::sync::types::{
    ChangeDelta, Claims, OperationType, Payload, Product, RemoteDelta, SuccessResult, SyncScope,
    SyncState,
};
use teddy_sync::sync::versioning::VersionBounds;

const USER: Uuid = Uuid { bits: 1 };
const STRANGER: Uuid = Uuid { bits: 2 };
const CLIENT: Uuid = Uuid { bits: 3 };
const TABLET: Uuid = Uuid { bits: 10 };
const SECOND: Uuid = Uuid { bits: 11 };

fn text(s: &str) -> String {
    s.to_string()
}

fn id(bits: u128) -> Uuid {
    Uuid { bits }
}

fn row(bits: u128, device_uuid: Uuid, key: &str, version: i32) -> CachedConfig {
    CachedConfig {
        id: id(bits),
        user_id: USER,
        device_uuid,
        client_uuid: CLIENT,
        version,
        is_deleted: false,
        last_modified: 5,
        sync_state: None,
        key: text(key),
        value: text("old"),
    }
}

fn item(bits: u128, key: &str, value: &str) -> ConfigSyncItem {
    ConfigSyncItem {
        id: id(bits),
        device_uuid: None,
        key: text(key),
        value: text(value),
        sync_state: SyncState::Named(text("PENDING_UPDATE")),
        version: 1,
        is_deleted: false,
        last_modified: 77,
    }
}

fn context(rule: ItemDeviceRule) -> ConfigContext {
    ConfigContext {
        user_id: USER,
        server_ms: 1_000,
        rule,
        filter: None,
        bounds: VersionBounds { max_seed: 100 },
    }
}

/// A table in memory, and what the upload asked of it.
struct Table {
    rows: Vec<CachedConfig>,
    statements: usize,
    reads: usize,
    required: Vec<Uuid>,
    ensured: Vec<Uuid>,
    heard: Vec<ConfigBroadcast>,
}

impl Table {
    fn of(rows: Vec<CachedConfig>) -> Table {
        Table { rows, statements: 0, reads: 0, required: vec![], ensured: vec![], heard: vec![] }
    }

    fn put(&mut self, at: Uuid, stored: &ConfigStore) {
        self.rows.retain(|r| r.id != at && r.id != stored.id);
        assert!(
            !self.rows.iter().any(|r| r.device_uuid == stored.device_uuid && r.key == stored.key),
            "two rows under one key"
        );
        self.rows.push(CachedConfig {
            id: stored.id,
            user_id: USER,
            device_uuid: stored.device_uuid,
            client_uuid: CLIENT,
            version: stored.version,
            is_deleted: stored.is_deleted,
            last_modified: stored.last_modified,
            sync_state: None,
            key: stored.key.clone(),
            value: stored.value.clone(),
        });
    }

    fn issue(&mut self, run: &Vec<ConfigWrite>) {
        if run.is_empty() {
            return;
        }
        self.statements += 1;
        for write in run {
            match write {
                ConfigWrite::Insert(stored) => self.put(stored.id, stored),
                ConfigWrite::Update { row, .. } => self.put(row.id, row),
                ConfigWrite::Delete { id, version, last_modified, .. } => {
                    for r in self.rows.iter_mut().filter(|r| r.id == *id) {
                        r.is_deleted = true;
                        r.version = *version;
                        r.last_modified = *last_modified;
                    }
                }
            }
        }
    }

    fn facts(&self, submitted: Uuid, on: Uuid, key: &str) -> TargetFacts {
        let known = |r: &CachedConfig| ExistingConfig {
            id: r.id,
            version: r.version,
            key: r.key.clone(),
        };
        let mine = |r: &&CachedConfig| r.user_id == USER && r.device_uuid == on;
        target_facts(
            self.rows.iter().filter(mine).find(|r| r.key == key).map(known),
            self.rows.iter().filter(mine).find(|r| r.id == submitted).map(known),
            self.rows.iter().any(|r| r.id == submitted),
        )
    }

    fn load(&self, ids: Vec<Uuid>, keys: Vec<String>) -> ConfigBatch {
        let taken: Vec<Uuid> =
            self.rows.iter().map(|r| r.id).filter(|taken| ids.contains(taken)).collect();
        let mine = |r: &&CachedConfig| r.user_id == USER;
        let under_ids =
            self.rows.iter().filter(mine).filter(|r| ids.contains(&r.id)).map(|r| r.copy()).collect();
        let under_keys =
            self.rows.iter().filter(mine).filter(|r| keys.contains(&r.key)).map(|r| r.copy()).collect();
        ConfigBatch::load(&ids, &keys, &taken, under_ids, under_keys)
    }

    fn run(&mut self, upload: ConfigUpload) -> Result<ConfigOutcome, AppError> {
        self.run_with(upload, id(9_000))
    }

    fn run_with(&mut self, mut upload: ConfigUpload, fresh: Uuid) -> Result<ConfigOutcome, AppError> {
        let mut event = ConfigEvent::Go;
        for _ in 0..1_000 {
            let step = upload.advance_with(event, fresh)?;
            event = ConfigEvent::Go;
            match step.action {
                ConfigAction::Continue => {}
                ConfigAction::Issue(run) => self.issue(&run),
                ConfigAction::Rename { first, rename } => {
                    self.issue(&first);
                    self.statements += 1;
                    self.put(rename.from, &rename.row);
                }
                ConfigAction::Ensure(device) => self.ensured.push(device),
                ConfigAction::Require(device) => self.required.push(device),
                ConfigAction::ReadRow { id, device } => {
                    self.reads += 1;
                    let found = self
                        .rows
                        .iter()
                        .find(|r| r.id == id && r.user_id == USER && device.map_or(true, |d| r.device_uuid == d));
                    event = ConfigEvent::Row(found.map(|r| r.copy()));
                }
                ConfigAction::ReadTarget { submitted, on, key } => {
                    self.reads += 1;
                    event = ConfigEvent::Facts(self.facts(submitted, on, &key));
                }
                ConfigAction::Done => return Ok(upload.finish()),
            }
            if let Some(broadcast) = step.announce {
                self.heard.push(broadcast);
            }
        }
        panic!("the upload does not end");
    }

    fn by_key(&self, key: &str) -> &CachedConfig {
        self.rows.iter().find(|r| r.key == key).unwrap()
    }
}

fn upload_items(table: &mut Table, items: Vec<ConfigSyncItem>) -> Result<ConfigOutcome, AppError> {
    let lookups = lookups_of_items(&items);
    let batch = table.load(lookups.ids, lookups.keys);
    let cx = context(ItemDeviceRule::RequestDevice(TABLET));
    table.run(process_config_sync_items(cx, &items, RegisteredDevices::of(&vec![]), batch))
}

fn statuses(outcome: &ConfigOutcome) -> Vec<i32> {
    outcome.upload_status.iter().map(|s| s.version).collect()
}

// Configs

#[test]
fn configs_are_stored_in_one_statement() {
    let mut table = Table::of(vec![]);
    let outcome =
        upload_items(&mut table, vec![item(1, "a", "1"), item(2, "b", "2"), item(3, "c", "3")])
            .unwrap_or_else(|e| panic!("{:?}", e));
    assert_eq!(table.statements, 1);
    assert_eq!(table.reads, 0);
    assert_eq!(statuses(&outcome), vec![1, 1, 1]);
    assert_eq!(outcome.landed, vec![id(1), id(2), id(3)]);
    assert_eq!(table.by_key("b").value, "2");
    assert_eq!(table.heard.len(), 3);
    assert_eq!(table.heard[0].device_uuid, TABLET);
    assert_eq!(table.heard[0].item.last_modified, 1_000);
    assert!(echoes_anything(&outcome.landed));
}

#[test]
fn a_config_lands_on_the_row_its_key_is_stored_under() {
    let mut table = Table::of(vec![row(50, TABLET, "a", 4)]);
    let outcome =
        upload_items(&mut table, vec![item(1, "a", "new")]).unwrap_or_else(|e| panic!("{:?}", e));
    assert_eq!(statuses(&outcome), vec![5]);
    assert_eq!(table.rows.len(), 1);
    assert_eq!(table.by_key("a").value, "new");
    assert_eq!(table.by_key("a").version, 5);
}

#[test]
fn a_key_written_twice_in_a_batch_is_numbered_twice() {
    let mut table = Table::of(vec![]);
    let outcome = upload_items(
        &mut table,
        vec![item(1, "a", "first"), item(2, "b", "x"), item(1, "a", "second")],
    )
    .unwrap_or_else(|e| panic!("{:?}", e));
    assert_eq!(statuses(&outcome), vec![1, 1, 2]);
    assert_eq!(table.by_key("a").value, "second");
    assert_eq!(table.rows.len(), 2);
}

#[test]
fn an_id_somebody_else_has_is_replaced() {
    let mut theirs = row(1, SECOND, "z", 3);
    theirs.user_id = STRANGER;
    let mut table = Table::of(vec![theirs]);
    let outcome =
        upload_items(&mut table, vec![item(1, "a", "mine")]).unwrap_or_else(|e| panic!("{:?}", e));
    assert_eq!(table.by_key("a").id, id(9_000));
    assert_eq!(table.by_key("z").user_id, STRANGER);
    assert_eq!(outcome.landed, vec![id(1), id(9_000)]);
}

#[test]
fn a_deleted_config_is_marked_and_numbered() {
    let mut table = Table::of(vec![row(1, TABLET, "a", 4)]);
    let mut gone = item(1, "a", "");
    gone.sync_state = SyncState::PendingDelete;
    let outcome =
        upload_items(&mut table, vec![gone, item(2, "b", "1")]).unwrap_or_else(|e| panic!("{:?}", e));
    assert_eq!(statuses(&outcome), vec![5, 1]);
    assert!(table.by_key("a").is_deleted);

    let mut unknown = item(8, "q", "");
    unknown.is_deleted = true;
    let outcome = upload_items(&mut table, vec![unknown]).unwrap_or_else(|e| panic!("{:?}", e));
    assert_eq!(statuses(&outcome), vec![1]);
}

#[test]
fn every_written_config_carries_the_servers_clock() {
    let mut table = Table::of(vec![row(1, TABLET, "a", 4), row(2, TABLET, "b", 4)]);
    let mut gone = item(1, "a", "");
    gone.is_deleted = true;
    // The third moves the row under its key onto another id.
    upload_items(&mut table, vec![gone, item(3, "c", "1"), item(9, "b", "2")])
        .unwrap_or_else(|e| panic!("{:?}", e));
    assert_eq!(table.rows.len(), 3);
    for stored in &table.rows {
        assert_eq!(stored.last_modified, 1_000, "{}", stored.key);
    }
    for heard in &table.heard {
        assert_eq!(heard.item.last_modified, 1_000);
    }
}

#[test]
fn a_clients_version_and_clock_decide_nothing_over_standing_rows() {
    let standing = || Table::of(vec![row(1, TABLET, "a", 4), row(50, TABLET, "b", 7)]);
    let sent = |version: i32, last_modified: i64| {
        let mut items = vec![item(1, "a", "x"), item(2, "b", "y"), item(1, "a", "z")];
        for i in items.iter_mut() {
            i.version = version;
            i.last_modified = last_modified;
        }
        items
    };
    let mut one = standing();
    let first = upload_items(&mut one, sent(1, 77)).unwrap_or_else(|e| panic!("{:?}", e));
    let mut other = standing();
    // A version no new row could start at.
    let second =
        upload_items(&mut other, sent(-9, i64::MAX)).unwrap_or_else(|e| panic!("{:?}", e));
    assert_eq!(statuses(&first), vec![5, 8, 6]);
    assert_eq!(statuses(&second), vec![5, 8, 6]);
    assert_eq!(first.landed, second.landed);
    assert_eq!(first.success_ids, second.success_ids);
    assert_eq!(one.statements, other.statements);
    let kept = |t: &Table| -> Vec<(u128, i32, String, i64)> {
        let mut rows: Vec<_> =
            t.rows.iter().map(|r| (r.id.bits, r.version, r.value.clone(), r.last_modified)).collect();
        rows.sort();
        rows
    };
    assert_eq!(kept(&one), kept(&other));

    // A row nobody has yet starts where the client says, or not at all.
    assert!(upload_items(&mut Table::of(vec![]), sent(-9, 0)).is_err());
}

fn config_change(
    name: &str,
    operation_type: OperationType,
    data: Payload<ConfigData>,
) -> ConfigChangeDelta {
    ConfigChangeDelta {
        id: text(name),
        operation_type,
        version: 1,
        device_uuid: None,
        data,
        stray_key: None,
        stray_value: None,
    }
}

fn config_data(device_uuid: Option<Uuid>, key: &str) -> ConfigData {
    ConfigData {
        id: id(1),
        user_id: text("u"),
        client_uuid: text("c"),
        device_uuid,
        version: 2,
        is_deleted: false,
        last_modified: 0,
        sync_state: SyncState::Synced,
        key: text(key),
        value: text("v"),
    }
}

fn upload_changes(
    table: &mut Table,
    rule: ItemDeviceRule,
    changes: Vec<ConfigChangeDelta>,
) -> Result<ConfigOutcome, AppError> {
    let lookups = lookups_of_changes(&changes);
    let batch = table.load(lookups.ids, lookups.keys);
    table.run(process_config_changes(context(rule), &changes, RegisteredDevices::of(&vec![]), batch))
}

#[test]
fn a_change_is_reported_under_the_id_the_client_wrote() {
    let mut table = Table::of(vec![]);
    let outcome = upload_changes(
        &mut table,
        ItemDeviceRule::RequestDevice(TABLET),
        vec![
            config_change("my-config", OperationType::Insert, Payload::Item(config_data(None, "a"))),
            config_change("skipped", OperationType::Insert, Payload::Missing),
            config_change("my-config", OperationType::Update, Payload::Missing),
        ],
    )
    .unwrap_or_else(|e| panic!("{:?}", e));
    assert_eq!(outcome.success_ids, vec!["my-config", "my-config"]);
    assert_eq!(statuses(&outcome), vec![2]);
    // The copy is read after the write it follows.
    assert_eq!(outcome.remote_changes.len(), 1);
    assert_eq!(outcome.remote_changes[0].data.value, "v");
    assert_eq!(outcome.remote_changes[0].version, 2);
}

#[test]
fn a_managing_request_names_registered_devices() {
    let mut table = Table::of(vec![]);
    upload_changes(
        &mut table,
        ItemDeviceRule::RowMustName,
        vec![config_change("c", OperationType::Insert, Payload::Item(config_data(Some(SECOND), "a")))],
    )
    .unwrap_or_else(|e| panic!("{:?}", e));
    assert_eq!(table.required, vec![SECOND]);
    assert_eq!(table.by_key("a").device_uuid, SECOND);

    let refused = upload_changes(
        &mut table,
        ItemDeviceRule::RowMustName,
        vec![config_change("c", OperationType::Insert, Payload::Item(config_data(None, "a")))],
    );
    assert!(matches!(refused, Err(AppError::BadRequest(_))));
}

#[test]
fn a_row_of_another_device_registers_it() {
    let mut table = Table::of(vec![]);
    upload_changes(
        &mut table,
        ItemDeviceRule::RequestDevice(TABLET),
        vec![config_change("c", OperationType::Insert, Payload::Item(config_data(Some(SECOND), "a")))],
    )
    .unwrap_or_else(|e| panic!("{:?}", e));
    assert_eq!(table.ensured, vec![SECOND]);
}

#[test]
fn an_unreadable_config_refuses_the_request() {
    let mut table = Table::of(vec![]);
    match upload_changes(
        &mut table,
        ItemDeviceRule::RequestDevice(TABLET),
        vec![config_change("c", OperationType::Insert, Payload::Unreadable(text("no key")))],
    ) {
        Err(AppError::BadRequest(message)) => {
            assert_eq!(message, "Invalid config payload for c: no key")
        }
        _ => panic!("expected BadRequest"),
    }
}

#[test]
fn a_new_row_takes_the_submitted_id_unless_it_is_taken() {
    let existing = || Some(ExistingConfig { id: id(5), version: 1, key: text("a") });
    assert_eq!(choose_new_id(&None, false, id(1), id(9)), id(1));
    assert_eq!(choose_new_id(&None, true, id(1), id(9)), id(9));
    assert_eq!(choose_new_id(&existing(), true, id(5), id(9)), id(5));
    let target =
        resolve_config_target(TargetFacts { existing: None, id_taken: true }, id(1), id(9));
    assert!(target.existing.is_none());
    assert_eq!(target.new_id, id(9));
}

#[test]
fn a_cache_stops_answering_for_what_was_written() {
    let table = Table::of(vec![row(1, TABLET, "a", 4)]);
    let mut batch = table.load(vec![id(1), id(2)], vec![text("a"), text("b")]);
    assert!(batch.id_is_fresh(id(1)) && batch.id_is_fresh(id(2)));
    assert!(!batch.id_is_fresh(id(3)));
    assert!(batch.target_is_fresh(id(2), TABLET, "b"));
    assert_eq!(batch.row_for(USER, id(1), None).unwrap().version, 4);
    assert!(batch.row_for(STRANGER, id(1), None).is_none());
    assert!(batch.row_for(USER, id(1), Some(SECOND)).is_none());
    assert!(batch.facts_for(USER, TABLET, id(1), "a").id_taken);

    batch.note_version_bump(TABLET, id(1), "a");
    assert!(!batch.id_is_fresh(id(1)));
    assert!(batch.id_is_fresh(id(2)));
    let target = ConfigTarget { existing: None, new_id: id(2) };
    batch.note_write(TABLET, &target, "b");
    assert!(!batch.target_is_fresh(id(2), TABLET, "b"));
    assert_ne!(key_token_text(TABLET, "a"), key_token_text(SECOND, "a"));
}

// Config downloads

#[test]
fn a_first_sync_is_told_of_no_deletion() {
    let mut gone = row(2, TABLET, "b", 3);
    gone.is_deleted = true;
    let first = fetch_config_download(vec![row(1, TABLET, "a", 2), gone], None, Some(7));
    // The flat list carries deletions even then.
    assert!(first.items.len() == 2 && first.remote_changes.len() == 1);
    assert_eq!(first.next_cursor_ms, Some(7));

    let mut gone = row(2, TABLET, "b", 3);
    gone.is_deleted = true;
    let later = Instant { secs: 1_700_000_000, nanos: 0 };
    let next = fetch_config_download(vec![row(1, TABLET, "a", 2), gone], Some(later), None);
    assert_eq!(next.remote_changes.len(), 2);
    assert_eq!(next.remote_changes[1].operation_type, OperationType::Delete);
}

#[test]
fn a_stored_config_is_sent_with_its_device() {
    let sent = item_of_config(&row(1, TABLET, "a", 2));
    assert_eq!(sent.device_uuid, Some(TABLET));
    assert!(matches!(sent.sync_state, SyncState::Synced));
    assert_eq!(config_items(&vec![row(1, TABLET, "a", 2)]).len(), 1);
    let told = announce_deletions(&vec![row(1, TABLET, "a", 2)]);
    assert_eq!(told[0].device_uuid, TABLET);
    assert!(!echoes_anything(&vec![]));
}

// Drawings

fn picture() -> Json {
    Json::Object(vec![Field { name: text("a"), value: Json::Array(vec![Json::Null]) }])
}

fn drawing_item(bits: u128, is_deleted: bool) -> DrawingSyncItem {
    DrawingSyncItem {
        id: id(bits),
        user_id: None,
        device_uuid: None,
        created_at: 3,
        data: picture(),
        sync_state: SyncState::Synced,
        version: 2,
        is_deleted,
        last_modified: 4,
    }
}

fn drawing_row(bits: u128, is_deleted: bool) -> DrawingRow {
    DrawingRow {
        id: id(bits),
        user_id: USER,
        device_uuid: TABLET,
        client_uuid: CLIENT,
        version: 6,
        is_deleted,
        last_modified: 4,
        sync_state: None,
        created_at: 3,
        data: format!("[{}]", bits),
    }
}

fn drawing_context() -> DrawingContext {
    DrawingContext {
        server_ms: 1_000,
        rule: ItemDeviceRule::RequestDevice(TABLET),
        filter: Some(TABLET),
        bounds: VersionBounds { max_seed: 100 },
    }
}

/// Runs an upload against a table in which every drawing is stored at `version`.
fn run_drawings(mut upload: DrawingUpload, version: Option<i32>) -> (Vec<DrawingWrite>, Vec<i32>, Vec<Uuid>) {
    let mut writes = vec![];
    let mut event = DrawingEvent::Go;
    for _ in 0..1_000 {
        match upload.advance(event).unwrap_or_else(|e| panic!("{:?}", e)) {
            DrawingAction::Continue | DrawingAction::Ensure(_) | DrawingAction::Require(_) => {
                event = DrawingEvent::Go;
            }
            DrawingAction::Issue(write) => {
                writes.push(write);
                event = DrawingEvent::Go;
            }
            DrawingAction::ReadRow { id, .. } => {
                event = DrawingEvent::Row(version.map(|_| drawing_row(id.bits, false)));
            }
            DrawingAction::ReadVersion { .. } => event = DrawingEvent::Version(version),
            DrawingAction::Done => {
                let outcome = upload.finish();
                let versions = outcome.upload_status.iter().map(|s| s.version).collect();
                return (writes, versions, outcome.landed);
            }
        }
    }
    panic!("the upload does not end");
}

#[test]
fn a_drawing_is_numbered_by_the_server() {
    let items = vec![drawing_item(1, false), drawing_item(2, true)];
    let (writes, versions, landed) =
        run_drawings(process_drawing_sync_items(drawing_context(), &items), Some(6));
    assert_eq!(versions, vec![7, 7]);
    assert_eq!(landed, vec![id(1), id(2)]);
    assert_eq!(
        writes[0],
        DrawingWrite::Store {
            store_as: id(1),
            device_uuid: TABLET,
            store_version: 7,
            is_deleted: false,
            last_modified: 1_000,
            client_last_modified: 4,
            created_at: 3,
            data: text("{\"a\":[null]}"),
        }
    );
    assert_eq!(writes[1], DrawingWrite::Delete { id: id(2), version: 7, last_modified: 1_000 });
}

#[test]
fn a_drawing_nobody_has_is_seeded_or_acknowledged() {
    let items = vec![drawing_item(1, false), drawing_item(2, true)];
    let (writes, versions, _) =
        run_drawings(process_drawing_sync_items(drawing_context(), &items), None);
    assert_eq!(versions, vec![2, 1]);
    assert_eq!(writes.len(), 1);
}

#[test]
fn a_drawing_change_is_read_like_any_other() {
    let change = |name: &str, operation_type, data| DrawingChangeDelta {
        id: text(name),
        operation_type,
        version: 1,
        device_uuid: None,
        data,
        stray_blob: None,
    };
    let mut upload = process_drawing_changes(
        drawing_context(),
        &vec![change("d", OperationType::Insert, Payload::Unreadable(text("no id")))],
    );
    match upload.advance(DrawingEvent::Go) {
        Err(AppError::BadRequest(message)) => {
            assert_eq!(message, "Invalid drawing payload for d: no id")
        }
        other => panic!("expected BadRequest, got {:?}", other),
    }

    let data = DrawingData {
        id: id(1),
        user_id: text("u"),
        client_uuid: text("c"),
        device_uuid: Some(SECOND),
        version: 1,
        is_deleted: false,
        last_modified: 0,
        sync_state: SyncState::Synced,
        created_at: 0,
        data: picture(),
    };
    let mut upload = process_drawing_changes(
        drawing_context(),
        &vec![
            change("e", OperationType::Insert, Payload::Item(data)),
            change("f", OperationType::Update, Payload::Missing),
        ],
    );
    assert_eq!(upload.advance(DrawingEvent::Go).unwrap(), DrawingAction::Ensure(SECOND));
    let (writes, versions, _) = run_drawings(upload, Some(6));
    assert!(matches!(writes[0], DrawingWrite::Store { device_uuid: SECOND, .. }));
    assert_eq!(versions, vec![7]);
}

#[test]
fn stored_drawings_are_sent_with_their_pictures() {
    let rows = vec![drawing_row(1, false), drawing_row(2, true)];
    let later = Some(Instant { secs: 1, nanos: 0 });
    let changes = fetch_remote_drawing_mutations(&rows, later);
    assert_eq!(changes.len(), 2);
    assert_eq!(changes[0].operation_type, OperationType::Update);
    assert_eq!(changes[1].operation_type, OperationType::Delete);
    assert_eq!(changes[0].id, "00000000-0000-0000-0000-000000000001");
    assert_eq!(changes[0].data.data, "[1]");
    let listed = fetch_drawings_for_response(&rows);
    assert_eq!(listed.len(), 2);
    assert_eq!(listed[1].data, "[2]");
}

#[test]
fn a_first_sync_is_not_told_of_deleted_drawings() {
    let rows = vec![drawing_row(1, true), drawing_row(2, false)];
    for first in [None, Some(Instant { secs: 0, nanos: 1 })] {
        let changes = fetch_remote_drawing_mutations(&rows, first);
        assert_eq!(changes.len(), 1);
        assert_eq!(changes[0].id, "00000000-0000-0000-0000-000000000002");
    }
}

// The handler

fn claims(product: Option<Product>) -> Claims {
    Claims { sub: text("user-1"), client_uuid: text("token-client"), exp: 0, product }
}

#[test]
fn a_request_is_authorised_before_it_is_measured() {
    let mut request = SyncRequest::blank(text("body-client"));
    request.scope = Some(SyncScope::ScribbleKeep);
    request.configs = vec![item(1, &"k".repeat(10_000), "v")];
    let limits = SyncLimits::default();
    assert_eq!(receive(&claims(Some(Product::TeddyFyi)), &request, &limits).unwrap_err().status(), 403);
    assert_eq!(receive(&claims(None), &request, &limits).unwrap_err().status(), 400);
    request.configs = vec![];
    assert_eq!(receive(&claims(None), &request, &limits).unwrap(), SyncScope::ScribbleKeep);
    request.scope = None;
    assert_eq!(receive(&claims(None), &request, &limits).unwrap(), SyncScope::All);
    assert_eq!(writing_client(&claims(None)), "token-client");
}

#[test]
fn only_a_client_that_can_resume_is_paged() {
    let mut request = SyncRequest::blank(text("c"));
    let limits = SyncLimits::default();
    assert_eq!(download_page(&request, &limits), None);
    request.supports_paging = true;
    assert_eq!(download_page(&request, &limits), Some(200));
}

#[test]
fn a_scope_decides_what_is_synced() {
    let all = sync_plan(SyncScope::All);
    assert!(all.todo && all.grocery && !all.scribble && !all.has_device);
    let tablet = sync_plan(SyncScope::ScribbleBox);
    assert!(tablet.scribble && tablet.uploads_drawings && !tablet.uploads_configs && tablet.has_device);
    let cloud = sync_plan(SyncScope::ScribbleKeepCloud);
    assert!(cloud.uploads_configs && !cloud.uploads_drawings && cloud.downloads_drawings);
    assert!(!cloud.has_device);
    assert!(request_device(SyncScope::ScribbleKeepCloud, Some(TABLET)).is_none());
    assert!(request_device(SyncScope::ScribbleBox, None).is_some());
    assert_eq!(item_rule(None), ItemDeviceRule::RowMustName);
    assert_eq!(item_rule(Some(TABLET)), ItemDeviceRule::RequestDevice(TABLET));
    assert_eq!(response_drawings(SyncScope::ScribbleKeepCloud, 0), ResponseDrawings::Changed);
}

fn remote(name: &str, version: i32) -> RemoteDelta<i32> {
    RemoteDelta { id: text(name), operation_type: OperationType::Update, version, data: version }
}

#[test]
fn a_row_the_upload_answers_for_is_not_sent_twice() {
    let all = merge_changes(vec![remote("a", 2)], vec![remote("a", 1), remote("b", 1), remote("b", 2)]);
    let sent: Vec<(&str, i32)> = all.iter().map(|c| (c.id.as_str(), c.version)).collect();
    assert_eq!(sent, vec![("a", 2), ("b", 1), ("b", 2)]);
}

#[test]
fn reports_are_added_up_in_order() {
    let status = |name: &str| SuccessResult {
        id: text(name),
        version: 1,
        sync_state: SyncState::Synced,
    };
    let todo = UploadReport::of_changes(vec![text("t")], vec![status("t")]);
    let scribble = UploadReport::of_items(&vec![id(1)], vec![status("s")]);
    let all = consolidate(vec![todo, UploadReport::none(), scribble]);
    assert_eq!(all.success_ids, vec!["t", "00000000-0000-0000-0000-000000000001"]);
    assert_eq!(all.upload_status.len(), 2);
}

#[test]
fn a_config_is_listed_once() {
    let listed = response_configs(
        vec![item(1, "a", "x"), item(2, "b", "x")],
        vec![item(2, "b", "x"), item(3, "c", "x")],
    );
    let ids: Vec<u128> = listed.iter().map(|c| c.id.bits).collect();
    assert_eq!(ids, vec![1, 2, 3]);
}

fn no_groceries() -> RemoteGrocery {
    RemoteGrocery {
        lists: vec![],
        members: vec![],
        stores: vec![],
        categories: vec![],
        items: vec![],
        store_infos: vec![],
    }
}

#[test]
fn a_scope_downloads_its_own_collections() {
    let rows = || RemoteRows {
        todo: RemoteTodo { lists: vec![], items: vec![] },
        grocery: GroceryRows {
            lists: vec![],
            members: vec![],
            stores: vec![],
            categories: vec![],
            items: vec![],
            store_infos: vec![],
        },
        configs: vec![row(1, TABLET, "a", 2)],
        drawings: vec![drawing_row(1, false), drawing_row(2, true)],
    };
    let all = fetch_remote_mutations(SyncScope::All, None, "client", rows());
    assert!(all.scribble.configs.is_empty() && all.scribble.drawings.is_empty());
    let tablet = fetch_remote_mutations(SyncScope::ScribbleKeep, None, "client", rows());
    assert!(tablet.scribble.configs.len() == 1 && tablet.scribble.drawings.is_empty());
    let cloud = fetch_remote_mutations(SyncScope::ScribbleKeepCloud, None, "client", rows());
    assert!(cloud.scribble.configs.len() == 1 && cloud.scribble.drawings.len() == 1);
    assert!(cloud.grocery.items.is_empty());
}

#[test]
fn a_reply_is_made_of_its_three_parts() {
    let status =
        |name: &str| SuccessResult { id: text(name), version: 1, sync_state: SyncState::Synced };
    let report = |name: &str| UploadReport::of_changes(vec![text(name)], vec![status(name)]);
    let no_todo = || RemoteTodo { lists: vec![], items: vec![] };
    let no_scribble = || RemoteScribble { configs: vec![], drawings: vec![] };
    let drawings = fetch_remote_drawing_mutations(&vec![drawing_row(1, false)], None);
    let rows = vec![drawing_row(1, false), drawing_row(2, false)];
    let again = fetch_remote_drawing_mutations(&rows, None);
    let cursor = ReplyCursor { server_timestamp: Instant { secs: 5, nanos: 0 }, has_more: true };
    let reply = sync_response(
        SyncPart { report: report("t"), found: no_todo(), fetched: no_todo() },
        SyncPart { report: report("g"), found: no_groceries(), fetched: no_groceries() },
        SyncPart {
            report: report("s"),
            found: RemoteScribble { configs: vec![], drawings },
            fetched: RemoteScribble { drawings: again, ..no_scribble() },
        },
        vec![item(1, "a", "x")],
        fetch_drawings_for_response(&vec![drawing_row(9, false)]),
        cursor,
    );
    assert_eq!(reply.success_ids, vec!["t", "g", "s"]);
    assert_eq!(reply.upload_status.len(), 3);
    assert_eq!(reply.remote_drawing_changes.len(), 2);
    assert_eq!(reply.configs.len(), 1);
    assert_eq!(reply.drawings.len(), 1);
    assert!(reply.has_more);
    assert_eq!(reply.server_timestamp, cursor.server_timestamp);
}

#[test]
fn everybody_on_a_touched_list_has_their_cache_moved() {
    let mut request = SyncRequest::blank(text("c"));
    assert!(!carries_mutations(&request));
    assert!(caches_to_move(&request, "user-1", &vec![text("user-2")]).is_empty());
    request.grocery_list_changes = vec![ChangeDelta {
        id: text("glist"),
        operation_type: OperationType::Delete,
        version: 1,
        data: Payload::Missing,
    }];
    assert!(carries_grocery(&request) && carries_mutations(&request));
    let keys = caches_to_move(&request, "user-1", &vec![text("user-2")]);
    for key in [
        "user:user-1:last_update:All",
        "user:user-1:last_update:Grocery",
        "user:user-2:last_update:All",
        "user:user-2:last_update:Grocery",
    ] {
        assert!(keys.contains(&text(key)), "{} is missing from {:?}", key, keys);
    }
    assert!(!keys.contains(&text("user:user-1:last_update:Todo")));
}
