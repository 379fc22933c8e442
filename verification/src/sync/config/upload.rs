//! What an upload of configs decides, step by step.
//!
//! An upload alternates between deciding and asking the database: it is told what came back,
//! and answers with the next thing to do. Writes are buffered into runs, and a run is issued
//! before anything it touches is read again.

use crate::error::{AppError, ErrorView};
use crate::ids::{hyphenated, parse_or_hash_uuid, uuid_of, Uuid};
use crate::sync::batching::{conflicts, rows_touched, BatchWrite, WriteKind};
use crate::sync::config::cache::{
    id_token, id_token_text, key_token, key_token_text, target_of, CacheView, CachedConfig,
    ExistingConfig, TargetFacts,
};
use crate::sync::deletes::UNSYNCED_DELETE_VERSION;
use crate::sync::device::{cached_item_device, ItemDevice, ItemDeviceRule};
use crate::sync::rejections::payload_rejection;
use crate::sync::request::{ConfigChangeDelta, ConfigData, ConfigSyncItem};
use crate::sync::types::{
    stored_or_synced, stored_state, synced, OperationType, Payload, RemoteView, StatusView,
    SyncState,
};
use crate::sync::versioning::{advanced, next_version, VersionBounds};
use crate::text::texts;
use vstd::prelude::*;

verus! {

/// What holds for every entry of an upload.
#[derive(Debug, Clone, Copy)]
pub struct ConfigContext {
    pub user_id: Uuid,
    /// The server's clock reading for this request, in milliseconds.
    pub server_ms: i64,
    /// How a row's device is decided.
    pub rule: ItemDeviceRule,
    /// The device reads are limited to, where the request is about one device.
    pub filter: Option<Uuid>,
    pub bounds: VersionBounds,
}

/// A config to store.
#[derive(Debug)]
pub struct ConfigValue {
    pub key: String,
    pub value: String,
    /// The version the client holds.
    pub version: i32,
    pub is_deleted: bool,
    /// When the client says it last changed the config.
    pub last_modified: i64,
}

impl ConfigValue {
    /// A copy of this config.
    pub fn copy(&self) -> (v: ConfigValue)
        ensures
            v == *self,
    {
        ConfigValue {
            key: self.key.clone(),
            value: self.value.clone(),
            version: self.version,
            is_deleted: self.is_deleted,
            last_modified: self.last_modified,
        }
    }
}

/// What one entry of an upload does.
#[derive(Debug)]
pub enum ConfigAct {
    /// Nothing.
    Skip,
    /// The entry cannot be read, for this reason.
    Reject(String),
    /// The client asks for the server's copy.
    Copy,
    /// The entry is stored.
    Store(ConfigValue),
    /// The row is deleted. A key given along is settled before the row is looked up.
    Remove(Option<String>),
}

/// One entry of an upload.
#[derive(Debug)]
pub struct ConfigEntry {
    pub id: Uuid,
    /// The id as the client wrote it.
    pub name: String,
    /// The device the entry names.
    pub device: Option<Uuid>,
    pub act: ConfigAct,
}

impl ConfigEntry {
    /// A copy of this entry.
    pub fn copy(&self) -> (e: ConfigEntry)
        ensures
            e == *self,
    {
        let act = match &self.act {
            ConfigAct::Skip => ConfigAct::Skip,
            ConfigAct::Reject(reason) => ConfigAct::Reject(reason.clone()),
            ConfigAct::Copy => ConfigAct::Copy,
            ConfigAct::Store(v) => ConfigAct::Store(v.copy()),
            ConfigAct::Remove(key) => ConfigAct::Remove(crate::text::copy_opt(key)),
        };
        ConfigEntry { id: self.id, name: self.name.clone(), device: self.device, act }
    }
}

/// The config a document asks to store.
pub open spec fn value_of(data: ConfigData) -> ConfigValue {
    ConfigValue {
        key: data.key,
        value: data.value,
        version: data.version,
        is_deleted: data.is_deleted,
        last_modified: data.last_modified,
    }
}

/// The first of two devices, or the second where there is no first.
pub open spec fn either_device(first: Option<Uuid>, second: Option<Uuid>) -> Option<Uuid> {
    match first {
        Some(device) => Some(device),
        None => second,
    }
}

/// What a change asks for.
pub open spec fn entry_of_change(change: ConfigChangeDelta) -> ConfigEntry {
    let id = uuid_of(change.id@);
    let name = change.id;
    let device = change.device_uuid;
    match change.operation_type {
        OperationType::Delete => ConfigEntry { id, name, device, act: ConfigAct::Remove(None) },
        op => match change.data {
            Payload::Item(data) => ConfigEntry {
                id,
                name,
                device: either_device(device, data.device_uuid),
                act: ConfigAct::Store(value_of(data)),
            },
            Payload::Unreadable(reason) => ConfigEntry {
                id,
                name,
                device,
                act: ConfigAct::Reject(reason),
            },
            Payload::Null(reason) => ConfigEntry {
                id,
                name,
                device,
                act: if op == OperationType::Update {
                    ConfigAct::Copy
                } else {
                    ConfigAct::Reject(reason)
                },
            },
            Payload::Missing => ConfigEntry {
                id,
                name,
                device,
                act: if op == OperationType::Update {
                    ConfigAct::Copy
                } else {
                    ConfigAct::Skip
                },
            },
        },
    }
}

/// What a change asks for.
pub fn change_entry(change: &ConfigChangeDelta) -> (e: ConfigEntry)
    ensures
        e == entry_of_change(*change),
{
    let id = parse_or_hash_uuid(change.id.as_str());
    let name = change.id.clone();
    let device = change.device_uuid;
    let updates = match change.operation_type {
        OperationType::Delete => {
            return ConfigEntry { id, name, device, act: ConfigAct::Remove(None) };
        },
        OperationType::Update => true,
        OperationType::Insert => false,
    };
    match &change.data {
        Payload::Item(data) => {
            let device = match device {
                Some(device) => Some(device),
                None => data.device_uuid,
            };
            let value = ConfigValue {
                key: data.key.clone(),
                value: data.value.clone(),
                version: data.version,
                is_deleted: data.is_deleted,
                last_modified: data.last_modified,
            };
            ConfigEntry { id, name, device, act: ConfigAct::Store(value) }
        },
        Payload::Unreadable(reason) => ConfigEntry {
            id,
            name,
            device,
            act: ConfigAct::Reject(reason.clone()),
        },
        Payload::Null(reason) => ConfigEntry {
            id,
            name,
            device,
            act: if updates {
                ConfigAct::Copy
            } else {
                ConfigAct::Reject(reason.clone())
            },
        },
        Payload::Missing => ConfigEntry {
            id,
            name,
            device,
            act: if updates {
                ConfigAct::Copy
            } else {
                ConfigAct::Skip
            },
        },
    }
}

/// Whether an item of the flat list asks for its row to be deleted.
pub open spec fn item_deletes(item: ConfigSyncItem) -> bool {
    item.is_deleted || item.sync_state is PendingDelete
}

/// Whether `e` is what an item of the flat list asks for.
pub open spec fn is_entry_of_item(e: ConfigEntry, item: ConfigSyncItem) -> bool {
    &&& e.id == item.id
    &&& e.name@ == hyphenated(item.id.bits)
    &&& e.device == item.device_uuid
    &&& e.act == (if item_deletes(item) {
        ConfigAct::Remove(Some(item.key))
    } else {
        ConfigAct::Store(
            ConfigValue {
                key: item.key,
                value: item.value,
                version: item.version,
                is_deleted: item.is_deleted,
                last_modified: item.last_modified,
            },
        )
    })
}

/// What an item of the flat list asks for.
pub fn item_entry(item: &ConfigSyncItem) -> (e: ConfigEntry)
    ensures
        is_entry_of_item(e, *item),
{
    let pending = match item.sync_state {
        SyncState::PendingDelete => true,
        _ => false,
    };
    let act = if item.is_deleted || pending {
        ConfigAct::Remove(Some(item.key.clone()))
    } else {
        ConfigAct::Store(
            ConfigValue {
                key: item.key.clone(),
                value: item.value.clone(),
                version: item.version,
                is_deleted: item.is_deleted,
                last_modified: item.last_modified,
            },
        )
    };
    ConfigEntry { id: item.id, name: item.id.text(), device: item.device_uuid, act }
}

/// The kinds of write configs take.
#[derive(Debug, Clone, Copy, PartialEq, Eq, Structural)]
pub enum ConfigKind {
    Insert,
    UpdateInPlace,
    Delete,
}

impl WriteKind for ConfigKind {
    fn same(&self, other: &Self) -> (s: bool) {
        *self == *other
    }

    fn copied(&self) -> (k: Self) {
        *self
    }
}

/// A config row as a write leaves it.
#[derive(Debug)]
pub struct ConfigStore {
    pub id: Uuid,
    pub device_uuid: Uuid,
    pub version: i32,
    pub is_deleted: bool,
    /// The server's clock reading: what a download's cursor is compared with.
    pub last_modified: i64,
    /// The client's claim, which is kept beside it and compared with nothing.
    pub client_last_modified: i64,
    pub key: String,
    pub value: String,
}

/// One write that can share a statement.
#[derive(Debug)]
pub enum ConfigWrite {
    Insert(ConfigStore),
    /// Rewrites a row that keeps its id. `old_key` is the key it sat under.
    Update { row: ConfigStore, old_key: String },
    /// Marks a row deleted at a version and the server's clock reading.
    Delete { id: Uuid, device_uuid: Uuid, version: i32, last_modified: i64, key: String },
}

impl BatchWrite for ConfigWrite {
    type Kind = ConfigKind;

    open spec fn kind(&self) -> ConfigKind {
        match *self {
            ConfigWrite::Insert(_) => ConfigKind::Insert,
            ConfigWrite::Update { .. } => ConfigKind::UpdateInPlace,
            ConfigWrite::Delete { .. } => ConfigKind::Delete,
        }
    }

    open spec fn rows(&self) -> Seq<Seq<char>> {
        match *self {
            ConfigWrite::Insert(row) => seq![
                id_token(row.id),
                key_token(row.device_uuid, row.key@),
            ],
            ConfigWrite::Update { row, old_key } => seq![
                id_token(row.id),
                key_token(row.device_uuid, row.key@),
                key_token(row.device_uuid, old_key@),
            ],
            ConfigWrite::Delete { id, device_uuid, key, .. } => seq![
                id_token(id),
                key_token(device_uuid, key@),
            ],
        }
    }

    fn kind_of(&self) -> (k: ConfigKind) {
        match self {
            ConfigWrite::Insert(_) => ConfigKind::Insert,
            ConfigWrite::Update { .. } => ConfigKind::UpdateInPlace,
            ConfigWrite::Delete { .. } => ConfigKind::Delete,
        }
    }

    fn rows_of(&self) -> (rows: Vec<String>) {
        let mut rows: Vec<String> = Vec::new();
        match self {
            ConfigWrite::Insert(row) => {
                rows.push(id_token_text(row.id));
                rows.push(key_token_text(row.device_uuid, row.key.as_str()));
            },
            ConfigWrite::Update { row, old_key } => {
                rows.push(id_token_text(row.id));
                rows.push(key_token_text(row.device_uuid, row.key.as_str()));
                rows.push(key_token_text(row.device_uuid, old_key.as_str()));
            },
            ConfigWrite::Delete { id, device_uuid, key, .. } => {
                rows.push(id_token_text(*id));
                rows.push(key_token_text(*device_uuid, key.as_str()));
            },
        }
        assert(texts(rows@) =~= self.rows());
        rows
    }
}

/// A write that moves a row onto another id. It is issued on its own: inside a larger
/// statement a row could be renamed onto an id that another row of it is vacating.
#[derive(Debug)]
pub struct ConfigRename {
    pub from: Uuid,
    pub row: ConfigStore,
}

/// A config this request wrote, with the device whose stream hears about it.
#[derive(Debug)]
pub struct ConfigBroadcast {
    pub device_uuid: Uuid,
    pub item: ConfigSyncItem,
}

/// A config in the form clients are sent.
#[derive(Debug)]
pub struct StoredConfig {
    pub id: Uuid,
    pub user_id: Uuid,
    pub client_uuid: Uuid,
    pub device_uuid: Uuid,
    pub version: i32,
    pub is_deleted: bool,
    pub last_modified: i64,
    pub sync_state: SyncState,
    pub key: String,
    pub value: String,
}

/// A row in the form clients are sent.
pub open spec fn stored_config(row: CachedConfig) -> StoredConfig {
    StoredConfig {
        id: row.id,
        user_id: row.user_id,
        client_uuid: row.client_uuid,
        device_uuid: row.device_uuid,
        version: row.version,
        is_deleted: row.is_deleted,
        last_modified: row.last_modified,
        sync_state: stored_state(row.sync_state),
        key: row.key,
        value: row.value,
    }
}

/// A row in the form clients are sent.
pub fn config_to_send(row: CachedConfig) -> (c: StoredConfig)
    ensures
        c == stored_config(row),
{
    let sync_state = stored_or_synced(&row.sync_state);
    StoredConfig {
        id: row.id,
        user_id: row.user_id,
        client_uuid: row.client_uuid,
        device_uuid: row.device_uuid,
        version: row.version,
        is_deleted: row.is_deleted,
        last_modified: row.last_modified,
        sync_state,
        key: row.key,
        value: row.value,
    }
}

/// Where an upload stands with its current entry.
#[derive(Debug, Clone, Copy, PartialEq, Eq, Structural)]
pub enum ConfigPhase {
    /// The entry has not been looked at.
    Open,
    /// The server's copy has been asked for.
    Copying,
    /// The entry's device is settled.
    Placed(Uuid),
    /// The rows the entry could land on have been asked for.
    Resolving(Uuid),
    /// The row the entry deletes has been asked for.
    Removing(Uuid),
}

/// What came back from the last thing there was to do.
#[derive(Debug)]
pub enum ConfigEvent {
    /// It is done.
    Go,
    /// The row that was asked for.
    Row(Option<CachedConfig>),
    /// What the table says of the rows an entry could land on.
    Facts(TargetFacts),
}

/// The next thing to do.
#[derive(Debug)]
pub enum ConfigAction {
    /// Nothing; go on.
    Continue,
    /// Issue these writes as one statement.
    Issue(Vec<ConfigWrite>),
    /// Issue these writes as one statement, if there are any, and the rename after them.
    Rename { first: Vec<ConfigWrite>, rename: ConfigRename },
    /// Register the device unless it is registered, or refuse.
    Ensure(Uuid),
    /// Refuse unless the device is registered.
    Require(Uuid),
    /// Read the account's row under an id, within the device where one is named.
    ReadRow { id: Uuid, device: Option<Uuid> },
    /// Read what the table says of the rows a write could land on.
    ReadTarget { submitted: Uuid, on: Uuid, key: String },
    /// The upload is complete.
    Done,
}

/// [`ConfigAction`] with its lists as sequences.
#[verifier::ext_equal]
pub enum ActionView {
    Continue,
    Issue(Seq<ConfigWrite>),
    Rename { first: Seq<ConfigWrite>, rename: ConfigRename },
    Ensure(Uuid),
    Require(Uuid),
    ReadRow { id: Uuid, device: Option<Uuid> },
    ReadTarget { submitted: Uuid, on: Uuid, key: String },
    Done,
}

impl View for ConfigAction {
    type V = ActionView;

    open spec fn view(&self) -> ActionView {
        match *self {
            ConfigAction::Continue => ActionView::Continue,
            ConfigAction::Issue(run) => ActionView::Issue(run@),
            ConfigAction::Rename { first, rename } => ActionView::Rename { first: first@, rename },
            ConfigAction::Ensure(device) => ActionView::Ensure(device),
            ConfigAction::Require(device) => ActionView::Require(device),
            ConfigAction::ReadRow { id, device } => ActionView::ReadRow { id, device },
            ConfigAction::ReadTarget { submitted, on, key } => ActionView::ReadTarget {
                submitted,
                on,
                key,
            },
            ConfigAction::Done => ActionView::Done,
        }
    }
}

/// One step of an upload.
#[derive(Debug)]
pub struct ConfigStep {
    pub action: ConfigAction,
    /// What the device's stream hears, once the action is done.
    pub announce: Option<ConfigBroadcast>,
}

/// How far an upload has come.
#[verifier::ext_equal]
pub struct Progress {
    /// The entry it stands at.
    pub at: int,
    pub phase: ConfigPhase,
    /// The writes that are buffered.
    pub run: Seq<ConfigWrite>,
    pub cache: CacheView,
    /// The ids of the entries that are done, as the client wrote them.
    pub acked: Seq<Seq<char>>,
    pub reported: Seq<StatusView>,
    pub sent: Seq<RemoteView<StoredConfig>>,
    /// The ids of the rows to read back, those of reconciled rows included.
    pub landed: Seq<Uuid>,
}

/// What a step comes to.
pub enum StepView {
    Refused(ErrorView),
    Taken { next: Progress, action: ActionView, announce: Option<ConfigBroadcast> },
}

impl Progress {
    /// Whether a buffered write touches what a token stands for.
    pub open spec fn held(self, token: Seq<char>) -> bool {
        rows_touched(self.run).contains(token)
    }

    pub open spec fn in_phase(self, phase: ConfigPhase) -> Progress {
        Progress { phase, ..self }
    }

    /// The same progress with nothing buffered.
    pub open spec fn flushed(self) -> Progress {
        Progress { run: seq![], ..self }
    }

    /// The same progress at the next entry.
    pub open spec fn turned(self) -> Progress {
        Progress { at: self.at + 1, phase: ConfigPhase::Open, ..self }
    }

    /// The same progress with an entry reported as synced.
    pub open spec fn with_report(self, e: ConfigEntry, version: i32, stored_as: Uuid) -> Progress {
        Progress {
            acked: self.acked.push(e.name@),
            reported: self.reported.push(synced(e.name@, version)),
            landed: if stored_as == e.id {
                self.landed.push(e.id)
            } else {
                self.landed.push(e.id).push(stored_as)
            },
            ..self
        }
    }

    /// Whether a write has to wait for the buffered ones to be issued.
    pub open spec fn ends(self, w: ConfigWrite) -> bool {
        self.run.len() > 0 && conflicts(self.run, w)
    }

    /// The same progress with one more write buffered.
    pub open spec fn joined(self, w: ConfigWrite) -> Progress {
        Progress {
            run: if self.ends(w) {
                seq![w]
            } else {
                self.run.push(w)
            },
            ..self
        }
    }

    /// What buffering a write asks for.
    pub open spec fn joining(self, w: ConfigWrite) -> ActionView {
        if self.ends(w) {
            ActionView::Issue(self.run)
        } else {
            ActionView::Continue
        }
    }
}

pub open spec fn going_on(next: Progress) -> StepView {
    StepView::Taken { next, action: ActionView::Continue, announce: None }
}

pub open spec fn doing(next: Progress, action: ActionView) -> StepView {
    StepView::Taken { next, action, announce: None }
}

/// The entry's copy is sent back, where there is one.
pub open spec fn copied(p: Progress, e: ConfigEntry, row: Option<CachedConfig>) -> StepView {
    match row {
        Some(row) => going_on(
            Progress {
                acked: p.acked.push(e.name@),
                sent: p.sent.push(
                    RemoteView {
                        id: e.name@,
                        operation_type: OperationType::Update,
                        version: row.version,
                        data: stored_config(row),
                    },
                ),
                ..p
            }.turned(),
        ),
        None => going_on(p.turned()),
    }
}

/// The entry's row is deleted, or the delete acknowledged where there is none.
pub open spec fn removed(
    cx: ConfigContext,
    p: Progress,
    e: ConfigEntry,
    device: Uuid,
    row: Option<CachedConfig>,
) -> StepView {
    match row {
        Some(row) => match advanced("Config"@, e.name@, row.version) {
            Err(refusal) => StepView::Refused(refusal),
            Ok(version) => {
                let w = ConfigWrite::Delete {
                    id: e.id,
                    device_uuid: device,
                    version,
                    last_modified: cx.server_ms,
                    key: row.key,
                };
                doing(
                    Progress { cache: p.cache.touched(e.id, device, row.key@), ..p }.joined(
                        w,
                    ).with_report(e, version, e.id).turned(),
                    p.joining(w),
                )
            },
        },
        None => going_on(p.with_report(e, UNSYNCED_DELETE_VERSION, e.id).turned()),
    }
}

/// The row a stored entry becomes.
pub open spec fn row_of(
    cx: ConfigContext,
    id: Uuid,
    device: Uuid,
    version: i32,
    v: ConfigValue,
) -> ConfigStore {
    ConfigStore {
        id,
        device_uuid: device,
        version,
        is_deleted: v.is_deleted,
        last_modified: cx.server_ms,
        client_last_modified: v.last_modified,
        key: v.key,
        value: v.value,
    }
}

/// What the streams hear of a stored entry.
pub open spec fn announced(
    cx: ConfigContext,
    id: Uuid,
    device: Uuid,
    version: i32,
    v: ConfigValue,
) -> ConfigBroadcast {
    ConfigBroadcast {
        device_uuid: device,
        item: ConfigSyncItem {
            id,
            device_uuid: Some(device),
            key: v.key,
            value: v.value,
            sync_state: SyncState::Synced,
            version,
            is_deleted: v.is_deleted,
            last_modified: cx.server_ms,
        },
    }
}

/// The stored version of the row an entry lands on.
pub open spec fn version_of(existing: Option<ExistingConfig>) -> Option<i32> {
    match existing {
        Some(row) => Some(row.version),
        None => None,
    }
}

/// The entry is stored where the table says it lands.
pub open spec fn stored(
    cx: ConfigContext,
    p: Progress,
    e: ConfigEntry,
    v: ConfigValue,
    device: Uuid,
    facts: TargetFacts,
    fresh: Uuid,
) -> StepView {
    match next_version(cx.bounds, "Config"@, e.name@, version_of(facts.existing), v.version) {
        Err(refusal) => StepView::Refused(refusal),
        Ok(version) => {
            let target = target_of(facts, e.id, fresh);
            let row = row_of(cx, target.new_id, device, version, v);
            let noted = Progress { cache: p.cache.noted(device, target, v.key@), ..p };
            let announce = Some(announced(cx, target.new_id, device, version, v));
            match target.existing {
                Some(existing) => if existing.id != target.new_id {
                    StepView::Taken {
                        next: noted.flushed().with_report(e, version, target.new_id).turned(),
                        action: ActionView::Rename {
                            first: p.run,
                            rename: ConfigRename { from: existing.id, row },
                        },
                        announce,
                    }
                } else {
                    let w = ConfigWrite::Update { row, old_key: existing.key };
                    StepView::Taken {
                        next: noted.joined(w).with_report(e, version, target.new_id).turned(),
                        action: p.joining(w),
                        announce,
                    }
                },
                None => {
                    let w = ConfigWrite::Insert(row);
                    StepView::Taken {
                        next: noted.joined(w).with_report(e, version, target.new_id).turned(),
                        action: p.joining(w),
                        announce,
                    }
                },
            }
        },
    }
}

/// A step at an entry that has not been looked at.
pub open spec fn opened(
    cx: ConfigContext,
    entries: Seq<ConfigEntry>,
    registered: Set<u128>,
    p: Progress,
) -> StepView {
    if p.at >= entries.len() {
        if p.run.len() == 0 {
            doing(p, ActionView::Done)
        } else {
            doing(p.flushed(), ActionView::Issue(p.run))
        }
    } else {
        let e = entries[p.at];
        if p.held(id_token(e.id)) {
            doing(p.flushed(), ActionView::Issue(p.run))
        } else {
            match e.act {
                ConfigAct::Skip => going_on(p.turned()),
                ConfigAct::Reject(reason) => StepView::Refused(
                    payload_rejection("config"@, e.name@, reason@),
                ),
                ConfigAct::Copy => if p.cache.id_fresh(e.id) {
                    copied(p, e, p.cache.row(cx.user_id, e.id, cx.filter))
                } else {
                    going_on(p.in_phase(ConfigPhase::Copying))
                },
                _ => match cached_item_device(cx.rule, e.device, "Config"@, e.name@, registered) {
                    Err(refusal) => StepView::Refused(refusal),
                    Ok(ItemDevice::Known(device)) => going_on(
                        p.in_phase(ConfigPhase::Placed(device)),
                    ),
                    Ok(ItemDevice::Ensure(device)) => doing(
                        p.in_phase(ConfigPhase::Placed(device)),
                        ActionView::Ensure(device),
                    ),
                    Ok(ItemDevice::Require(device)) => doing(
                        p.in_phase(ConfigPhase::Placed(device)),
                        ActionView::Require(device),
                    ),
                },
            }
        }
    }
}

/// The key that has to be settled before an entry's rows are looked up.
pub open spec fn gate(act: ConfigAct) -> Option<String> {
    match act {
        ConfigAct::Store(v) => Some(v.key),
        ConfigAct::Remove(key) => key,
        _ => None,
    }
}

/// A step at an entry whose device is settled.
pub open spec fn placed(
    cx: ConfigContext,
    entries: Seq<ConfigEntry>,
    p: Progress,
    device: Uuid,
    fresh: Uuid,
) -> StepView {
    let e = entries[p.at];
    if gate(e.act) matches Some(key) && p.held(key_token(device, key@)) {
        doing(p.flushed(), ActionView::Issue(p.run))
    } else {
        match e.act {
            ConfigAct::Store(v) => if p.cache.target_fresh(e.id, device, v.key@) {
                stored(
                    cx,
                    p,
                    e,
                    v,
                    device,
                    p.cache.facts(cx.user_id, device, e.id, v.key@),
                    fresh,
                )
            } else {
                going_on(p.in_phase(ConfigPhase::Resolving(device)))
            },
            ConfigAct::Remove(_) => if p.cache.id_fresh(e.id) {
                removed(cx, p, e, device, p.cache.row(cx.user_id, e.id, Some(device)))
            } else {
                going_on(p.in_phase(ConfigPhase::Removing(device)))
            },
            _ => going_on(p.in_phase(ConfigPhase::Open)),
        }
    }
}

/// One step of an upload, given what came back and the id a new row may take.
pub open spec fn step(
    cx: ConfigContext,
    entries: Seq<ConfigEntry>,
    registered: Set<u128>,
    p: Progress,
    event: ConfigEvent,
    fresh: Uuid,
) -> StepView {
    if p.at >= entries.len() {
        opened(cx, entries, registered, p)
    } else {
        let e = entries[p.at];
        match p.phase {
            ConfigPhase::Open => opened(cx, entries, registered, p),
            ConfigPhase::Placed(device) => placed(cx, entries, p, device, fresh),
            ConfigPhase::Copying => match event {
                ConfigEvent::Row(row) => copied(p, e, row),
                _ => doing(p, ActionView::ReadRow { id: e.id, device: cx.filter }),
            },
            ConfigPhase::Removing(device) => match event {
                ConfigEvent::Row(row) => removed(cx, p, e, device, row),
                _ => doing(p, ActionView::ReadRow { id: e.id, device: Some(device) }),
            },
            ConfigPhase::Resolving(device) => match e.act {
                ConfigAct::Store(v) => match event {
                    ConfigEvent::Facts(facts) => stored(cx, p, e, v, device, facts, fresh),
                    _ => doing(
                        p,
                        ActionView::ReadTarget { submitted: e.id, on: device, key: v.key },
                    ),
                },
                _ => going_on(p.in_phase(ConfigPhase::Open)),
            },
        }
    }
}

/// Whether a step came out as it should.
pub open spec fn steps_to(r: Result<ConfigStep, AppError>, after: Progress, want: StepView) -> bool {
    match r {
        Ok(step) => want == (StepView::Taken {
            next: after,
            action: step.action@,
            announce: step.announce,
        }),
        Err(e) => want == StepView::Refused(e@),
    }
}

} // verus!
