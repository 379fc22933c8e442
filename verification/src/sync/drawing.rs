//! Drawings: the pages of a tablet.
//!
//! What a drawing shows plays no part in any decision here. A picture is carried along as the
//! JSON text it is stored and sent as.

use crate::error::{AppError, ErrorView};
use crate::ids::{hyphenated, parse_or_hash_uuid, uuid_of, Uuid};
use crate::instant::{initial_sync, is_initial_sync, Instant};
use crate::json::{encode, encoding, Json};
use crate::sync::deletes::{ack_unsynced_delete, UNSYNCED_DELETE_VERSION};
use crate::sync::device::{item_device, resolve_item_device, ItemDevice, ItemDeviceRule};
use crate::sync::download::{cut_page, DownloadPage, DownloadQuery, Stamped};
use crate::sync::limits::{
    a_passed_body_is_bounded, blob_of, payload_check, picture_fits, SyncLimits,
};
use crate::sync::rejections::{payload_refusal, payload_rejection};
use crate::sync::request::{DrawingChangeDelta, DrawingSyncItem, SyncRequest};
use crate::sync::types::{
    download_operation, operation_of, remote_views, status_views, stored_or_synced, stored_state,
    synced, OperationType, Payload, RemoteDelta, RemoteView, StatusView, SuccessResult, SyncState,
};
use crate::sync::versioning::{advance_version, advanced, assign_version, next_version, VersionBounds};
use crate::text::{byte_len, texts};
use vstd::prelude::*;

verus! {

/// What holds for every entry of an upload.
#[derive(Debug, Clone, Copy)]
pub struct DrawingContext {
    /// The server's clock reading for this request, in milliseconds.
    pub server_ms: i64,
    /// How a row's device is decided.
    pub rule: ItemDeviceRule,
    /// The device reads are limited to, where the request is about one device.
    pub filter: Option<Uuid>,
    pub bounds: VersionBounds,
}

/// A drawing to store.
#[derive(Debug)]
pub struct DrawingValue {
    /// The version the client holds.
    pub version: i32,
    pub is_deleted: bool,
    /// When the client says it last changed the drawing.
    pub last_modified: i64,
    pub created_at: i64,
    /// The picture.
    pub data: String,
}

impl DrawingValue {
    /// A copy of this drawing.
    pub fn copy(&self) -> (v: DrawingValue)
        ensures
            v == *self,
    {
        DrawingValue {
            version: self.version,
            is_deleted: self.is_deleted,
            last_modified: self.last_modified,
            created_at: self.created_at,
            data: self.data.clone(),
        }
    }
}

/// What one entry of an upload does.
#[derive(Debug)]
pub enum DrawingAct {
    /// Nothing.
    Skip,
    /// The entry cannot be read, for this reason.
    Reject(String),
    /// The client asks for the server's copy.
    Copy,
    /// The entry is stored.
    Store(DrawingValue),
    /// The row is deleted.
    Remove,
}

/// One entry of an upload.
#[derive(Debug)]
pub struct DrawingEntry {
    pub id: Uuid,
    /// The id as the client wrote it.
    pub name: String,
    /// The device the entry names.
    pub device: Option<Uuid>,
    pub act: DrawingAct,
}

/// Whether `v` is a drawing to store with these properties and this picture.
pub open spec fn is_value(
    v: DrawingValue,
    version: i32,
    is_deleted: bool,
    last_modified: i64,
    created_at: i64,
    picture: Json,
) -> bool {
    &&& v.version == version
    &&& v.is_deleted == is_deleted
    &&& v.last_modified == last_modified
    &&& v.created_at == created_at
    &&& v.data@ == encoding(picture)
}

/// Whether `e` is what a change asks for.
pub open spec fn is_entry_of_change(e: DrawingEntry, change: DrawingChangeDelta) -> bool {
    let op = change.operation_type;
    &&& e.id == uuid_of(change.id@)
    &&& e.name == change.id
    &&& e.device == (match (op, change.device_uuid, change.data) {
        (OperationType::Delete, device, _) => device,
        (_, None, Payload::Item(data)) => data.device_uuid,
        (_, device, _) => device,
    })
    &&& match (op, change.data) {
        (OperationType::Delete, _) => e.act == DrawingAct::Remove,
        (_, Payload::Item(data)) => e.act matches DrawingAct::Store(v) && is_value(
            v,
            data.version,
            data.is_deleted,
            data.last_modified,
            data.created_at,
            data.data,
        ),
        (_, Payload::Unreadable(reason)) => e.act == DrawingAct::Reject(reason),
        (OperationType::Update, _) => e.act == DrawingAct::Copy,
        (_, Payload::Null(reason)) => e.act == DrawingAct::Reject(reason),
        (_, Payload::Missing) => e.act == DrawingAct::Skip,
    }
}

/// What a change asks for.
pub fn change_entry(change: &DrawingChangeDelta) -> (e: DrawingEntry)
    ensures
        is_entry_of_change(e, *change),
{
    let id = parse_or_hash_uuid(change.id.as_str());
    let name = change.id.clone();
    let device = change.device_uuid;
    let updates = match change.operation_type {
        OperationType::Delete => {
            return DrawingEntry { id, name, device, act: DrawingAct::Remove };
        },
        OperationType::Update => true,
        OperationType::Insert => false,
    };
    match &change.data {
        Payload::Item(data) => {
            let device = match device {
                Some(device) => Some(device),
                None => data.device_uuid,
            };
            let value = DrawingValue {
                version: data.version,
                is_deleted: data.is_deleted,
                last_modified: data.last_modified,
                created_at: data.created_at,
                data: encode(&data.data),
            };
            DrawingEntry { id, name, device, act: DrawingAct::Store(value) }
        },
        Payload::Unreadable(reason) => DrawingEntry {
            id,
            name,
            device,
            act: DrawingAct::Reject(reason.clone()),
        },
        Payload::Null(reason) => DrawingEntry {
            id,
            name,
            device,
            act: if updates {
                DrawingAct::Copy
            } else {
                DrawingAct::Reject(reason.clone())
            },
        },
        Payload::Missing => DrawingEntry {
            id,
            name,
            device,
            act: if updates {
                DrawingAct::Copy
            } else {
                DrawingAct::Skip
            },
        },
    }
}

/// Whether `e` is what an item of the flat list asks for.
pub open spec fn is_entry_of_item(e: DrawingEntry, item: DrawingSyncItem) -> bool {
    &&& e.id == item.id
    &&& e.name@ == hyphenated(item.id.bits)
    &&& e.device == item.device_uuid
    &&& if item.is_deleted || item.sync_state is PendingDelete {
        e.act == DrawingAct::Remove
    } else {
        e.act matches DrawingAct::Store(v) && is_value(
            v,
            item.version,
            item.is_deleted,
            item.last_modified,
            item.created_at,
            item.data,
        )
    }
}

/// What an item of the flat list asks for.
pub fn item_entry(item: &DrawingSyncItem) -> (e: DrawingEntry)
    ensures
        is_entry_of_item(e, *item),
{
    let pending = match item.sync_state {
        SyncState::PendingDelete => true,
        _ => false,
    };
    let act = if item.is_deleted || pending {
        DrawingAct::Remove
    } else {
        DrawingAct::Store(
            DrawingValue {
                version: item.version,
                is_deleted: item.is_deleted,
                last_modified: item.last_modified,
                created_at: item.created_at,
                data: encode(&item.data),
            },
        )
    };
    DrawingEntry { id: item.id, name: item.id.text(), device: item.device_uuid, act }
}

/// A drawing as the server holds it.
#[derive(Debug)]
pub struct DrawingRow {
    pub id: Uuid,
    pub user_id: Uuid,
    pub device_uuid: Uuid,
    pub client_uuid: Uuid,
    pub version: i32,
    pub is_deleted: bool,
    pub last_modified: i64,
    pub sync_state: Option<SyncState>,
    pub created_at: i64,
    /// The picture.
    pub data: String,
}

impl Stamped for DrawingRow {
    open spec fn stamp(&self) -> i64 {
        self.last_modified
    }

    open spec fn writer(&self) -> Uuid {
        self.client_uuid
    }

    fn stamp_of(&self) -> (ms: i64) {
        self.last_modified
    }
}

/// A drawing in the form clients are sent.
#[derive(Debug)]
pub struct StoredDrawing {
    pub id: Uuid,
    pub user_id: Uuid,
    pub client_uuid: Uuid,
    pub device_uuid: Uuid,
    pub version: i32,
    pub is_deleted: bool,
    pub last_modified: i64,
    pub sync_state: SyncState,
    pub created_at: i64,
    /// The picture.
    pub data: String,
}

/// A row in the form clients are sent.
pub open spec fn stored_drawing(row: DrawingRow) -> StoredDrawing {
    StoredDrawing {
        id: row.id,
        user_id: row.user_id,
        client_uuid: row.client_uuid,
        device_uuid: row.device_uuid,
        version: row.version,
        is_deleted: row.is_deleted,
        last_modified: row.last_modified,
        sync_state: stored_state(row.sync_state),
        created_at: row.created_at,
        data: row.data,
    }
}

/// A row in the form clients are sent.
pub fn drawing_to_send(row: &DrawingRow) -> (d: StoredDrawing)
    ensures
        d == stored_drawing(*row),
{
    StoredDrawing {
        id: row.id,
        user_id: row.user_id,
        client_uuid: row.client_uuid,
        device_uuid: row.device_uuid,
        version: row.version,
        is_deleted: row.is_deleted,
        last_modified: row.last_modified,
        sync_state: stored_or_synced(&row.sync_state),
        created_at: row.created_at,
        data: row.data.clone(),
    }
}

/// One write to the drawings.
#[derive(Debug, PartialEq, Eq)]
pub enum DrawingWrite {
    /// Stores a drawing. A row another account holds under the id stays untouched.
    Store {
        store_as: Uuid,
        device_uuid: Uuid,
        store_version: i32,
        is_deleted: bool,
        /// The server's clock reading: what a download's cursor is compared with.
        last_modified: i64,
        /// The client's claim, which is kept beside it and compared with nothing.
        client_last_modified: i64,
        created_at: i64,
        /// The picture.
        data: String,
    },
    /// Marks the account's drawing deleted at a version and the server's clock reading.
    Delete { id: Uuid, version: i32, last_modified: i64 },
}

/// Where an upload stands with its current entry.
#[derive(Debug, Clone, Copy, PartialEq, Eq, Structural)]
pub enum DrawingPhase {
    /// The entry has not been looked at.
    Open,
    /// The server's copy has been asked for.
    Copying,
    /// The entry's device is settled, and the stored version has been asked for.
    Storing(Uuid),
    /// The version of the row the entry deletes has been asked for.
    Removing,
}

/// What came back from the last thing there was to do.
#[derive(Debug)]
pub enum DrawingEvent {
    /// It is done.
    Go,
    /// The row that was asked for.
    Row(Option<DrawingRow>),
    /// The stored version that was asked for.
    Version(Option<i32>),
}

/// The next thing to do.
#[derive(Debug, PartialEq, Eq)]
pub enum DrawingAction {
    /// Nothing; go on.
    Continue,
    /// Issue this write.
    Issue(DrawingWrite),
    /// Register the device unless it is registered, or refuse.
    Ensure(Uuid),
    /// Refuse unless the device is registered.
    Require(Uuid),
    /// Read the account's row under an id, within the device where one is named.
    ReadRow { id: Uuid, device: Option<Uuid> },
    /// Read the version of the account's row under an id, within the device where one is
    /// named.
    ReadVersion { id: Uuid, device: Option<Uuid> },
    /// The upload is complete.
    Done,
}

/// How far an upload has come.
#[verifier::ext_equal]
pub struct DrawingProgress {
    /// The entry it stands at.
    pub at: int,
    pub phase: DrawingPhase,
    /// The ids of the entries that are done, as the client wrote them.
    pub acked: Seq<Seq<char>>,
    pub reported: Seq<StatusView>,
    pub sent: Seq<RemoteView<StoredDrawing>>,
    /// The ids of the rows to read back.
    pub landed: Seq<Uuid>,
}

/// What a step comes to.
pub enum DrawingStep {
    Refused(ErrorView),
    Taken { next: DrawingProgress, action: DrawingAction },
}

impl DrawingProgress {
    pub open spec fn in_phase(self, phase: DrawingPhase) -> DrawingProgress {
        DrawingProgress { phase, ..self }
    }

    /// The same progress at the next entry.
    pub open spec fn turned(self) -> DrawingProgress {
        DrawingProgress { at: self.at + 1, phase: DrawingPhase::Open, ..self }
    }

    /// The same progress with an entry reported as synced.
    pub open spec fn with_report(self, e: DrawingEntry, version: i32) -> DrawingProgress {
        DrawingProgress {
            acked: self.acked.push(e.name@),
            reported: self.reported.push(synced(e.name@, version)),
            landed: self.landed.push(e.id),
            ..self
        }
    }
}

pub open spec fn taken(next: DrawingProgress, action: DrawingAction) -> DrawingStep {
    DrawingStep::Taken { next, action }
}

/// The entry's copy is sent back, where there is one.
pub open spec fn copied(p: DrawingProgress, e: DrawingEntry, row: Option<DrawingRow>) -> DrawingStep {
    match row {
        Some(row) => taken(
            DrawingProgress {
                acked: p.acked.push(e.name@),
                sent: p.sent.push(
                    RemoteView {
                        id: e.name@,
                        operation_type: OperationType::Update,
                        version: row.version,
                        data: stored_drawing(row),
                    },
                ),
                ..p
            }.turned(),
            DrawingAction::Continue,
        ),
        None => taken(p.turned(), DrawingAction::Continue),
    }
}

/// The entry's row is deleted, or the delete acknowledged where there is none.
pub open spec fn removed(
    cx: DrawingContext,
    p: DrawingProgress,
    e: DrawingEntry,
    version: Option<i32>,
) -> DrawingStep {
    match version {
        Some(current) => match advanced("Drawing"@, e.name@, current) {
            Err(refusal) => DrawingStep::Refused(refusal),
            Ok(version) => taken(
                p.with_report(e, version).turned(),
                DrawingAction::Issue(
                    DrawingWrite::Delete { id: e.id, version, last_modified: cx.server_ms },
                ),
            ),
        },
        None => taken(p.with_report(e, UNSYNCED_DELETE_VERSION).turned(), DrawingAction::Continue),
    }
}

/// The entry is stored over the row of the given version, or as a new one.
pub open spec fn stored(
    cx: DrawingContext,
    p: DrawingProgress,
    e: DrawingEntry,
    v: DrawingValue,
    device: Uuid,
    current: Option<i32>,
) -> DrawingStep {
    match next_version(cx.bounds, "Drawing"@, e.name@, current, v.version) {
        Err(refusal) => DrawingStep::Refused(refusal),
        Ok(version) => taken(
            p.with_report(e, version).turned(),
            DrawingAction::Issue(
                DrawingWrite::Store {
                    store_as: e.id,
                    device_uuid: device,
                    store_version: version,
                    is_deleted: v.is_deleted,
                    last_modified: cx.server_ms,
                    client_last_modified: v.last_modified,
                    created_at: v.created_at,
                    data: v.data,
                },
            ),
        ),
    }
}

/// A step at an entry that has not been looked at.
pub open spec fn opened(cx: DrawingContext, p: DrawingProgress, e: DrawingEntry) -> DrawingStep {
    match e.act {
        DrawingAct::Skip => taken(p.turned(), DrawingAction::Continue),
        DrawingAct::Reject(reason) => DrawingStep::Refused(
            payload_rejection("drawing"@, e.name@, reason@),
        ),
        DrawingAct::Copy => taken(
            p.in_phase(DrawingPhase::Copying),
            DrawingAction::ReadRow { id: e.id, device: cx.filter },
        ),
        DrawingAct::Remove => taken(
            p.in_phase(DrawingPhase::Removing),
            DrawingAction::ReadVersion { id: e.id, device: cx.filter },
        ),
        DrawingAct::Store(_) => match item_device(cx.rule, e.device, "Drawing"@, e.name@) {
            Err(refusal) => DrawingStep::Refused(refusal),
            Ok(ItemDevice::Known(device)) => taken(
                p.in_phase(DrawingPhase::Storing(device)),
                DrawingAction::Continue,
            ),
            Ok(ItemDevice::Ensure(device)) => taken(
                p.in_phase(DrawingPhase::Storing(device)),
                DrawingAction::Ensure(device),
            ),
            Ok(ItemDevice::Require(device)) => taken(
                p.in_phase(DrawingPhase::Storing(device)),
                DrawingAction::Require(device),
            ),
        },
    }
}

/// One step of an upload, given what came back. A question that was not answered is asked
/// again.
pub open spec fn step(
    cx: DrawingContext,
    entries: Seq<DrawingEntry>,
    p: DrawingProgress,
    event: DrawingEvent,
) -> DrawingStep {
    if p.at >= entries.len() {
        taken(p, DrawingAction::Done)
    } else {
        let e = entries[p.at];
        match p.phase {
            DrawingPhase::Open => opened(cx, p, e),
            DrawingPhase::Copying => match event {
                DrawingEvent::Row(row) => copied(p, e, row),
                _ => taken(p, DrawingAction::ReadRow { id: e.id, device: cx.filter }),
            },
            DrawingPhase::Removing => match event {
                DrawingEvent::Version(version) => removed(cx, p, e, version),
                _ => taken(p, DrawingAction::ReadVersion { id: e.id, device: cx.filter }),
            },
            DrawingPhase::Storing(device) => match e.act {
                DrawingAct::Store(v) => match event {
                    DrawingEvent::Version(current) => stored(cx, p, e, v, device, current),
                    _ => taken(p, DrawingAction::ReadVersion { id: e.id, device: cx.filter }),
                },
                _ => taken(p.in_phase(DrawingPhase::Open), DrawingAction::Continue),
            },
        }
    }
}

/// Whether a step came out as it should.
pub open spec fn steps_to(
    r: Result<DrawingAction, AppError>,
    after: DrawingProgress,
    want: DrawingStep,
) -> bool {
    match r {
        Ok(action) => want == (DrawingStep::Taken { next: after, action }),
        Err(e) => want == DrawingStep::Refused(e@),
    }
}

/// An upload of drawings under way.
pub struct DrawingUpload {
    cx: DrawingContext,
    entries: Vec<DrawingEntry>,
    at: usize,
    phase: DrawingPhase,
    success_ids: Vec<String>,
    upload_status: Vec<SuccessResult>,
    remote_changes: Vec<RemoteDelta<StoredDrawing>>,
    landed: Vec<Uuid>,
}

/// What an upload of drawings comes to.
pub struct DrawingOutcome {
    /// The ids of the entries that are done, as the client wrote them.
    pub success_ids: Vec<String>,
    /// The version each entry ended at.
    pub upload_status: Vec<SuccessResult>,
    /// The server's copies the client asked for.
    pub remote_changes: Vec<RemoteDelta<StoredDrawing>>,
    /// The ids of the rows to read back.
    pub landed: Vec<Uuid>,
}

/// The progress of an upload that has not begun.
pub open spec fn at_the_start() -> DrawingProgress {
    DrawingProgress {
        at: 0,
        phase: DrawingPhase::Open,
        acked: seq![],
        reported: seq![],
        sent: seq![],
        landed: seq![],
    }
}

impl DrawingUpload {
    /// How far the upload has come.
    pub closed spec fn view(&self) -> DrawingProgress {
        DrawingProgress {
            at: self.at as int,
            phase: self.phase,
            acked: texts(self.success_ids@),
            reported: status_views(self.upload_status@),
            sent: remote_views(self.remote_changes@),
            landed: self.landed@,
        }
    }

    /// What holds for every entry.
    pub closed spec fn context(self) -> DrawingContext {
        self.cx
    }

    /// The entries of the upload.
    pub closed spec fn entries(self) -> Seq<DrawingEntry> {
        self.entries@
    }

    /// Whether two uploads have the same context and entries.
    pub open spec fn same_task(self, other: DrawingUpload) -> bool {
        self.context() == other.context() && self.entries() == other.entries()
    }

    /// An upload of `entries` that has not begun.
    pub fn begin(cx: DrawingContext, entries: Vec<DrawingEntry>) -> (u: DrawingUpload)
        ensures
            u.context() == cx,
            u.entries() == entries@,
            u@ == at_the_start(),
    {
        let u = DrawingUpload {
            cx,
            entries,
            at: 0,
            phase: DrawingPhase::Open,
            success_ids: Vec::new(),
            upload_status: Vec::new(),
            remote_changes: Vec::new(),
            landed: Vec::new(),
        };
        assert(u@ =~= at_the_start());
        u
    }

    fn turn(&mut self)
        requires
            old(self)@.at < old(self).entries().len(),
        ensures
            final(self).same_task(*old(self)),
            final(self)@ == old(self)@.turned(),
    {
        assert(self.at < self.entries.len());
        self.at = self.at + 1;
        self.phase = DrawingPhase::Open;
        assert(self@ =~= old(self)@.turned());
    }

    fn enter(&mut self, phase: DrawingPhase)
        ensures
            final(self).same_task(*old(self)),
            final(self)@ == old(self)@.in_phase(phase),
    {
        self.phase = phase;
        assert(self@ =~= old(self)@.in_phase(phase));
    }

    fn report(&mut self, version: i32)
        requires
            old(self)@.at < old(self).entries().len(),
        ensures
            final(self).same_task(*old(self)),
            final(self)@ == old(self)@.with_report(old(self).entries()[old(self)@.at], version),
    {
        let ghost e = self.entries@[self.at as int];
        let name = self.entries[self.at].name.clone();
        let id = self.entries[self.at].id;
        self.upload_status.push(
            SuccessResult { id: name.clone(), version, sync_state: SyncState::Synced },
        );
        self.success_ids.push(name);
        self.landed.push(id);
        assert(texts(self.success_ids@) =~= texts(old(self).success_ids@).push(e.name@));
        assert(status_views(self.upload_status@) =~= status_views(old(self).upload_status@).push(
            synced(e.name@, version),
        ));
        assert(self@ =~= old(self)@.with_report(e, version));
    }

    fn copy_back(&mut self, row: Option<DrawingRow>) -> (action: DrawingAction)
        requires
            old(self)@.at < old(self).entries().len(),
        ensures
            final(self).same_task(*old(self)),
            steps_to(
                Ok(action),
                final(self)@,
                copied(old(self)@, old(self).entries()[old(self)@.at], row),
            ),
    {
        let ghost e = self.entries@[self.at as int];
        if let Some(row) = &row {
            let name = self.entries[self.at].name.clone();
            let remote = RemoteDelta {
                id: name.clone(),
                operation_type: OperationType::Update,
                version: row.version,
                data: drawing_to_send(row),
            };
            let ghost sent = remote@;
            self.remote_changes.push(remote);
            self.success_ids.push(name);
            proof {
                assert(texts(self.success_ids@) =~= texts(old(self).success_ids@).push(e.name@));
                assert(remote_views(self.remote_changes@) =~= remote_views(
                    old(self).remote_changes@,
                ).push(sent));
                assert(self@ =~= DrawingProgress {
                    acked: old(self)@.acked.push(e.name@),
                    sent: old(self)@.sent.push(sent),
                    ..old(self)@
                });
            }
        }
        self.turn();
        DrawingAction::Continue
    }

    fn remove(&mut self, version: Option<i32>) -> (r: Result<DrawingAction, AppError>)
        requires
            old(self)@.at < old(self).entries().len(),
        ensures
            final(self).same_task(*old(self)),
            steps_to(
                r,
                final(self)@,
                removed(old(self).context(), old(self)@, old(self).entries()[old(self)@.at], version),
            ),
    {
        let id = self.entries[self.at].id;
        match version {
            Some(current) => {
                match advance_version("Drawing", self.entries[self.at].name.as_str(), current) {
                    Ok(version) => {
                        self.report(version);
                        self.turn();
                        let last_modified: i64 = self.cx.server_ms;
                        Ok(DrawingAction::Issue(DrawingWrite::Delete { id, version, last_modified }))
                    },
                    Err(refusal) => Err(refusal),
                }
            },
            None => {
                let version: i32 = ack_unsynced_delete(
                    "drawing",
                    self.entries[self.at].name.as_str(),
                );
                self.report(version);
                self.turn();
                Ok(DrawingAction::Continue)
            },
        }
    }

    fn store(&mut self, v: DrawingValue, device: Uuid, current: Option<i32>) -> (r: Result<
        DrawingAction,
        AppError,
    >)
        requires
            old(self)@.at < old(self).entries().len(),
        ensures
            final(self).same_task(*old(self)),
            steps_to(
                r,
                final(self)@,
                stored(
                    old(self).context(),
                    old(self)@,
                    old(self).entries()[old(self)@.at],
                    v,
                    device,
                    current,
                ),
            ),
    {
        let at: usize = self.at;
        let id = self.entries[at].id;
        match assign_version(
            self.cx.bounds,
            "Drawing",
            self.entries[at].name.as_str(),
            current,
            v.version,
        ) {
            Ok(version) => {
                self.report(version);
                self.turn();
                Ok(
                    DrawingAction::Issue(
                        DrawingWrite::Store {
                            store_as: id,
                            device_uuid: device,
                            store_version: version,
                            is_deleted: v.is_deleted,
                            last_modified: self.cx.server_ms,
                            client_last_modified: v.last_modified,
                            created_at: v.created_at,
                            data: v.data,
                        },
                    ),
                )
            },
            Err(refusal) => Err(refusal),
        }
    }

    fn open_entry(&mut self) -> (r: Result<DrawingAction, AppError>)
        requires
            old(self)@.at < old(self).entries().len(),
        ensures
            final(self).same_task(*old(self)),
            steps_to(
                r,
                final(self)@,
                opened(old(self).context(), old(self)@, old(self).entries()[old(self)@.at]),
            ),
    {
        let id = self.entries[self.at].id;
        match &self.entries[self.at].act {
            DrawingAct::Skip => {
                self.turn();
                Ok(DrawingAction::Continue)
            },
            DrawingAct::Reject(reason) => Err(
                payload_refusal(
                    "drawing",
                    self.entries[self.at].name.as_str(),
                    reason.as_str(),
                ),
            ),
            DrawingAct::Copy => {
                self.enter(DrawingPhase::Copying);
                Ok(DrawingAction::ReadRow { id, device: self.cx.filter })
            },
            DrawingAct::Remove => {
                self.enter(DrawingPhase::Removing);
                Ok(DrawingAction::ReadVersion { id, device: self.cx.filter })
            },
            DrawingAct::Store(_) => match resolve_item_device(
                self.cx.rule,
                self.entries[self.at].device,
                "Drawing",
                self.entries[self.at].name.as_str(),
            ) {
                Err(refusal) => Err(refusal),
                Ok(ItemDevice::Known(device)) => {
                    self.enter(DrawingPhase::Storing(device));
                    Ok(DrawingAction::Continue)
                },
                Ok(ItemDevice::Ensure(device)) => {
                    self.enter(DrawingPhase::Storing(device));
                    Ok(DrawingAction::Ensure(device))
                },
                Ok(ItemDevice::Require(device)) => {
                    self.enter(DrawingPhase::Storing(device));
                    Ok(DrawingAction::Require(device))
                },
            },
        }
    }

    /// One step of the upload, given what came back. A refusal ends the upload.
    pub fn advance(&mut self, event: DrawingEvent) -> (r: Result<DrawingAction, AppError>)
        ensures
            final(self).same_task(*old(self)),
            steps_to(
                r,
                final(self)@,
                step(old(self).context(), old(self).entries(), old(self)@, event),
            ),
    {
        if self.at >= self.entries.len() {
            return Ok(DrawingAction::Done);
        }
        let id = self.entries[self.at].id;
        match self.phase {
            DrawingPhase::Open => self.open_entry(),
            DrawingPhase::Copying => match event {
                DrawingEvent::Row(row) => Ok(self.copy_back(row)),
                _ => Ok(DrawingAction::ReadRow { id, device: self.cx.filter }),
            },
            DrawingPhase::Removing => match event {
                DrawingEvent::Version(version) => self.remove(version),
                _ => Ok(DrawingAction::ReadVersion { id, device: self.cx.filter }),
            },
            DrawingPhase::Storing(device) => {
                let value: Option<DrawingValue> = match &self.entries[self.at].act {
                    DrawingAct::Store(v) => Some(v.copy()),
                    _ => None,
                };
                match value {
                    Some(v) => match event {
                        DrawingEvent::Version(current) => self.store(v, device, current),
                        _ => Ok(DrawingAction::ReadVersion { id, device: self.cx.filter }),
                    },
                    None => {
                        self.enter(DrawingPhase::Open);
                        Ok(DrawingAction::Continue)
                    },
                }
            },
        }
    }

    /// What the upload came to.
    pub fn finish(self) -> (o: DrawingOutcome)
        ensures
            texts(o.success_ids@) == self@.acked,
            status_views(o.upload_status@) == self@.reported,
            remote_views(o.remote_changes@) == self@.sent,
            o.landed@ == self@.landed,
    {
        DrawingOutcome {
            success_ids: self.success_ids,
            upload_status: self.upload_status,
            remote_changes: self.remote_changes,
            landed: self.landed,
        }
    }
}

/// The upload of a list of drawing changes.
pub fn process_drawing_changes(cx: DrawingContext, changes: &Vec<DrawingChangeDelta>) -> (u:
    DrawingUpload)
    ensures
        u.context() == cx,
        u.entries().len() == changes@.len(),
        forall|i: int|
            0 <= i < changes@.len() ==> is_entry_of_change(#[trigger] u.entries()[i], changes@[i]),
        u@ == at_the_start(),
{
    let mut entries: Vec<DrawingEntry> = Vec::new();
    let mut i: usize = 0;
    while i < changes.len()
        invariant
            i <= changes.len(),
            entries@.len() == i,
            forall|k: int| 0 <= k < i ==> is_entry_of_change(#[trigger] entries@[k], changes@[k]),
        decreases changes.len() - i,
    {
        entries.push(change_entry(&changes[i]));
        i = i + 1;
    }
    DrawingUpload::begin(cx, entries)
}

/// The upload of the flat list of drawings.
pub fn process_drawing_sync_items(cx: DrawingContext, items: &Vec<DrawingSyncItem>) -> (u:
    DrawingUpload)
    ensures
        u.context() == cx,
        u.entries().len() == items@.len(),
        forall|i: int|
            0 <= i < items@.len() ==> is_entry_of_item(#[trigger] u.entries()[i], items@[i]),
        u@ == at_the_start(),
{
    let mut entries: Vec<DrawingEntry> = Vec::new();
    let mut i: usize = 0;
    while i < items.len()
        invariant
            i <= items.len(),
            entries@.len() == i,
            forall|k: int| 0 <= k < i ==> is_entry_of_item(#[trigger] entries@[k], items@[k]),
        decreases items.len() - i,
    {
        entries.push(item_entry(&items[i]));
        i = i + 1;
    }
    DrawingUpload::begin(cx, entries)
}

/// A row as a change the server sends.
pub open spec fn drawing_change(row: DrawingRow) -> RemoteView<StoredDrawing> {
    RemoteView {
        id: hyphenated(row.id.bits),
        operation_type: download_operation(row.is_deleted),
        version: row.version,
        data: stored_drawing(row),
    }
}

/// The changes a download sends: a first sync is not told of deletions.
pub open spec fn drawing_changes(rows: Seq<DrawingRow>, initial: bool) -> Seq<
    RemoteView<StoredDrawing>,
>
    decreases rows.len(),
{
    if rows.len() == 0 {
        seq![]
    } else {
        let front = drawing_changes(rows.drop_last(), initial);
        if initial && rows.last().is_deleted {
            front
        } else {
            front.push(drawing_change(rows.last()))
        }
    }
}

/// The rows changed since the client's cursor, as the changes the server sends.
pub fn fetch_remote_drawing_mutations(
    rows: &Vec<DrawingRow>,
    last_synced_at: Option<Instant>,
) -> (changes: Vec<RemoteDelta<StoredDrawing>>)
    ensures
        remote_views(changes@) == drawing_changes(rows@, initial_sync(last_synced_at)),
{
    let initial = is_initial_sync(last_synced_at);
    let mut changes: Vec<RemoteDelta<StoredDrawing>> = Vec::new();
    let mut i: usize = 0;
    assert(rows@.take(0) =~= seq![]);
    assert(remote_views(changes@) =~= seq![]);
    while i < rows.len()
        invariant
            i <= rows.len(),
            remote_views(changes@) == drawing_changes(rows@.take(i as int), initial),
        decreases rows.len() - i,
    {
        let row = &rows[i];
        let ghost before = changes@;
        if !(initial && row.is_deleted) {
            let remote = RemoteDelta {
                id: row.id.text(),
                operation_type: operation_of(row.is_deleted),
                version: row.version,
                data: drawing_to_send(row),
            };
            changes.push(remote);
            assert(remote_views(changes@) =~= remote_views(before).push(remote@));
        }
        proof {
            let next = rows@.take(i + 1);
            assert(next.drop_last() =~= rows@.take(i as int));
            assert(next.last() == rows@[i as int]);
        }
        i = i + 1;
    }
    assert(rows@.take(i as int) =~= rows@);
    changes
}

/// A first sync is told of no deletion, and any other sync of every row it is owed.
pub proof fn a_first_sync_hears_of_no_deleted_drawing(rows: Seq<DrawingRow>, initial: bool)
    ensures
        initial ==> forall|i: int|
            0 <= i < drawing_changes(rows, initial).len() ==> (#[trigger] drawing_changes(
                rows,
                initial,
            )[i]).operation_type == OperationType::Update,
        !initial ==> drawing_changes(rows, initial) == rows.map_values(
            |row: DrawingRow| drawing_change(row),
        ),
    decreases rows.len(),
{
    if rows.len() > 0 {
        a_first_sync_hears_of_no_deleted_drawing(rows.drop_last(), initial);
        if !initial {
            assert(rows.map_values(|row: DrawingRow| drawing_change(row))
                =~= rows.drop_last().map_values(|row: DrawingRow| drawing_change(row)).push(
                drawing_change(rows.last()),
            ));
        }
    } else if !initial {
        assert(rows.map_values(|row: DrawingRow| drawing_change(row)) =~= seq![]);
    }
}

/// The rows a response carries in its flat list.
pub fn fetch_drawings_for_response(rows: &Vec<DrawingRow>) -> (items: Vec<StoredDrawing>)
    ensures
        items@ == rows@.map_values(|row: DrawingRow| stored_drawing(row)),
{
    let mut items: Vec<StoredDrawing> = Vec::new();
    let mut i: usize = 0;
    while i < rows.len()
        invariant
            i <= rows.len(),
            items@ == rows@.take(i as int).map_values(|row: DrawingRow| stored_drawing(row)),
        decreases rows.len() - i,
    {
        items.push(drawing_to_send(&rows[i]));
        assert(items@ =~= rows@.take(i + 1).map_values(|row: DrawingRow| stored_drawing(row)));
        i = i + 1;
    }
    assert(rows@.take(i as int) =~= rows@);
    items
}

/// Whether what came back answers what the phase asked for.
pub open spec fn answers(phase: DrawingPhase, event: DrawingEvent) -> bool {
    match phase {
        DrawingPhase::Open => true,
        DrawingPhase::Copying => event is Row,
        DrawingPhase::Storing(_) => event is Version,
        DrawingPhase::Removing => event is Version,
    }
}

/// Whether an upload can be in the phase it is in.
pub open spec fn steady(entries: Seq<DrawingEntry>, p: DrawingProgress) -> bool {
    &&& 0 <= p.at <= entries.len()
    &&& p.phase is Storing ==> p.at < entries.len() && entries[p.at].act is Store
}

/// An upload comes to an end: it stays steady, and a step that is answered goes on to the
/// next entry, or asks about this one, or is the last.
pub proof fn an_answered_step_makes_progress(
    cx: DrawingContext,
    entries: Seq<DrawingEntry>,
    p: DrawingProgress,
    event: DrawingEvent,
)
    requires
        steady(entries, p),
        answers(p.phase, event),
    ensures
        step(cx, entries, p, event) matches DrawingStep::Taken { next, action } ==> {
            &&& steady(entries, next)
            &&& action is Done && next == p || next.at == p.at + 1 || (next.at == p.at && p.phase
                == DrawingPhase::Open && next.phase != DrawingPhase::Open)
        },
        steady(entries, at_the_start()),
{
}

/// Every row an upload writes carries the server's clock reading: the client's own does not
/// decide what a download's cursor is compared with.
pub proof fn a_written_drawing_carries_the_servers_clock(
    cx: DrawingContext,
    entries: Seq<DrawingEntry>,
    p: DrawingProgress,
    event: DrawingEvent,
)
    ensures
        step(cx, entries, p, event) matches DrawingStep::Taken {
            action: DrawingAction::Issue(write),
            ..
        } ==> match write {
            DrawingWrite::Store { last_modified, .. } => last_modified == cx.server_ms,
            DrawingWrite::Delete { last_modified, .. } => last_modified == cx.server_ms,
        },
{
}

/// Every delete is acknowledged, whether or not there was a row to delete, unless the row's
/// version cannot advance.
pub proof fn every_delete_is_acknowledged(
    cx: DrawingContext,
    p: DrawingProgress,
    e: DrawingEntry,
    version: Option<i32>,
)
    ensures
        match removed(cx, p, e, version) {
            DrawingStep::Taken { next, .. } => next.acked == p.acked.push(e.name@)
                && next.reported.len() == p.reported.len() + 1,
            DrawingStep::Refused(_) => version == Some(i32::MAX),
        },
{
}

/// A picture is stored as it was measured: what a body that passed its limits asks to store
/// is no longer than a picture may be.
pub proof fn a_stored_picture_was_measured(
    payload: SyncRequest,
    limits: SyncLimits,
    i: int,
    e: DrawingEntry,
)
    requires
        payload_check(payload, limits) is Ok,
    ensures
        0 <= i < payload.drawings@.len() && is_entry_of_item(e, payload.drawings@[i])
            ==> (e.act matches DrawingAct::Store(v) ==> byte_len(v.data@)
            <= limits.max_drawing_data_bytes),
        0 <= i < payload.drawing_changes@.len() && is_entry_of_change(
            e,
            payload.drawing_changes@[i],
        ) ==> (e.act matches DrawingAct::Store(v) ==> byte_len(v.data@)
            <= limits.max_drawing_data_bytes),
{
    a_passed_body_is_bounded(payload, limits);
    if 0 <= i < payload.drawing_changes@.len() {
        let change = payload.drawing_changes@[i];
        assert(blob_of(change) matches Some(blob) ==> picture_fits(blob, limits));
    }
}

/// A drawing is stored as its entry asks: whatever step issues a store, the row takes the
/// entry's id, the device it was placed on, and the entry's own picture, deletion, time of
/// creation and clock reading, for a new row as for a stored one. A stored row moves one version
/// on and a new one starts at the client's number. The entry is acknowledged and reported under
/// its name at that version, its row is read back, and the upload goes on to the next entry.
pub proof fn a_drawing_is_stored_as_its_entry_asks(
    cx: DrawingContext,
    entries: Seq<DrawingEntry>,
    p: DrawingProgress,
    event: DrawingEvent,
)
    requires
        0 <= p.at < entries.len(),
    ensures
        step(cx, entries, p, event) matches DrawingStep::Taken {
            next,
            action: DrawingAction::Issue(write),
        } ==> {
            let e = entries[p.at];
            let version = match write {
                DrawingWrite::Store { store_version, .. } => store_version,
                DrawingWrite::Delete { version, .. } => version,
            };
            &&& match write {
                DrawingWrite::Store {
                    store_as,
                    device_uuid,
                    store_version,
                    is_deleted,
                    last_modified,
                    client_last_modified,
                    created_at,
                    data,
                } => e.act matches DrawingAct::Store(v) && {
                    &&& store_as == e.id
                    &&& p.phase == DrawingPhase::Storing(device_uuid)
                    &&& is_deleted == v.is_deleted
                    &&& data == v.data
                    &&& created_at == v.created_at
                    &&& client_last_modified == v.last_modified
                    &&& last_modified == cx.server_ms
                    &&& event matches DrawingEvent::Version(stored) && match stored {
                        Some(current) => store_version == current + 1,
                        None => store_version == v.version && 0 <= v.version && v.version
                            <= cx.bounds.max_seed,
                    }
                },
                DrawingWrite::Delete { id, version, last_modified } => {
                    &&& id == e.id
                    &&& p.phase is Removing
                    &&& last_modified == cx.server_ms
                    &&& event matches DrawingEvent::Version(Some(current)) && version == current + 1
                },
            }
            &&& next.at == p.at + 1
            &&& next.phase is Open
            &&& next.acked == p.acked.push(e.name@)
            &&& next.landed == p.landed.push(e.id)
            &&& next.sent == p.sent
            &&& next.reported.len() == p.reported.len() + 1
            &&& next.reported.take(p.reported.len() as int) == p.reported
            &&& next.reported.last().id == e.name@
            &&& next.reported.last().version == version
            &&& next.reported.last().sync_state is Synced
        },
{
    if let DrawingStep::Taken { next, action: DrawingAction::Issue(write) } = step(
        cx,
        entries,
        p,
        event,
    ) {
        assert(next.reported.take(p.reported.len() as int) =~= p.reported);
    }
}

/// An item of the flat list reaches the table as it was sent: one that asks for no deletion is
/// stored, not deleted, with its own picture and times; one that asks for deletion, by its flag
/// or by its state, is never stored.
pub proof fn an_uploaded_drawing_reaches_the_table(
    cx: DrawingContext,
    entries: Seq<DrawingEntry>,
    p: DrawingProgress,
    event: DrawingEvent,
    item: DrawingSyncItem,
)
    requires
        0 <= p.at < entries.len(),
        is_entry_of_item(entries[p.at], item),
    ensures
        step(cx, entries, p, event) matches DrawingStep::Taken {
            action: DrawingAction::Issue(write),
            ..
        } ==> match write {
            DrawingWrite::Store {
                store_as,
                is_deleted,
                client_last_modified,
                created_at,
                data,
                ..
            } => {
                &&& !item.is_deleted && !(item.sync_state is PendingDelete)
                &&& store_as == item.id
                &&& !is_deleted
                &&& client_last_modified == item.last_modified
                &&& created_at == item.created_at
                &&& data@ == encoding(item.data)
            },
            DrawingWrite::Delete { id, .. } => id == item.id,
        },
        entries[p.at].name@ == hyphenated(item.id.bits),
        entries[p.at].device == item.device_uuid,
        entries[p.at].act is Remove <==> item.is_deleted || item.sync_state is PendingDelete,
        entries[p.at].act is Store <==> !item.is_deleted && !(item.sync_state is PendingDelete),
        entries[p.at].act matches DrawingAct::Store(v) ==> v.version == item.version,
{
}

/// A change reaches the table as it was sent: a delete removes its row, and any other change
/// that carries a drawing stores it with the drawing's own picture, deletion and times. An update
/// without a document asks for the server's copy, an insert without one is passed over, and a
/// document that is no drawing is refused.
pub proof fn a_changed_drawing_reaches_the_table(
    cx: DrawingContext,
    entries: Seq<DrawingEntry>,
    p: DrawingProgress,
    event: DrawingEvent,
    change: DrawingChangeDelta,
)
    requires
        0 <= p.at < entries.len(),
        is_entry_of_change(entries[p.at], change),
    ensures
        step(cx, entries, p, event) matches DrawingStep::Taken {
            action: DrawingAction::Issue(write),
            ..
        } ==> match write {
            DrawingWrite::Store {
                store_as,
                is_deleted,
                client_last_modified,
                created_at,
                data,
                ..
            } => change.operation_type != OperationType::Delete && (
            change.data matches Payload::Item(sent) && {
                &&& store_as == uuid_of(change.id@)
                &&& is_deleted == sent.is_deleted
                &&& client_last_modified == sent.last_modified
                &&& created_at == sent.created_at
                &&& data@ == encoding(sent.data)
            }),
            DrawingWrite::Delete { id, .. } => id == uuid_of(change.id@),
        },
        ({
            let e = entries[p.at];
            let deletes = change.operation_type == OperationType::Delete;
            let bare = change.data is Missing || change.data is Null;
            &&& e.id == uuid_of(change.id@)
            &&& e.name == change.id
            &&& e.act is Remove <==> deletes
            &&& e.act is Store <==> !deletes && change.data is Item
            &&& e.act is Copy <==> change.operation_type == OperationType::Update && bare
            &&& e.act is Skip <==> change.operation_type == OperationType::Insert
                && change.data is Missing
            &&& change.device_uuid is Some ==> e.device == change.device_uuid
            &&& change.device_uuid is None && !deletes ==> (change.data matches Payload::Item(sent)
                ==> e.device == sent.device_uuid)
            &&& e.act matches DrawingAct::Store(v) ==> (change.data matches Payload::Item(sent)
                && v.version == sent.version)
        }),
{
}

/// An entry that is looked at for the first time asks for what it needs and changes nothing: a
/// copy and a delete read the account's row under the entry's id, within the device the request
/// is about; a drawing to store is placed on a device first; and what cannot be read is refused
/// as the client's mistake.
pub proof fn an_opened_drawing_asks_for_what_it_needs(
    cx: DrawingContext,
    entries: Seq<DrawingEntry>,
    p: DrawingProgress,
    event: DrawingEvent,
)
    requires
        0 <= p.at < entries.len(),
        p.phase is Open,
    ensures
        ({
            let e = entries[p.at];
            match step(cx, entries, p, event) {
                DrawingStep::Refused(refusal) => refusal is BadRequest && match e.act {
                    DrawingAct::Reject(_) => true,
                    DrawingAct::Store(_) => cx.rule is RowMustName && e.device is None,
                    _ => false,
                },
                DrawingStep::Taken { next, action } => {
                    &&& next.acked == p.acked
                    &&& next.reported == p.reported
                    &&& next.sent == p.sent
                    &&& next.landed == p.landed
                    &&& next.at == (if e.act is Skip {
                        p.at + 1
                    } else {
                        p.at
                    })
                    &&& match e.act {
                        DrawingAct::Skip => next.phase is Open && action is Continue,
                        DrawingAct::Reject(_) => false,
                        DrawingAct::Copy => next.phase is Copying && action
                            == (DrawingAction::ReadRow { id: e.id, device: cx.filter }),
                        DrawingAct::Remove => next.phase is Removing && action
                            == (DrawingAction::ReadVersion { id: e.id, device: cx.filter }),
                        DrawingAct::Store(_) => match (cx.rule, e.device) {
                            (ItemDeviceRule::RequestDevice(own), None) => next.phase
                                == DrawingPhase::Storing(own) && action is Continue,
                            (ItemDeviceRule::RequestDevice(own), Some(device)) => next.phase
                                == DrawingPhase::Storing(device) && action == (if device == own {
                                DrawingAction::Continue
                            } else {
                                DrawingAction::Ensure(device)
                            }),
                            (ItemDeviceRule::RowMustName, Some(device)) => next.phase
                                == DrawingPhase::Storing(device) && action
                                == DrawingAction::Require(device),
                            (ItemDeviceRule::RowMustName, None) => false,
                        },
                    }
                },
            }
        }),
{
}

/// What is owed to an answered entry: a drawing is stored, and a row that is there is deleted,
/// unless the version does not allow it; a delete without a row is acknowledged at the first
/// version and writes nothing; and a copy is sent back as the row stands, or not at all where
/// there is none.
pub proof fn an_answered_drawing_is_settled(
    cx: DrawingContext,
    entries: Seq<DrawingEntry>,
    p: DrawingProgress,
    event: DrawingEvent,
)
    requires
        0 <= p.at < entries.len(),
        answers(p.phase, event),
        steady(entries, p),
        !(p.phase is Open),
    ensures
        ({
            let e = entries[p.at];
            match step(cx, entries, p, event) {
                DrawingStep::Refused(refusal) => refusal is BadRequest && (
                event matches DrawingEvent::Version(stored) && match stored {
                    Some(current) => current == i32::MAX,
                    None => e.act matches DrawingAct::Store(v) && p.phase is Storing && (v.version < 0
                        || v.version > cx.bounds.max_seed),
                }),
                DrawingStep::Taken { next, action } => {
                    &&& next.at == p.at + 1
                    &&& next.phase is Open
                    &&& match (p.phase, event) {
                        (DrawingPhase::Copying, DrawingEvent::Row(Some(row))) => {
                            &&& action is Continue
                            &&& next.acked == p.acked.push(e.name@)
                            &&& next.reported == p.reported
                            &&& next.landed == p.landed
                            &&& next.sent.len() == p.sent.len() + 1
                            &&& next.sent.take(p.sent.len() as int) == p.sent
                            &&& {
                                let sent = next.sent.last();
                                &&& sent.id == e.name@
                                &&& sent.operation_type == OperationType::Update
                                &&& sent.version == row.version
                                &&& shows_drawing(sent.data, row)
                            }
                        },
                        (DrawingPhase::Copying, _) => action is Continue && next.acked == p.acked
                            && next.reported == p.reported && next.landed == p.landed && next.sent
                            == p.sent,
                        (DrawingPhase::Removing, DrawingEvent::Version(None)) => {
                            &&& action is Continue
                            &&& next.acked == p.acked.push(e.name@)
                            &&& next.landed == p.landed.push(e.id)
                            &&& next.sent == p.sent
                            &&& next.reported.len() == p.reported.len() + 1
                            &&& next.reported.take(p.reported.len() as int) == p.reported
                            &&& next.reported.last().id == e.name@
                            &&& next.reported.last().version == 1
                            &&& next.reported.last().sync_state is Synced
                        },
                        (DrawingPhase::Removing, _) => action matches DrawingAction::Issue(
                            DrawingWrite::Delete { .. },
                        ),
                        _ => action matches DrawingAction::Issue(DrawingWrite::Store { .. }),
                    }
                },
            }
        }),
{
    if let DrawingStep::Taken { next, action } = step(cx, entries, p, event) {
        assert(next.sent.len() > p.sent.len() ==> next.sent.take(p.sent.len() as int) =~= p.sent);
        assert(next.reported.len() > p.reported.len() ==> next.reported.take(
            p.reported.len() as int,
        ) =~= p.reported);
    }
}

/// Whether a drawing shows a row as it is stored: each of its fields is the row's, and a row
/// that names no state is synced.
pub open spec fn shows_drawing(shown: StoredDrawing, row: DrawingRow) -> bool {
    &&& shown.id == row.id
    &&& shown.user_id == row.user_id
    &&& shown.client_uuid == row.client_uuid
    &&& shown.device_uuid == row.device_uuid
    &&& shown.version == row.version
    &&& shown.is_deleted == row.is_deleted
    &&& shown.last_modified == row.last_modified
    &&& shown.created_at == row.created_at
    &&& shown.data == row.data
    &&& match row.sync_state {
        Some(state) => shown.sync_state == state,
        None => shown.sync_state is Synced,
    }
}

/// A download sends drawings as they are stored: all of them in order, but for deleted ones on
/// a first sync; as deletions exactly if they are marked deleted; and the flat list of a
/// response shows every row.
pub proof fn drawings_are_sent_as_they_are_stored(
    rows: Vec<DrawingRow>,
    last_synced_at: Option<Instant>,
    changes: Vec<RemoteDelta<StoredDrawing>>,
    items: Vec<StoredDrawing>,
)
    requires
        call_ensures(fetch_remote_drawing_mutations, (&rows, last_synced_at), changes),
        call_ensures(fetch_drawings_for_response, (&rows,), items),
    ensures
        ({
            let first = match last_synced_at {
                Some(cursor) => cursor.secs <= 0,
                None => true,
            };
            let due = rows@.filter(|row: DrawingRow| !(first && row.is_deleted));
            &&& changes@.len() == due.len()
            &&& forall|k: int|
                0 <= k < due.len() ==> {
                    let sent = #[trigger] changes@[k];
                    &&& sent.id@ == hyphenated(due[k].id.bits)
                    &&& sent.operation_type == (if due[k].is_deleted {
                        OperationType::Delete
                    } else {
                        OperationType::Update
                    })
                    &&& sent.version == due[k].version
                    &&& shows_drawing(sent.data, due[k])
                }
        }),
        items@.len() == rows@.len(),
        forall|k: int| 0 <= k < rows@.len() ==> shows_drawing(#[trigger] items@[k], rows@[k]),
{
    let first = match last_synced_at {
        Some(cursor) => cursor.secs <= 0,
        None => true,
    };
    let due = rows@.filter(|row: DrawingRow| !(first && row.is_deleted));
    changes_are_due(rows@, first);
    let views = remote_views(changes@);
    assert(views == drawing_changes(rows@, first));
    assert(changes@.len() == views.len());
    assert forall|k: int| 0 <= k < due.len() implies {
        let sent = #[trigger] changes@[k];
        &&& sent.id@ == hyphenated(due[k].id.bits)
        &&& sent.operation_type == (if due[k].is_deleted {
            OperationType::Delete
        } else {
            OperationType::Update
        })
        &&& sent.version == due[k].version
        &&& shows_drawing(sent.data, due[k])
    } by {
        assert(views[k] == changes@[k]@);
        assert(views[k] == drawing_change(due[k]));
    }
}

proof fn changes_are_due(rows: Seq<DrawingRow>, first: bool)
    ensures
        ({
            let due = rows.filter(|row: DrawingRow| !(first && row.is_deleted));
            &&& drawing_changes(rows, first).len() == due.len()
            &&& forall|k: int|
                0 <= k < due.len() ==> (#[trigger] drawing_changes(rows, first)[k])
                    == drawing_change(due[k])
        }),
    decreases rows.len(),
{
    reveal(Seq::filter);
    if rows.len() > 0 {
        changes_are_due(rows.drop_last(), first);
    }
}

/// A drawing that was uploaded and then downloaded comes back with the picture that was
/// uploaded, under its own id, and as no deletion: whatever row holds what the upload of an item
/// stored, the flat list shows the item's picture and the time it was created.
pub proof fn an_uploaded_drawing_comes_back(
    cx: DrawingContext,
    entries: Seq<DrawingEntry>,
    p: DrawingProgress,
    event: DrawingEvent,
    item: DrawingSyncItem,
    row: DrawingRow,
    rows: Vec<DrawingRow>,
    items: Vec<StoredDrawing>,
    k: int,
)
    requires
        0 <= p.at < entries.len(),
        is_entry_of_item(entries[p.at], item),
        step(cx, entries, p, event) matches DrawingStep::Taken {
            action: DrawingAction::Issue(
                DrawingWrite::Store { store_as, store_version, is_deleted, created_at, data, .. },
            ),
            ..
        } && row.id == store_as && row.version == store_version && row.is_deleted == is_deleted
            && row.created_at == created_at && row.data == data,
        0 <= k < rows@.len(),
        rows@[k] == row,
        call_ensures(fetch_drawings_for_response, (&rows,), items),
    ensures
        items@[k].id == item.id,
        items@[k].data@ == encoding(item.data),
        items@[k].created_at == item.created_at,
        !items@[k].is_deleted,
{
    an_uploaded_drawing_reaches_the_table(cx, entries, p, event, item);
    assert(items@[k] == stored_drawing(rows@[k]));
}

/// A drawing is read for a client exactly if it was last written after the millisecond the read
/// begins at, no later than the one it ends at, and by another client unless the client's own
/// writes are read too.
pub proof fn a_drawing_is_read_once_it_was_written(
    row: DrawingRow,
    query: DownloadQuery,
    client: Uuid,
)
    ensures
        crate::sync::download::answers(row, query, client) <==> {
            &&& row.last_modified > query.after_ms
            &&& query.through_ms matches Some(ms) ==> row.last_modified <= ms
            &&& query.include_own || row.client_uuid != client
        },
{
}

/// A page of drawings serves what was read, in order: all of it where it fits, and otherwise
/// the rows in front of the millisecond that does not fit whole, with the last millisecond
/// served as the cursor; where there is none in front, that one millisecond is read whole.
pub proof fn drawings_are_served_in_the_order_they_were_written(
    rows: Vec<DrawingRow>,
    query: DownloadQuery,
    size: usize,
    page: DownloadPage<DrawingRow>,
)
    requires
        call_ensures(
            cut_page::<DrawingRow>,
            (rows, query, Some(size)),
            page,
        ),
    ensures
        match page {
            DownloadPage::Serve { rows: kept, next_cursor_ms: None } => {
                rows@.len() <= size && kept@ == rows@
            },
            DownloadPage::Serve { rows: kept, next_cursor_ms: Some(ms) } => {
                &&& rows@.len() > size && 0 < kept@.len() <= size
                &&& forall|i: int| 0 <= i < kept@.len() ==> #[trigger] kept@[i] == rows@[i]
                &&& ms == rows@[kept@.len() - 1].last_modified
                &&& ms < rows@[size as int].last_modified
                &&& forall|i: int|
                    kept@.len() <= i < size ==> (#[trigger] rows@[i]).last_modified
                        >= rows@[size as int].last_modified
            },
            DownloadPage::Reread { query: again, ms } => {
                &&& rows@.len() > size
                &&& ms == rows@[size as int].last_modified
                &&& ms > i64::MIN ==> again.after_ms == ms - 1
                &&& again.through_ms == Some(ms)
                &&& again.include_own == query.include_own
                &&& again.limit == i64::MAX
                &&& forall|i: int| 0 <= i < size ==> (#[trigger] rows@[i]).last_modified >= ms
            },
        },
{
    if let DownloadPage::Serve { rows: kept, next_cursor_ms } = page {
        if next_cursor_ms is Some {
            assert(kept@.last() == rows@[kept@.len() - 1]);
            assert forall|i: int| 0 <= i < kept@.len() implies #[trigger] kept@[i] == rows@[i] by {
                assert(rows@.take(kept@.len() as int)[i] == rows@[i]);
            }
        }
    }
}

/// An upload of drawings begins with everything that was sent, in order, and with nothing done:
/// an item asks for its picture to be stored under its id unless it is deleted, and a change for
/// that of its document unless it is a delete.
pub proof fn an_upload_begins_with_every_drawing_sent(
    cx: DrawingContext,
    changes: &Vec<DrawingChangeDelta>,
    items: &Vec<DrawingSyncItem>,
    of_changes: DrawingUpload,
    of_items: DrawingUpload,
    i: int,
)
    requires
        call_ensures(process_drawing_changes, (cx, changes), of_changes),
        call_ensures(process_drawing_sync_items, (cx, items), of_items),
    ensures
        of_changes.context() == cx,
        of_items.context() == cx,
        of_changes.entries().len() == changes@.len(),
        of_items.entries().len() == items@.len(),
        of_changes@.at == 0 && of_changes@.phase is Open && of_changes@.acked.len() == 0
            && of_changes@.reported.len() == 0 && of_changes@.sent.len() == 0
            && of_changes@.landed.len() == 0,
        of_items@.at == 0 && of_items@.phase is Open && of_items@.acked.len() == 0
            && of_items@.reported.len() == 0 && of_items@.sent.len() == 0 && of_items@.landed.len()
            == 0,
        0 <= i < changes@.len() ==> {
            let change = changes@[i];
            let entry = of_changes.entries()[i];
            &&& entry.id == uuid_of(change.id@)
            &&& entry.name@ == change.id@
            &&& change.device_uuid is Some ==> entry.device == change.device_uuid
            &&& change.operation_type is Delete ==> entry.act is Remove && entry.device
                == change.device_uuid
            &&& !(change.operation_type is Delete) ==> (change.data matches Payload::Item(data) ==> {
                &&& entry.act matches DrawingAct::Store(v) && v.version == data.version
                    && v.is_deleted == data.is_deleted && v.last_modified == data.last_modified
                    && v.created_at == data.created_at && v.data@ == encoding(data.data)
                &&& change.device_uuid is None ==> entry.device == data.device_uuid
            })
            &&& !(change.operation_type is Delete) && change.data is Unreadable ==> entry.act
                is Reject
            &&& change.operation_type is Update && (change.data is Missing || change.data is Null)
                ==> entry.act is Copy
            &&& change.operation_type is Insert && change.data is Missing ==> entry.act is Skip
            &&& change.operation_type is Insert && change.data is Null ==> entry.act is Reject
        },
        0 <= i < items@.len() ==> {
            let item = items@[i];
            let entry = of_items.entries()[i];
            &&& entry.id == item.id
            &&& entry.name@ == hyphenated(item.id.bits)
            &&& entry.device == item.device_uuid
            &&& item.is_deleted || item.sync_state is PendingDelete ==> entry.act is Remove
            &&& !item.is_deleted && !(item.sync_state is PendingDelete) ==> (
            entry.act matches DrawingAct::Store(v) && v.version == item.version && !v.is_deleted
                && v.last_modified == item.last_modified && v.created_at == item.created_at
                && v.data@ == encoding(item.data))
        },
{
    if 0 <= i < changes@.len() {
        assert(is_entry_of_change(of_changes.entries()[i], changes@[i]));
    }
    if 0 <= i < items@.len() {
        assert(is_entry_of_item(of_items.entries()[i], items@[i]));
    }
}

} // verus!
