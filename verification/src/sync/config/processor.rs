//! The machine that runs an upload of configs.

use crate::error::AppError;
use crate::ids::{fresh_uuid, is_random_form, Uuid};
use crate::sync::batching::{is_one_statement, longer_run_is_one_statement, OpenRun};
use crate::sync::config::cache::{
    id_token, id_token_text, key_token, key_token_text, resolve_config_target, target_of,
    CachedConfig, ConfigBatch, TargetFacts,
};
use crate::sync::config::table::{
    a_fresh_answer_is_the_tables, a_noted_write_keeps_the_cache_true,
    a_resolved_write_collides_with_nothing, after_write, agrees, table_facts, table_ok, table_row,
};
use crate::sync::config::upload::{
    change_entry, config_to_send, copied, entry_of_change, gate, is_entry_of_item, item_entry,
    opened, placed, removed, step, steps_to, stored, ActionView, ConfigAct, ConfigAction,
    ConfigBroadcast, ConfigContext, ConfigEntry, ConfigEvent, ConfigPhase, ConfigRename,
    ConfigStep, ConfigStore, ConfigValue, ConfigWrite, Progress, StepView, StoredConfig,
};
use crate::sync::deletes::ack_unsynced_delete;
use crate::sync::device::{resolve_item_device_cached, ItemDevice, RegisteredDevices};
use crate::sync::rejections::payload_refusal;
use crate::sync::request::{ConfigChangeDelta, ConfigSyncItem};
use crate::sync::types::{
    remote_views, status_views, synced, OperationType, RemoteDelta, SuccessResult, SyncState,
};
use crate::sync::versioning::{advance_version, assign_version};
use crate::text::texts;
use vstd::prelude::*;

verus! {

/// An upload of configs under way.
pub struct ConfigUpload {
    cx: ConfigContext,
    entries: Vec<ConfigEntry>,
    registered: RegisteredDevices,
    batch: ConfigBatch,
    run: OpenRun<ConfigWrite>,
    at: usize,
    phase: ConfigPhase,
    success_ids: Vec<String>,
    upload_status: Vec<SuccessResult>,
    remote_changes: Vec<RemoteDelta<StoredConfig>>,
    landed: Vec<Uuid>,
}

/// What an upload of configs comes to.
pub struct ConfigOutcome {
    /// The ids of the entries that are done, as the client wrote them.
    pub success_ids: Vec<String>,
    /// The version each entry ended at.
    pub upload_status: Vec<SuccessResult>,
    /// The server's copies the client asked for.
    pub remote_changes: Vec<RemoteDelta<StoredConfig>>,
    /// The ids of the rows to read back.
    pub landed: Vec<Uuid>,
}

impl ConfigUpload {
    /// How far the upload has come.
    pub closed spec fn view(&self) -> Progress {
        Progress {
            at: self.at as int,
            phase: self.phase,
            run: self.run@,
            cache: self.batch@,
            acked: texts(self.success_ids@),
            reported: status_views(self.upload_status@),
            sent: remote_views(self.remote_changes@),
            landed: self.landed@,
        }
    }

    /// What holds for every entry.
    pub closed spec fn context(self) -> ConfigContext {
        self.cx
    }

    /// The entries of the upload.
    pub closed spec fn entries(self) -> Seq<ConfigEntry> {
        self.entries@
    }

    /// The devices that are known to be registered.
    pub closed spec fn registered(self) -> Set<u128> {
        self.registered@
    }

    /// The machine's invariant.
    pub closed spec fn wf(self) -> bool {
        self.run.wf() && self.at <= self.entries@.len()
    }

    /// Whether two uploads have the same context, entries and devices.
    pub open spec fn same_task(self, other: ConfigUpload) -> bool {
        &&& self.context() == other.context()
        &&& self.entries() == other.entries()
        &&& self.registered() == other.registered()
    }

    /// An upload of `entries` that has not begun.
    pub fn begin(
        cx: ConfigContext,
        entries: Vec<ConfigEntry>,
        registered: RegisteredDevices,
        batch: ConfigBatch,
    ) -> (u: ConfigUpload)
        ensures
            u.wf(),
            u.context() == cx,
            u.entries() == entries@,
            u.registered() == registered@,
            u@ == at_the_start(batch@),
    {
        let u = ConfigUpload {
            cx,
            entries,
            registered,
            batch,
            run: OpenRun::new(),
            at: 0,
            phase: ConfigPhase::Open,
            success_ids: Vec::new(),
            upload_status: Vec::new(),
            remote_changes: Vec::new(),
            landed: Vec::new(),
        };
        assert(u@ =~= at_the_start(batch@));
        u
    }

    fn turn(&mut self)
        requires
            old(self).wf(),
            old(self)@.at < old(self).entries().len(),
        ensures
            final(self).wf(),
            final(self).same_task(*old(self)),
            final(self)@ == old(self)@.turned(),
    {
        assert(self.at < self.entries.len());
        self.at = self.at + 1;
        self.phase = ConfigPhase::Open;
        assert(self@ =~= old(self)@.turned());
    }

    fn enter(&mut self, phase: ConfigPhase)
        requires
            old(self).wf(),
        ensures
            final(self).wf(),
            final(self).same_task(*old(self)),
            final(self)@ == old(self)@.in_phase(phase),
    {
        self.phase = phase;
        assert(self@ =~= old(self)@.in_phase(phase));
    }

    fn flush(&mut self) -> (run: Vec<ConfigWrite>)
        requires
            old(self).wf(),
        ensures
            final(self).wf(),
            final(self).same_task(*old(self)),
            final(self)@ == old(self)@.flushed(),
            run@ == old(self)@.run,
    {
        let run = self.run.take();
        assert(self@ =~= old(self)@.flushed());
        run
    }

    fn join(&mut self, w: ConfigWrite) -> (action: ConfigAction)
        requires
            old(self).wf(),
        ensures
            final(self).wf(),
            final(self).same_task(*old(self)),
            final(self)@ == old(self)@.joined(w),
            action@ == old(self)@.joining(w),
    {
        let ended = self.run.join(w);
        assert(self@ =~= old(self)@.joined(w));
        match ended {
            Some(run) => ConfigAction::Issue(run),
            None => ConfigAction::Continue,
        }
    }

    fn report(&mut self, e: &ConfigEntry, version: i32, stored_as: Uuid)
        requires
            old(self).wf(),
        ensures
            final(self).wf(),
            final(self).same_task(*old(self)),
            final(self)@ == old(self)@.with_report(*e, version, stored_as),
    {
        self.upload_status.push(
            SuccessResult { id: e.name.clone(), version, sync_state: SyncState::Synced },
        );
        self.success_ids.push(e.name.clone());
        self.landed.push(e.id);
        if stored_as != e.id {
            self.landed.push(stored_as);
        }
        assert(texts(self.success_ids@) =~= texts(old(self).success_ids@).push(e.name@));
        assert(status_views(self.upload_status@) =~= status_views(old(self).upload_status@).push(
            synced(e.name@, version),
        ));
        assert(self@ =~= old(self)@.with_report(*e, version, stored_as));
    }

    fn copy_back(&mut self, e: &ConfigEntry, row: Option<CachedConfig>) -> (step: ConfigStep)
        requires
            old(self).wf(),
            old(self)@.at < old(self).entries().len(),
        ensures
            final(self).wf(),
            final(self).same_task(*old(self)),
            steps_to(Ok(step), final(self)@, copied(old(self)@, *e, row)),
    {
        if let Some(row) = row {
            let version: i32 = row.version;
            let remote = RemoteDelta {
                id: e.name.clone(),
                operation_type: OperationType::Update,
                version,
                data: config_to_send(row),
            };
            let ghost sent = remote@;
            self.remote_changes.push(remote);
            self.success_ids.push(e.name.clone());
            proof {
                assert(texts(self.success_ids@) =~= texts(old(self).success_ids@).push(e.name@));
                assert(remote_views(self.remote_changes@) =~= remote_views(
                    old(self).remote_changes@,
                ).push(sent));
                assert(self@ =~= Progress {
                    acked: old(self)@.acked.push(e.name@),
                    sent: old(self)@.sent.push(sent),
                    ..old(self)@
                });
            }
        }
        self.turn();
        ConfigStep { action: ConfigAction::Continue, announce: None }
    }

    fn remove(&mut self, e: &ConfigEntry, device: Uuid, row: Option<CachedConfig>) -> (r: Result<
        ConfigStep,
        AppError,
    >)
        requires
            old(self).wf(),
            old(self)@.at < old(self).entries().len(),
        ensures
            final(self).wf(),
            final(self).same_task(*old(self)),
            steps_to(r, final(self)@, removed(old(self).context(), old(self)@, *e, device, row)),
    {
        match row {
            Some(row) => {
                let version: i32 = match advance_version("Config", e.name.as_str(), row.version) {
                    Ok(version) => version,
                    Err(refusal) => return Err(refusal),
                };
                self.batch.note_version_bump(device, e.id, row.key.as_str());
                assert(self@ =~= Progress {
                    cache: old(self)@.cache.touched(e.id, device, row.key@),
                    ..old(self)@
                });
                let w = ConfigWrite::Delete {
                    id: e.id,
                    device_uuid: device,
                    version,
                    last_modified: self.cx.server_ms,
                    key: row.key,
                };
                let action = self.join(w);
                self.report(e, version, e.id);
                self.turn();
                Ok(ConfigStep { action, announce: None })
            },
            None => {
                let version: i32 = ack_unsynced_delete("config", e.name.as_str());
                self.report(e, version, e.id);
                self.turn();
                Ok(ConfigStep { action: ConfigAction::Continue, announce: None })
            },
        }
    }

    /// Applies a resolved config write: rewrites the row the target points at, or inserts.
    fn write_config(
        &mut self,
        e: &ConfigEntry,
        v: ConfigValue,
        device: Uuid,
        facts: TargetFacts,
        fresh: Uuid,
    ) -> (r: Result<ConfigStep, AppError>)
        requires
            old(self).wf(),
            old(self)@.at < old(self).entries().len(),
        ensures
            final(self).wf(),
            final(self).same_task(*old(self)),
            steps_to(
                r,
                final(self)@,
                stored(old(self).context(), old(self)@, *e, v, device, facts, fresh),
            ),
    {
        let known: Option<i32> = match &facts.existing {
            Some(row) => Some(row.version),
            None => None,
        };
        let version: i32 = match assign_version(
            self.cx.bounds,
            "Config",
            e.name.as_str(),
            known,
            v.version,
        ) {
            Ok(version) => version,
            Err(refusal) => return Err(refusal),
        };
        let target = resolve_config_target(facts, e.id, fresh);
        let new_id = target.new_id;
        self.batch.note_write(device, &target, v.key.as_str());
        assert(self@ =~= Progress {
            cache: old(self)@.cache.noted(device, target, v.key@),
            ..old(self)@
        });
        let item = ConfigSyncItem {
            id: new_id,
            device_uuid: Some(device),
            key: v.key.clone(),
            value: v.value.clone(),
            sync_state: SyncState::Synced,
            version,
            is_deleted: v.is_deleted,
            last_modified: self.cx.server_ms,
        };
        let announce = Some(ConfigBroadcast { device_uuid: device, item });
        let row = ConfigStore {
            id: new_id,
            device_uuid: device,
            version,
            is_deleted: v.is_deleted,
            last_modified: self.cx.server_ms,
            client_last_modified: v.last_modified,
            key: v.key,
            value: v.value,
        };
        let action = match target.existing {
            Some(existing) => if existing.id != new_id {
                let first = self.flush();
                ConfigAction::Rename { first, rename: ConfigRename { from: existing.id, row } }
            } else {
                self.join(ConfigWrite::Update { row, old_key: existing.key })
            },
            None => self.join(ConfigWrite::Insert(row)),
        };
        self.report(e, version, new_id);
        self.turn();
        Ok(ConfigStep { action, announce })
    }

    fn open_entry(&mut self) -> (r: Result<ConfigStep, AppError>)
        requires
            old(self).wf(),
        ensures
            final(self).wf(),
            final(self).same_task(*old(self)),
            steps_to(
                r,
                final(self)@,
                opened(
                    old(self).context(),
                    old(self).entries(),
                    old(self).registered(),
                    old(self)@,
                ),
            ),
    {
        if self.at >= self.entries.len() {
            if self.run.is_empty() {
                return Ok(ConfigStep { action: ConfigAction::Done, announce: None });
            }
            let run = self.flush();
            return Ok(ConfigStep { action: ConfigAction::Issue(run), announce: None });
        }
        let e = self.entries[self.at].copy();
        if self.run.holds(id_token_text(e.id).as_str()) {
            let run = self.flush();
            return Ok(ConfigStep { action: ConfigAction::Issue(run), announce: None });
        }
        match &e.act {
            ConfigAct::Skip => {
                self.turn();
                return Ok(ConfigStep { action: ConfigAction::Continue, announce: None });
            },
            ConfigAct::Reject(reason) => {
                return Err(payload_refusal("config", e.name.as_str(), reason.as_str()));
            },
            ConfigAct::Copy => {
                if self.batch.id_is_fresh(e.id) {
                    let row = self.batch.row_for(self.cx.user_id, e.id, self.cx.filter);
                    return Ok(self.copy_back(&e, row));
                }
                self.enter(ConfigPhase::Copying);
                return Ok(ConfigStep { action: ConfigAction::Continue, announce: None });
            },
            _ => {},
        }
        match resolve_item_device_cached(
            self.cx.rule,
            e.device,
            "Config",
            e.name.as_str(),
            &self.registered,
        ) {
            Err(refusal) => Err(refusal),
            Ok(ItemDevice::Known(device)) => {
                self.enter(ConfigPhase::Placed(device));
                Ok(ConfigStep { action: ConfigAction::Continue, announce: None })
            },
            Ok(ItemDevice::Ensure(device)) => {
                self.enter(ConfigPhase::Placed(device));
                Ok(ConfigStep { action: ConfigAction::Ensure(device), announce: None })
            },
            Ok(ItemDevice::Require(device)) => {
                self.enter(ConfigPhase::Placed(device));
                Ok(ConfigStep { action: ConfigAction::Require(device), announce: None })
            },
        }
    }

    fn place_entry(&mut self, device: Uuid, fresh: Uuid) -> (r: Result<ConfigStep, AppError>)
        requires
            old(self).wf(),
            old(self)@.at < old(self).entries().len(),
        ensures
            final(self).wf(),
            final(self).same_task(*old(self)),
            steps_to(
                r,
                final(self)@,
                placed(old(self).context(), old(self).entries(), old(self)@, device, fresh),
            ),
    {
        let e = self.entries[self.at].copy();
        let key: Option<String> = match &e.act {
            ConfigAct::Store(v) => Some(v.key.clone()),
            ConfigAct::Remove(key) => crate::text::copy_opt(key),
            _ => None,
        };
        assert(key == gate(e.act));
        if let Some(key) = &key {
            if self.run.holds(key_token_text(device, key.as_str()).as_str()) {
                let run = self.flush();
                return Ok(ConfigStep { action: ConfigAction::Issue(run), announce: None });
            }
        }
        match &e.act {
            ConfigAct::Store(v) => {
                if self.batch.target_is_fresh(e.id, device, v.key.as_str()) {
                    let facts = self.batch.facts_for(
                        self.cx.user_id,
                        device,
                        e.id,
                        v.key.as_str(),
                    );
                    return self.write_config(&e, v.copy(), device, facts, fresh);
                }
                self.enter(ConfigPhase::Resolving(device));
            },
            ConfigAct::Remove(_) => {
                if self.batch.id_is_fresh(e.id) {
                    let row = self.batch.row_for(self.cx.user_id, e.id, Some(device));
                    return self.remove(&e, device, row);
                }
                self.enter(ConfigPhase::Removing(device));
            },
            _ => {
                self.enter(ConfigPhase::Open);
            },
        }
        Ok(ConfigStep { action: ConfigAction::Continue, announce: None })
    }

    /// One step of the upload, given what came back and the id a new row may take. A refusal
    /// ends the upload.
    pub fn advance_with(&mut self, event: ConfigEvent, fresh: Uuid) -> (r: Result<
        ConfigStep,
        AppError,
    >)
        requires
            old(self).wf(),
        ensures
            final(self).wf(),
            final(self).same_task(*old(self)),
            steps_to(
                r,
                final(self)@,
                step(
                    old(self).context(),
                    old(self).entries(),
                    old(self).registered(),
                    old(self)@,
                    event,
                    fresh,
                ),
            ),
    {
        if self.at >= self.entries.len() {
            return self.open_entry();
        }
        match self.phase {
            ConfigPhase::Open => self.open_entry(),
            ConfigPhase::Placed(device) => self.place_entry(device, fresh),
            ConfigPhase::Copying => {
                let e = self.entries[self.at].copy();
                match event {
                    ConfigEvent::Row(row) => Ok(self.copy_back(&e, row)),
                    _ => Ok(
                        ConfigStep {
                            action: ConfigAction::ReadRow { id: e.id, device: self.cx.filter },
                            announce: None,
                        },
                    ),
                }
            },
            ConfigPhase::Removing(device) => {
                let e = self.entries[self.at].copy();
                match event {
                    ConfigEvent::Row(row) => self.remove(&e, device, row),
                    _ => Ok(
                        ConfigStep {
                            action: ConfigAction::ReadRow { id: e.id, device: Some(device) },
                            announce: None,
                        },
                    ),
                }
            },
            ConfigPhase::Resolving(device) => {
                let e = self.entries[self.at].copy();
                match &e.act {
                    ConfigAct::Store(v) => match event {
                        ConfigEvent::Facts(facts) => {
                            self.write_config(&e, v.copy(), device, facts, fresh)
                        },
                        _ => Ok(
                            ConfigStep {
                                action: ConfigAction::ReadTarget {
                                    submitted: e.id,
                                    on: device,
                                    key: v.key.clone(),
                                },
                                announce: None,
                            },
                        ),
                    },
                    _ => {
                        self.enter(ConfigPhase::Open);
                        Ok(ConfigStep { action: ConfigAction::Continue, announce: None })
                    },
                }
            },
        }
    }

    /// One step of the upload, given what came back. A new row whose id is held elsewhere
    /// takes a random one.
    pub fn advance(&mut self, event: ConfigEvent) -> (r: Result<ConfigStep, AppError>)
        requires
            old(self).wf(),
        ensures
            final(self).wf(),
            final(self).same_task(*old(self)),
            exists|fresh: Uuid| #[trigger]
                is_random_form(fresh.bits) && steps_to(
                    r,
                    final(self)@,
                    step(
                        old(self).context(),
                        old(self).entries(),
                        old(self).registered(),
                        old(self)@,
                        event,
                        fresh,
                    ),
                ),
    {
        let fresh = fresh_uuid();
        self.advance_with(event, fresh)
    }

    /// What the upload came to.
    pub fn finish(self) -> (o: ConfigOutcome)
        ensures
            texts(o.success_ids@) == self@.acked,
            status_views(o.upload_status@) == self@.reported,
            remote_views(o.remote_changes@) == self@.sent,
            o.landed@ == self@.landed,
    {
        ConfigOutcome {
            success_ids: self.success_ids,
            upload_status: self.upload_status,
            remote_changes: self.remote_changes,
            landed: self.landed,
        }
    }
}

/// The progress of an upload that has not begun.
pub open spec fn at_the_start(cache: crate::sync::config::cache::CacheView) -> Progress {
    Progress {
        at: 0,
        phase: ConfigPhase::Open,
        run: seq![],
        cache,
        acked: seq![],
        reported: seq![],
        sent: seq![],
        landed: seq![],
    }
}

/// The upload of a list of config changes.
pub fn process_config_changes(
    cx: ConfigContext,
    changes: &Vec<ConfigChangeDelta>,
    registered: RegisteredDevices,
    batch: ConfigBatch,
) -> (u: ConfigUpload)
    ensures
        u.wf(),
        u.context() == cx,
        u.registered() == registered@,
        u.entries() == changes@.map_values(|c: ConfigChangeDelta| entry_of_change(c)),
        u@ == at_the_start(batch@),
{
    let mut entries: Vec<ConfigEntry> = Vec::new();
    let mut i: usize = 0;
    while i < changes.len()
        invariant
            i <= changes.len(),
            entries@ == changes@.take(i as int).map_values(
                |c: ConfigChangeDelta| entry_of_change(c),
            ),
        decreases changes.len() - i,
    {
        entries.push(change_entry(&changes[i]));
        proof {
            assert(entries@ =~= changes@.take(i + 1).map_values(
                |c: ConfigChangeDelta| entry_of_change(c),
            ));
        }
        i = i + 1;
    }
    assert(changes@.take(i as int) =~= changes@);
    ConfigUpload::begin(cx, entries, registered, batch)
}

/// The upload of the flat list of configs.
pub fn process_config_sync_items(
    cx: ConfigContext,
    items: &Vec<ConfigSyncItem>,
    registered: RegisteredDevices,
    batch: ConfigBatch,
) -> (u: ConfigUpload)
    ensures
        u.wf(),
        u.context() == cx,
        u.registered() == registered@,
        u.entries().len() == items@.len(),
        forall|i: int|
            0 <= i < items@.len() ==> is_entry_of_item(#[trigger] u.entries()[i], items@[i]),
        u@ == at_the_start(batch@),
{
    let mut entries: Vec<ConfigEntry> = Vec::new();
    let mut i: usize = 0;
    while i < items.len()
        invariant
            i <= items.len(),
            entries@.len() == i,
            forall|k: int| 0 <= k < i ==> is_entry_of_item(#[trigger] entries@[k], items@[k]),
        decreases items.len() - i,
    {
        entries.push(item_entry(&items[i]));
        i = i + 1;
    }
    ConfigUpload::begin(cx, entries, registered, batch)
}

/// Whether an upload can be in the phase it is in: nothing buffered touches the row, or the
/// key, that the phase is about to read.
pub open spec fn steady(entries: Seq<ConfigEntry>, p: Progress) -> bool {
    &&& 0 <= p.at <= entries.len()
    &&& p.run.len() == 0 || is_one_statement(p.run)
    &&& p.phase != ConfigPhase::Open ==> p.at < entries.len() && !p.held(
        id_token(entries[p.at].id),
    )
    &&& match p.phase {
        ConfigPhase::Open => true,
        ConfigPhase::Copying => entries[p.at].act is Copy,
        ConfigPhase::Placed(_) => entries[p.at].act is Store || entries[p.at].act is Remove,
        ConfigPhase::Resolving(device) => entries[p.at].act matches ConfigAct::Store(v) && !p.held(
            key_token(device, v.key@),
        ),
        ConfigPhase::Removing(_) => entries[p.at].act is Remove,
    }
}

/// The writes a step hands out, in order, leaving out a rename.
pub open spec fn handed_out(action: ActionView) -> Seq<ConfigWrite> {
    match action {
        ActionView::Issue(run) => run,
        ActionView::Rename { first, .. } => first,
        _ => seq![],
    }
}

proof fn nothing_is_held(p: Progress, token: Seq<char>)
    ensures
        !p.flushed().held(token),
{
}

/// An upload begins steady and every step keeps it so.
pub proof fn every_step_keeps_an_upload_steady(
    cx: ConfigContext,
    entries: Seq<ConfigEntry>,
    registered: Set<u128>,
    p: Progress,
    event: ConfigEvent,
    fresh: Uuid,
)
    requires
        steady(entries, p),
    ensures
        step(cx, entries, registered, p, event, fresh) matches StepView::Taken { next, .. }
            ==> steady(entries, next),
        forall|cache: crate::sync::config::cache::CacheView|
            steady(entries, #[trigger] at_the_start(cache)),
{
    if let StepView::Taken { next, .. } = step(cx, entries, registered, p, event, fresh) {
        if p.at < entries.len() {
            nothing_is_held(p, id_token(entries[p.at].id));
        }
        if next.run.len() > 0 && next.run != p.run {
            let w = next.run.last();
            if next.run.len() == 1 {
                assert(next.run =~= seq![w]);
            } else {
                assert(next.run =~= p.run.push(w));
                longer_run_is_one_statement(p.run, w);
            }
        }
    }
}

/// A lookup never misses a buffered write: when a step asks for a row or for a key, nothing
/// that is buffered touches it.
pub proof fn a_read_follows_every_write_to_its_row(
    cx: ConfigContext,
    entries: Seq<ConfigEntry>,
    registered: Set<u128>,
    p: Progress,
    event: ConfigEvent,
    fresh: Uuid,
)
    requires
        steady(entries, p),
    ensures
        match step(cx, entries, registered, p, event, fresh) {
            StepView::Taken { next, action: ActionView::ReadRow { id, .. }, .. } => !next.held(
                id_token(id),
            ),
            StepView::Taken { next, action: ActionView::ReadTarget { submitted, on, key }, .. } => {
                !next.held(id_token(submitted)) && !next.held(key_token(on, key@))
            },
            _ => true,
        },
{
}

/// Every statement an upload issues holds writes of one kind to distinct rows, and no
/// buffered write is lost or moved ahead of another: what a step hands out, followed by what
/// it keeps, is what was buffered before, and at most one write more.
pub proof fn no_buffered_write_is_lost(
    cx: ConfigContext,
    entries: Seq<ConfigEntry>,
    registered: Set<u128>,
    p: Progress,
    event: ConfigEvent,
    fresh: Uuid,
)
    requires
        steady(entries, p),
    ensures
        step(cx, entries, registered, p, event, fresh) matches StepView::Taken {
            next,
            action,
            ..
        } ==> {
            let all = handed_out(action) + next.run;
            &&& handed_out(action).len() == 0 || is_one_statement(handed_out(action))
            &&& p.run.len() <= all.len() <= p.run.len() + 1
            &&& all.take(p.run.len() as int) == p.run
            &&& action is Done ==> next.run.len() == 0 && next.at == entries.len()
        },
{
    if let StepView::Taken { next, action, .. } = step(cx, entries, registered, p, event, fresh) {
        let all = handed_out(action) + next.run;
        assert(all.take(p.run.len() as int) =~= p.run);
    }
}

/// Whether what came back answers what the phase asked for.
pub open spec fn answers(phase: ConfigPhase, event: ConfigEvent) -> bool {
    match phase {
        ConfigPhase::Copying => event is Row,
        ConfigPhase::Removing(_) => event is Row,
        ConfigPhase::Resolving(_) => event is Facts,
        _ => true,
    }
}

/// How much an upload has left to do.
pub open spec fn work_left(entries: Seq<ConfigEntry>, p: Progress) -> int {
    10 * (entries.len() - p.at) + 2 * (match p.phase {
        ConfigPhase::Open => 4int,
        ConfigPhase::Placed(_) => 2,
        _ => 1,
    }) + if p.run.len() > 0 {
        1int
    } else {
        0
    }
}

/// An upload comes to an end: a step that is answered leaves less to do, or is the last.
pub proof fn an_answered_step_makes_progress(
    cx: ConfigContext,
    entries: Seq<ConfigEntry>,
    registered: Set<u128>,
    p: Progress,
    event: ConfigEvent,
    fresh: Uuid,
)
    requires
        steady(entries, p),
        answers(p.phase, event),
    ensures
        0 <= work_left(entries, p),
        step(cx, entries, registered, p, event, fresh) matches StepView::Taken {
            next,
            action,
            ..
        } ==> action is Done || work_left(entries, next) < work_left(entries, p),
{
}

/// Whether what came back is what the table says.
pub open spec fn truthful(
    cx: ConfigContext,
    entries: Seq<ConfigEntry>,
    p: Progress,
    event: ConfigEvent,
    t: Map<u128, CachedConfig>,
) -> bool {
    let e = entries[p.at];
    match (p.phase, event) {
        (ConfigPhase::Copying, ConfigEvent::Row(row)) => row == table_row(
            t,
            cx.user_id,
            e.id,
            cx.filter,
        ),
        (ConfigPhase::Removing(device), ConfigEvent::Row(row)) => row == table_row(
            t,
            cx.user_id,
            e.id,
            Some(device),
        ),
        (ConfigPhase::Resolving(device), ConfigEvent::Facts(facts)) => e.act matches ConfigAct::Store(
            v,
        ) ==> facts == table_facts(t, cx.user_id, device, e.id, v.key@),
        _ => true,
    }
}

/// The config a step stores, on which device, and what it took the table to say.
pub open spec fn storing(
    cx: ConfigContext,
    entries: Seq<ConfigEntry>,
    p: Progress,
    event: ConfigEvent,
) -> Option<(Uuid, ConfigValue, TargetFacts)> {
    let e = entries[p.at];
    match (p.phase, e.act) {
        (ConfigPhase::Placed(device), ConfigAct::Store(v)) => if !p.held(
            key_token(device, v.key@),
        ) && p.cache.target_fresh(e.id, device, v.key@) {
            Some((device, v, p.cache.facts(cx.user_id, device, e.id, v.key@)))
        } else {
            None
        },
        (ConfigPhase::Resolving(device), ConfigAct::Store(v)) => match event {
            ConfigEvent::Facts(facts) => Some((device, v, facts)),
            _ => None,
        },
        _ => None,
    }
}

/// A stored config lands where the table says it does, collides with no other row, and
/// leaves the cache true of the table with it in. `row` is the row as the write leaves it.
pub proof fn a_stored_config_collides_with_nothing(
    cx: ConfigContext,
    entries: Seq<ConfigEntry>,
    registered: Set<u128>,
    p: Progress,
    event: ConfigEvent,
    fresh: Uuid,
    t: Map<u128, CachedConfig>,
    row: CachedConfig,
)
    requires
        0 <= p.at < entries.len(),
        table_ok(t),
        agrees(p.cache, t, cx.user_id),
        truthful(cx, entries, p, event, t),
        !t.contains_key(fresh.bits),
        step(cx, entries, registered, p, event, fresh) is Taken,
        storing(cx, entries, p, event) matches Some((device, v, facts)) && row.user_id
            == cx.user_id && row.device_uuid == device && row.key == v.key && row.id == target_of(
            facts,
            entries[p.at].id,
            fresh,
        ).new_id,
    ensures
        ({
            let (device, v, facts) = storing(cx, entries, p, event)->Some_0;
            let target = target_of(facts, entries[p.at].id, fresh);
            &&& facts == table_facts(t, cx.user_id, device, entries[p.at].id, v.key@)
            &&& t.contains_key(target.new_id.bits) ==> (target.existing matches Some(e) && e.id
                == target.new_id)
            &&& table_ok(after_write(t, target, row))
            &&& step(cx, entries, registered, p, event, fresh) matches StepView::Taken {
                next,
                ..
            } && agrees(next.cache, after_write(t, target, row), cx.user_id)
        }),
{
    let (device, v, facts) = storing(cx, entries, p, event)->Some_0;
    let e = entries[p.at];
    a_fresh_answer_is_the_tables(p.cache, t, cx.user_id, device, e.id, v.key@);
    assert(facts == table_facts(t, cx.user_id, device, e.id, v.key@));
    a_resolved_write_collides_with_nothing(t, cx.user_id, device, e.id, fresh, row);
    a_noted_write_keeps_the_cache_true(p.cache, t, cx.user_id, device, e.id, fresh, row);
}

} // verus!
