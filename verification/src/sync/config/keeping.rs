//! What becomes of an uploaded config: it is stored as it was sent, announced as it was stored,
//! and sent back as it stands.

use crate::ids::{hyphenated, uuid_of, Uuid};
use crate::instant::Instant;
use crate::sync::batching::BatchWrite;
use crate::sync::config::cache::{
    asked, id_token, key_token, resolve_config_target, target_facts, tokens_are_distinct, CacheView,
    CachedConfig, ConfigBatch, ConfigTarget, ExistingConfig, TargetFacts,
};
use crate::sync::config::download::{
    announce_deletions, config_change, config_changes, config_item, config_items,
    deletion_announced, fetch_config_download, lookups_of_changes, lookups_of_items, shown_device,
    shown_key, ConfigDownload, ConfigLookups,
};
use crate::sync::config::processor::{process_config_changes, process_config_sync_items, ConfigUpload};
use crate::sync::config::upload::{
    entry_of_change, is_entry_of_item, step, ActionView, ConfigAct, ConfigBroadcast, ConfigContext,
    ConfigEntry, ConfigEvent, ConfigPhase, ConfigStore, ConfigValue, ConfigWrite, Progress,
    StepView, StoredConfig,
};
use crate::sync::device::{ItemDeviceRule, RegisteredDevices};
use crate::sync::download::{answers, cut_page, DownloadPage, DownloadQuery};
use crate::sync::request::{ConfigChangeDelta, ConfigSyncItem};
use crate::sync::types::{remote_views, OperationType, Payload};
use crate::text::texts;
use vstd::prelude::*;

verus! {

/// The row a step that stores a config writes: the one it renames, or else the last of those
/// it leaves buffered.
pub open spec fn row_written(next: Progress, action: ActionView) -> Option<ConfigStore> {
    match action {
        ActionView::Rename { rename, .. } => Some(rename.row),
        _ => if next.run.len() == 0 {
            None
        } else {
            match next.run.last() {
                ConfigWrite::Insert(row) => Some(row),
                ConfigWrite::Update { row, .. } => Some(row),
                ConfigWrite::Delete { .. } => None,
            }
        },
    }
}

/// Whether a row holds a config as an entry asks for it.
pub open spec fn keeps(row: ConfigStore, v: ConfigValue) -> bool {
    &&& row.key == v.key
    &&& row.value == v.value
    &&& row.is_deleted == v.is_deleted
    &&& row.client_last_modified == v.last_modified
}

/// Whether the streams hear of a row what it holds.
pub open spec fn tells(b: ConfigBroadcast, row: ConfigStore) -> bool {
    &&& b.device_uuid == row.device_uuid
    &&& b.item.id == row.id
    &&& b.item.device_uuid == Some(row.device_uuid)
    &&& b.item.key == row.key
    &&& b.item.value == row.value
    &&& b.item.version == row.version
    &&& b.item.is_deleted == row.is_deleted
    &&& b.item.last_modified == row.last_modified
    &&& b.item.sync_state is Synced
}

/// A config is stored as its entry asks, and announced as it is stored: the row a step inserts,
/// updates or renames has the entry's own key, value and deletion, stands on the device the
/// entry was placed on at the server's clock reading, and is what the streams hear. It goes by
/// the entry's id unless another row holds that; then a row that is there keeps its own, and a
/// new one takes the fresh id. A row that is there moves one version on and a new one starts at
/// the client's number. The entry is acknowledged and reported at that version.
pub proof fn a_config_is_stored_as_its_entry_asks(
    cx: ConfigContext,
    entries: Seq<ConfigEntry>,
    registered: Set<u128>,
    p: Progress,
    event: ConfigEvent,
    fresh: Uuid,
)
    requires
        0 <= p.at < entries.len(),
    ensures
        step(cx, entries, registered, p, event, fresh) matches StepView::Taken {
            next,
            action,
            announce: Some(b),
        } ==> {
            let e = entries[p.at];
            &&& e.act matches ConfigAct::Store(v) && (row_written(next, action) matches Some(row)
                && {
                &&& keeps(row, v)
                &&& tells(b, row)
                &&& row.last_modified == cx.server_ms
                &&& p.phase == ConfigPhase::Placed(row.device_uuid) || p.phase
                    == ConfigPhase::Resolving(row.device_uuid)
                &&& next.reported.last().version == row.version
                &&& next.landed == (if row.id == e.id {
                    p.landed.push(e.id)
                } else {
                    p.landed.push(e.id).push(row.id)
                })
            })
            &&& next.at == p.at + 1
            &&& next.phase is Open
            &&& next.sent == p.sent
            &&& next.acked == p.acked.push(e.name@)
            &&& next.reported.len() == p.reported.len() + 1
            &&& next.reported.take(p.reported.len() as int) == p.reported
            &&& next.reported.last().id == e.name@
            &&& next.reported.last().sync_state is Synced
        },
{
    if let StepView::Taken { next, action, announce: Some(b) } = step(
        cx,
        entries,
        registered,
        p,
        event,
        fresh,
    ) {
        assert(next.reported.take(p.reported.len() as int) =~= p.reported);
    }
}

/// Where a config lands, given what the table says: over the row that is there, which keeps its
/// place where it keeps its id and is renamed alone otherwise, or as a new row.
pub proof fn a_config_lands_where_the_table_says(
    cx: ConfigContext,
    entries: Seq<ConfigEntry>,
    registered: Set<u128>,
    p: Progress,
    facts: TargetFacts,
    fresh: Uuid,
    device: Uuid,
    v: ConfigValue,
)
    requires
        0 <= p.at < entries.len(),
        p.phase == ConfigPhase::Resolving(device),
        entries[p.at].act == ConfigAct::Store(v),
    ensures
        ({
            let e = entries[p.at];
            match step(cx, entries, registered, p, ConfigEvent::Facts(facts), fresh) {
                StepView::Refused(refusal) => refusal is BadRequest && match facts.existing {
                    Some(row) => row.version == i32::MAX,
                    None => v.version < 0 || v.version > cx.bounds.max_seed,
                },
                StepView::Taken { next, action, announce } => {
                    &&& announce is Some
                    &&& row_written(next, action) matches Some(row) && {
                        &&& row.id == (if !facts.id_taken {
                            e.id
                        } else if facts.existing is Some {
                            facts.existing->0.id
                        } else {
                            fresh
                        })
                        &&& match facts.existing {
                            Some(there) => {
                                &&& row.version == there.version + 1
                                &&& if there.id == row.id {
                                    next.run.last() == (ConfigWrite::Update {
                                        row,
                                        old_key: there.key,
                                    })
                                } else {
                                    action matches ActionView::Rename { first, rename } && first
                                        == p.run && rename.from == there.id && next.run.len() == 0
                                }
                            },
                            None => row.version == v.version && 0 <= v.version && v.version
                                <= cx.bounds.max_seed && next.run.last() == ConfigWrite::Insert(row),
                        }
                    }
                },
            }
        }),
{
}

/// What the cache says of where a config lands: over the row under its key of its device, and
/// where there is none, over the account's row of the device under its id.
pub proof fn a_cached_target_is_found_by_key_and_then_by_id(
    cache: CacheView,
    user: Uuid,
    device: Uuid,
    id: Uuid,
    key: Seq<char>,
)
    ensures
        ({
            let facts = cache.facts(user, device, id, key);
            let token = key_token(device, key);
            let by_key = cache.keys.contains_key(token) && cache.rows.contains_key(
                cache.keys[token].bits,
            );
            let by_id = cache.rows.contains_key(id.bits) && cache.rows[id.bits].user_id == user
                && cache.rows[id.bits].device_uuid == device;
            &&& facts.id_taken <==> cache.taken.contains(id.bits)
            &&& facts.existing is Some <==> by_key || by_id
            &&& facts.existing matches Some(there) ==> {
                let row = if by_key {
                    cache.rows[cache.keys[token].bits]
                } else {
                    cache.rows[id.bits]
                };
                there.id == row.id && there.version == row.version && there.key == row.key
            }
        }),
{
}

/// A step that announces nothing stores no config: it leaves what is buffered as it was, hands
/// it out, or adds the deletion of the entry's own row, one version on.
pub proof fn nothing_is_stored_unannounced(
    cx: ConfigContext,
    entries: Seq<ConfigEntry>,
    registered: Set<u128>,
    p: Progress,
    event: ConfigEvent,
    fresh: Uuid,
)
    requires
        0 <= p.at < entries.len(),
    ensures
        step(cx, entries, registered, p, event, fresh) matches StepView::Taken {
            next,
            action,
            announce: None,
        } ==> {
            &&& !(action is Rename)
            &&& action matches ActionView::Issue(run) ==> run == p.run
            &&& {
                ||| next.run == p.run
                ||| next.run.len() == 0 && action == ActionView::Issue(p.run)
                ||| {
                    let e = entries[p.at];
                    &&& e.act is Remove || p.phase is Removing
                    &&& next.run == p.run.push(next.run.last()) || (next.run == seq![
                        next.run.last(),
                    ] && action == ActionView::Issue(p.run))
                    &&& match next.run.last() {
                        ConfigWrite::Delete { id, device_uuid, version, last_modified, .. } => {
                            &&& id == e.id
                            &&& p.phase == ConfigPhase::Placed(device_uuid) || p.phase
                                == ConfigPhase::Removing(device_uuid)
                            &&& last_modified == cx.server_ms
                            &&& next.reported.last().version == version
                            &&& next.reported.last().id == e.name@
                        },
                        _ => false,
                    }
                }
            }
        },
{
    if let StepView::Taken { next, action, announce: None } = step(
        cx,
        entries,
        registered,
        p,
        event,
        fresh,
    ) {
        if next.run.len() > 0 {
            let w = next.run.last();
            if next.run != p.run {
                assert(next.run =~= p.run.push(w) || next.run =~= seq![w]);
            }
        }
    }
}

/// A row that is asked for and answered settles its entry. A deletion marks the account's row of
/// the device under the entry's id deleted, one version on; where there is none it is
/// acknowledged at the first version. A copy is sent back as the row stands, or not at all where
/// there is none.
pub proof fn an_answered_config_is_settled(
    cx: ConfigContext,
    entries: Seq<ConfigEntry>,
    registered: Set<u128>,
    p: Progress,
    row: Option<CachedConfig>,
    fresh: Uuid,
)
    requires
        0 <= p.at < entries.len(),
        p.phase is Copying || p.phase is Removing,
    ensures
        ({
            let e = entries[p.at];
            match step(cx, entries, registered, p, ConfigEvent::Row(row), fresh) {
                StepView::Refused(refusal) => refusal is BadRequest && p.phase is Removing && (
                row matches Some(row) && row.version == i32::MAX),
                StepView::Taken { next, action, announce } => {
                    &&& announce is None
                    &&& next.at == p.at + 1
                    &&& next.phase is Open
                    &&& match (p.phase, row) {
                        (ConfigPhase::Copying, Some(row)) => {
                            &&& action is Continue
                            &&& next.run == p.run
                            &&& next.acked == p.acked.push(e.name@)
                            &&& next.reported == p.reported
                            &&& next.landed == p.landed
                            &&& next.sent.len() == p.sent.len() + 1
                            &&& next.sent.take(p.sent.len() as int) == p.sent
                            &&& {
                                let sent = next.sent.last();
                                &&& sent.id == e.name@
                                &&& sent.operation_type == OperationType::Update
                                &&& sent.version == row.version
                                &&& shows_config(sent.data, row)
                            }
                        },
                        (ConfigPhase::Copying, None) => action is Continue && next.run == p.run
                            && next.acked == p.acked && next.reported == p.reported && next.landed
                            == p.landed && next.sent == p.sent,
                        (_, row) => {
                            &&& next.acked == p.acked.push(e.name@)
                            &&& next.landed == p.landed.push(e.id)
                            &&& next.sent == p.sent
                            &&& next.reported.len() == p.reported.len() + 1
                            &&& next.reported.take(p.reported.len() as int) == p.reported
                            &&& next.reported.last().id == e.name@
                            &&& next.reported.last().sync_state is Synced
                            &&& match row {
                                Some(row) => {
                                    &&& next.reported.last().version == row.version + 1
                                    &&& next.run.len() > 0
                                    &&& next.run.last() == (ConfigWrite::Delete {
                                        id: e.id,
                                        device_uuid: p.phase->Removing_0,
                                        version: (row.version + 1) as i32,
                                        last_modified: cx.server_ms,
                                        key: row.key,
                                    })
                                },
                                None => next.reported.last().version == 1 && next.run == p.run
                                    && action is Continue,
                            }
                        },
                    }
                },
            }
        }),
{
    if let StepView::Taken { next, action, announce } = step(
        cx,
        entries,
        registered,
        p,
        ConfigEvent::Row(row),
        fresh,
    ) {
        assert(next.sent.len() > p.sent.len() ==> next.sent.take(p.sent.len() as int) =~= p.sent);
        assert(next.reported.len() > p.reported.len() ==> next.reported.take(
            p.reported.len() as int,
        ) =~= p.reported);
    }
}

/// An entry that is looked at for the first time, with nothing buffered, is placed on a device
/// before it is stored or removed: on the one it names, which is ensured or has to be registered
/// where it is not the request's own, or on the request's own. A copy is answered from the cache
/// where the cache is true of its id, and read otherwise.
pub proof fn an_opened_config_is_placed(
    cx: ConfigContext,
    entries: Seq<ConfigEntry>,
    registered: Set<u128>,
    p: Progress,
    event: ConfigEvent,
    fresh: Uuid,
)
    requires
        0 <= p.at < entries.len(),
        p.phase is Open,
        p.run.len() == 0,
    ensures
        ({
            let e = entries[p.at];
            match step(cx, entries, registered, p, event, fresh) {
                StepView::Refused(refusal) => refusal is BadRequest && match e.act {
                    ConfigAct::Reject(_) => true,
                    ConfigAct::Store(_) => cx.rule is RowMustName && e.device is None,
                    ConfigAct::Remove(_) => cx.rule is RowMustName && e.device is None,
                    _ => false,
                },
                StepView::Taken { next, action, announce } => {
                    &&& announce is None
                    &&& next.run.len() == 0
                    &&& next.reported == p.reported
                    &&& next.landed == p.landed
                    &&& match e.act {
                        ConfigAct::Skip => next == (Progress { at: p.at + 1, ..p }) && action
                            is Continue,
                        ConfigAct::Reject(_) => false,
                        ConfigAct::Copy => action is Continue && if p.cache.asked_ids.contains(
                            e.id.bits,
                        ) && !p.cache.stale_ids.contains(e.id.bits) {
                            next.at == p.at + 1 && next.phase is Open
                        } else {
                            next == (Progress { phase: ConfigPhase::Copying, ..p })
                        },
                        _ => match (cx.rule, e.device) {
                            (ItemDeviceRule::RequestDevice(own), None) => next == (Progress {
                                phase: ConfigPhase::Placed(own),
                                ..p
                            }) && action is Continue,
                            (ItemDeviceRule::RequestDevice(own), Some(device)) => next == (Progress {
                                phase: ConfigPhase::Placed(device),
                                ..p
                            }) && action == (if device == own {
                                ActionView::Continue
                            } else {
                                ActionView::Ensure(device)
                            }),
                            (ItemDeviceRule::RowMustName, Some(device)) => next == (Progress {
                                phase: ConfigPhase::Placed(device),
                                ..p
                            }) && action == (if registered.contains(device.bits) {
                                ActionView::Continue
                            } else {
                                ActionView::Require(device)
                            }),
                            (ItemDeviceRule::RowMustName, None) => false,
                        },
                    }
                },
            }
        }),
{
    if p.held(id_token(entries[p.at].id)) {
        assert(false);
    }
}

/// An entry that is placed, with nothing buffered, asks the table only where the cache cannot be
/// trusted: a config to store for what is under its id and its key of its device, and a removal
/// for the row of the device under its id.
pub proof fn a_placed_config_asks_for_what_the_cache_cannot_say(
    cx: ConfigContext,
    entries: Seq<ConfigEntry>,
    registered: Set<u128>,
    p: Progress,
    device: Uuid,
    fresh: Uuid,
)
    requires
        0 <= p.at < entries.len(),
        p.phase == ConfigPhase::Placed(device),
        p.run.len() == 0,
    ensures
        ({
            let e = entries[p.at];
            let next = step(cx, entries, registered, p, ConfigEvent::Go, fresh);
            let id_true = p.cache.asked_ids.contains(e.id.bits) && !p.cache.stale_ids.contains(
                e.id.bits,
            );
            match e.act {
                ConfigAct::Store(v) => {
                    let key_true = p.cache.asked_keys.contains(v.key@)
                        && !p.cache.stale_keys.contains(key_token(device, v.key@));
                    if id_true && key_true {
                        next == step(
                            cx,
                            entries,
                            registered,
                            Progress { phase: ConfigPhase::Resolving(device), ..p },
                            ConfigEvent::Facts(p.cache.facts(cx.user_id, device, e.id, v.key@)),
                            fresh,
                        )
                    } else {
                        next matches StepView::Taken { next: q, action, .. } && action is Continue
                            && q == (Progress { phase: ConfigPhase::Resolving(device), ..p })
                            && step(cx, entries, registered, q, ConfigEvent::Go, fresh)
                            == (StepView::Taken {
                            next: q,
                            action: ActionView::ReadTarget {
                                submitted: e.id,
                                on: device,
                                key: v.key,
                            },
                            announce: None,
                        })
                    }
                },
                ConfigAct::Remove(_) => if id_true {
                    next == step(
                        cx,
                        entries,
                        registered,
                        Progress { phase: ConfigPhase::Removing(device), ..p },
                        ConfigEvent::Row(
                            if p.cache.rows.contains_key(e.id.bits)
                                && p.cache.rows[e.id.bits].user_id == cx.user_id
                                && p.cache.rows[e.id.bits].device_uuid == device {
                                Some(p.cache.rows[e.id.bits])
                            } else {
                                None
                            },
                        ),
                        fresh,
                    )
                } else {
                    next matches StepView::Taken { next: q, action, .. } && action is Continue && q
                        == (Progress { phase: ConfigPhase::Removing(device), ..p }) && step(
                        cx,
                        entries,
                        registered,
                        q,
                        ConfigEvent::Go,
                        fresh,
                    ) == (StepView::Taken {
                        next: q,
                        action: ActionView::ReadRow { id: e.id, device: Some(device) },
                        announce: None,
                    })
                },
                _ => true,
            }
        }),
{
}

/// An item of the flat list asks to be stored as it is: one that asks for no deletion becomes a
/// config with its own key and value that is not deleted, and one that asks for deletion, by its
/// flag or by its state, becomes the removal of its row and never a stored config.
pub proof fn an_item_asks_for_what_it_says(e: ConfigEntry, item: ConfigSyncItem)
    requires
        is_entry_of_item(e, item),
    ensures
        e.id == item.id,
        e.name@ == hyphenated(item.id.bits),
        e.device == item.device_uuid,
        match e.act {
            ConfigAct::Store(v) => {
                &&& !item.is_deleted && !(item.sync_state is PendingDelete)
                &&& v.key == item.key
                &&& v.value == item.value
                &&& v.version == item.version
                &&& v.last_modified == item.last_modified
                &&& !v.is_deleted
            },
            ConfigAct::Remove(key) => key == Some(item.key) && (item.is_deleted
                || item.sync_state is PendingDelete),
            _ => false,
        },
{
}

/// A change asks for what it says: a delete for the removal of its row, an update without a
/// document for the server's copy, and a change with a readable document for that document to be
/// stored. An insert without one is passed over, and an unreadable one is refused.
pub proof fn a_change_asks_for_what_it_says(change: ConfigChangeDelta)
    ensures
        ({
            let e = entry_of_change(change);
            let deletes = change.operation_type == OperationType::Delete;
            &&& e.id == uuid_of(change.id@)
            &&& e.name == change.id
            &&& change.device_uuid is Some ==> e.device == change.device_uuid
            &&& match e.act {
                ConfigAct::Store(v) => !deletes && (change.data matches Payload::Item(sent) && {
                    &&& v.key == sent.key
                    &&& v.value == sent.value
                    &&& v.version == sent.version
                    &&& v.is_deleted == sent.is_deleted
                    &&& v.last_modified == sent.last_modified
                    &&& change.device_uuid is None ==> e.device == sent.device_uuid
                }),
                ConfigAct::Remove(key) => deletes && key is None,
                ConfigAct::Copy => change.operation_type == OperationType::Update && (
                change.data is Missing || change.data is Null),
                ConfigAct::Skip => change.operation_type == OperationType::Insert
                    && change.data is Missing,
                ConfigAct::Reject(_) => !deletes && (change.data is Unreadable || (
                change.operation_type == OperationType::Insert && change.data is Null)),
            }
        }),
{
}

/// An upload begins with everything that was sent, in order, and with nothing done.
pub proof fn an_upload_begins_with_everything_that_was_sent(
    cx: ConfigContext,
    changes: Vec<ConfigChangeDelta>,
    items: Vec<ConfigSyncItem>,
    registered: RegisteredDevices,
    batch: ConfigBatch,
    of_changes: ConfigUpload,
    of_items: ConfigUpload,
)
    requires
        call_ensures(process_config_changes, (cx, &changes, registered, batch), of_changes),
        call_ensures(process_config_sync_items, (cx, &items, registered, batch), of_items),
    ensures
        of_changes.entries().len() == changes@.len(),
        forall|i: int|
            0 <= i < changes@.len() ==> #[trigger] of_changes.entries()[i] == entry_of_change(
                changes@[i],
            ),
        of_items.entries().len() == items@.len(),
        forall|i: int|
            0 <= i < items@.len() ==> is_entry_of_item(#[trigger] of_items.entries()[i], items@[i]),
        forall|u: ConfigUpload|
            u == of_changes || u == of_items ==> {
                let begun = #[trigger] u@;
                &&& u.context() == cx
                &&& u.registered() == registered@
                &&& begun.at == 0
                &&& begun.phase is Open
                &&& begun.run.len() == 0
                &&& begun.cache == batch@
                &&& begun.acked.len() == 0
                &&& begun.reported.len() == 0
                &&& begun.sent.len() == 0
                &&& begun.landed.len() == 0
            },
{
}

/// Whether a config shows a row as it is stored: each of its fields is the row's, and a row that
/// names no state is synced.
pub open spec fn shows_config(shown: StoredConfig, row: CachedConfig) -> bool {
    &&& shown.id == row.id
    &&& shown.user_id == row.user_id
    &&& shown.client_uuid == row.client_uuid
    &&& shown.device_uuid == row.device_uuid
    &&& shown.version == row.version
    &&& shown.is_deleted == row.is_deleted
    &&& shown.last_modified == row.last_modified
    &&& shown.key == row.key
    &&& shown.value == row.value
    &&& match row.sync_state {
        Some(state) => shown.sync_state == state,
        None => shown.sync_state is Synced,
    }
}

/// Whether an item of the flat list stands for a row: it has the row's id, device, key, value,
/// version, deletion and stamp, and the row's state, which is synced where it names none.
pub open spec fn stands_for(item: ConfigSyncItem, row: CachedConfig) -> bool {
    &&& item.id == row.id
    &&& item.device_uuid == Some(row.device_uuid)
    &&& item.key == row.key
    &&& item.value == row.value
    &&& item.version == row.version
    &&& item.is_deleted == row.is_deleted
    &&& item.last_modified == row.last_modified
    &&& match row.sync_state {
        Some(state) => item.sync_state == state,
        None => item.sync_state is Synced,
    }
}

/// A download shows configs as they are stored. Each item of the flat list stands for its row,
/// in order and deleted rows included. The changes are those rows in the same order, without the
/// deleted ones on a first sync, as deletions exactly if they are marked deleted; and a row's
/// change and its item agree.
pub proof fn configs_are_sent_as_they_are_stored(
    rows: Vec<CachedConfig>,
    last_synced_at: Option<Instant>,
    next_cursor_ms: Option<i64>,
    d: ConfigDownload,
)
    requires
        call_ensures(fetch_config_download, (rows, last_synced_at, next_cursor_ms), d),
    ensures
        d.next_cursor_ms == next_cursor_ms,
        d.items@.len() == rows@.len(),
        forall|k: int| 0 <= k < rows@.len() ==> stands_for(#[trigger] d.items@[k], rows@[k]),
        ({
            let first = match last_synced_at {
                Some(cursor) => cursor.secs <= 0,
                None => true,
            };
            let due = rows@.filter(|row: CachedConfig| !(first && row.is_deleted));
            &&& d.remote_changes@.len() == due.len()
            &&& forall|k: int|
                0 <= k < due.len() ==> {
                    let sent = #[trigger] d.remote_changes@[k];
                    &&& sent.id@ == hyphenated(due[k].id.bits)
                    &&& sent.operation_type == (if due[k].is_deleted {
                        OperationType::Delete
                    } else {
                        OperationType::Update
                    })
                    &&& sent.version == due[k].version
                    &&& shows_config(sent.data, due[k])
                }
        }),
        forall|k: int, j: int|
            0 <= k < d.items@.len() && 0 <= j < d.remote_changes@.len()
                && d.remote_changes@[j].data.id == d.items@[k].id && (forall|a: int, b: int|
                0 <= a < b < rows@.len() ==> (#[trigger] rows@[a]).id != (#[trigger] rows@[b]).id)
                ==> agree(#[trigger] d.remote_changes@[j].data, #[trigger] d.items@[k]),
{
    let first = match last_synced_at {
        Some(cursor) => cursor.secs <= 0,
        None => true,
    };
    let due = rows@.filter(|row: CachedConfig| !(first && row.is_deleted));
    changes_are_due(rows@, first);
    let views = remote_views(d.remote_changes@);
    assert(views == config_changes(rows@, first));
    assert(d.remote_changes@.len() == views.len());
    assert forall|k: int| 0 <= k < rows@.len() implies stands_for(
        #[trigger] d.items@[k],
        rows@[k],
    ) by {
        assert(d.items@[k] == config_item(rows@[k]));
    }
    assert forall|k: int| 0 <= k < due.len() implies {
        let sent = #[trigger] d.remote_changes@[k];
        &&& sent.id@ == hyphenated(due[k].id.bits)
        &&& sent.operation_type == (if due[k].is_deleted {
            OperationType::Delete
        } else {
            OperationType::Update
        })
        &&& sent.version == due[k].version
        &&& shows_config(sent.data, due[k])
    } by {
        assert(views[k] == d.remote_changes@[k]@);
        assert(views[k] == config_change(due[k]));
    }
    assert forall|k: int, j: int|
        0 <= k < d.items@.len() && 0 <= j < d.remote_changes@.len() && d.remote_changes@[j].data.id
            == d.items@[k].id && (forall|a: int, b: int|
            0 <= a < b < rows@.len() ==> (#[trigger] rows@[a]).id != (#[trigger] rows@[b]).id)
        implies agree(#[trigger] d.remote_changes@[j].data, #[trigger] d.items@[k]) by {
        assert(shows_config(d.remote_changes@[j].data, due[j]));
        let i = choose|i: int| 0 <= i < rows@.len() && rows@[i] == due[j];
        if i < k {
            assert(rows@[i].id != rows@[k].id);
        } else if k < i {
            assert(rows@[k].id != rows@[i].id);
        }
    }
}

/// Whether a sent change and an item of the flat list say the same of a config.
pub open spec fn agree(sent: StoredConfig, item: ConfigSyncItem) -> bool {
    &&& item.id == sent.id
    &&& item.device_uuid == Some(sent.device_uuid)
    &&& item.key == sent.key
    &&& item.value == sent.value
    &&& item.version == sent.version
    &&& item.is_deleted == sent.is_deleted
    &&& item.last_modified == sent.last_modified
    &&& item.sync_state == sent.sync_state
}

proof fn changes_are_due(rows: Seq<CachedConfig>, first: bool)
    ensures
        ({
            let due = rows.filter(|row: CachedConfig| !(first && row.is_deleted));
            &&& config_changes(rows, first).len() == due.len()
            &&& forall|k: int|
                0 <= k < due.len() ==> (#[trigger] config_changes(rows, first)[k]) == config_change(
                    due[k],
                )
            &&& forall|k: int|
                0 <= k < due.len() ==> exists|i: int|
                    0 <= i < rows.len() && rows[i] == #[trigger] due[k]
        }),
    decreases rows.len(),
{
    reveal(Seq::filter);
    if rows.len() > 0 {
        let front = rows.drop_last();
        changes_are_due(front, first);
        let due = rows.filter(|row: CachedConfig| !(first && row.is_deleted));
        let before = front.filter(|row: CachedConfig| !(first && row.is_deleted));
        assert forall|k: int| 0 <= k < due.len() implies exists|i: int|
            0 <= i < rows.len() && rows[i] == #[trigger] due[k] by {
            if k < before.len() {
                assert(due[k] == before[k]);
                let i = choose|i: int| 0 <= i < front.len() && front[i] == before[k];
                assert(rows[i] == due[k]);
            } else {
                assert(rows[rows.len() - 1] == due[k]);
            }
        }
    }
}

/// What a stream opens with, and what an upload reads back, are the rows as they are stored; and
/// what the streams hear of rows that were deleted is those rows, as deletions.
pub proof fn rows_are_listed_as_they_are_stored(
    rows: Vec<CachedConfig>,
    items: Vec<ConfigSyncItem>,
    broadcasts: Vec<ConfigBroadcast>,
)
    requires
        call_ensures(config_items, (&rows,), items),
        call_ensures(announce_deletions, (&rows,), broadcasts),
    ensures
        items@.len() == rows@.len(),
        forall|k: int| 0 <= k < rows@.len() ==> stands_for(#[trigger] items@[k], rows@[k]),
        broadcasts@.len() == rows@.len(),
        forall|k: int|
            0 <= k < rows@.len() ==> {
                let b = #[trigger] broadcasts@[k];
                &&& b.device_uuid == rows@[k].device_uuid
                &&& b.item.id == rows@[k].id
                &&& b.item.device_uuid == Some(rows@[k].device_uuid)
                &&& b.item.key == rows@[k].key
                &&& b.item.value == rows@[k].value
                &&& b.item.version == rows@[k].version
                &&& b.item.last_modified == rows@[k].last_modified
                &&& b.item.is_deleted
                &&& b.item.sync_state is PendingDelete
            },
{
    assert forall|k: int| 0 <= k < rows@.len() implies stands_for(#[trigger] items@[k], rows@[k]) by {
        assert(items@[k] == config_item(rows@[k]));
    }
    assert forall|k: int| 0 <= k < rows@.len() implies #[trigger] broadcasts@[k]
        == deletion_announced(rows@[k]) by {}
}

/// Whether a stored row holds what a write left.
pub open spec fn holds(row: CachedConfig, written: ConfigStore) -> bool {
    &&& row.id == written.id
    &&& row.device_uuid == written.device_uuid
    &&& row.version == written.version
    &&& row.is_deleted == written.is_deleted
    &&& row.last_modified == written.last_modified
    &&& row.key == written.key
    &&& row.value == written.value
}

/// A config that was uploaded and then downloaded comes back with the key and value that were
/// uploaded, and not as a deletion: whatever stored row holds what the upload of an item wrote,
/// the flat list shows the item's own key and value under it, and so does the change that is
/// sent for it.
pub proof fn an_uploaded_config_comes_back(
    cx: ConfigContext,
    entries: Seq<ConfigEntry>,
    registered: Set<u128>,
    p: Progress,
    event: ConfigEvent,
    fresh: Uuid,
    item: ConfigSyncItem,
    rows: Vec<CachedConfig>,
    last_synced_at: Option<Instant>,
    next_cursor_ms: Option<i64>,
    d: ConfigDownload,
    k: int,
)
    requires
        0 <= p.at < entries.len(),
        is_entry_of_item(entries[p.at], item),
        0 <= k < rows@.len(),
        step(cx, entries, registered, p, event, fresh) matches StepView::Taken {
            next,
            action,
            announce: Some(_),
        } && (row_written(next, action) matches Some(written) && holds(rows@[k], written)),
        call_ensures(fetch_config_download, (rows, last_synced_at, next_cursor_ms), d),
    ensures
        d.items@[k].key == item.key,
        d.items@[k].value == item.value,
        !d.items@[k].is_deleted,
        exists|j: int|
            0 <= j < d.remote_changes@.len() && (#[trigger] d.remote_changes@[j]).data.key == item.key
                && d.remote_changes@[j].data.value == item.value
                && d.remote_changes@[j].operation_type == OperationType::Update,
{
    a_config_is_stored_as_its_entry_asks(cx, entries, registered, p, event, fresh);
    an_item_asks_for_what_it_says(entries[p.at], item);
    configs_are_sent_as_they_are_stored(rows, last_synced_at, next_cursor_ms, d);
    let first = match last_synced_at {
        Some(cursor) => cursor.secs <= 0,
        None => true,
    };
    let due = rows@.filter(|row: CachedConfig| !(first && row.is_deleted));
    assert(stands_for(d.items@[k], rows@[k]));
    kept_rows_are_due(rows@, first, k);
    let j = choose|j: int| 0 <= j < due.len() && due[j] == rows@[k];
    assert(shows_config(d.remote_changes@[j].data, due[j]));
    assert(d.remote_changes@[j].data.key == item.key);
}

proof fn kept_rows_are_due(rows: Seq<CachedConfig>, first: bool, k: int)
    requires
        0 <= k < rows.len(),
        !rows[k].is_deleted,
    ensures
        rows.filter(|row: CachedConfig| !(first && row.is_deleted)).contains(rows[k]),
    decreases rows.len(),
{
    reveal(Seq::filter);
    let p = |row: CachedConfig| !(first && row.is_deleted);
    let front = rows.drop_last();
    if k < front.len() {
        kept_rows_are_due(front, first, k);
        let j = choose|j: int| 0 <= j < front.filter(p).len() && front.filter(p)[j] == rows[k];
        assert(rows.filter(p)[j] == rows[k]);
    } else {
        assert(rows.filter(p)[front.filter(p).len() as int] == rows[k]);
    }
}

/// A config is read for a client exactly if it was last written after the millisecond the read
/// begins at, no later than the one it ends at, and by another client unless the client's own
/// writes are read too.
pub proof fn a_config_is_read_once_it_was_written(
    row: CachedConfig,
    query: DownloadQuery,
    client: Uuid,
)
    ensures
        answers(row, query, client) <==> {
            &&& row.last_modified > query.after_ms
            &&& query.through_ms matches Some(ms) ==> row.last_modified <= ms
            &&& query.include_own || row.client_uuid != client
        },
{
}

/// A page of configs serves what was read, in order: all of it where it fits, and otherwise the
/// rows in front of the millisecond that does not fit whole, with the last millisecond served
/// as the cursor; where there is none in front, that one millisecond is read whole instead.
pub proof fn configs_are_served_in_the_order_they_were_written(
    rows: Vec<CachedConfig>,
    query: DownloadQuery,
    size: usize,
    page: DownloadPage<CachedConfig>,
)
    requires
        call_ensures(
            cut_page::<CachedConfig>,
            (rows, query, Some(size)),
            page,
        ),
    ensures
        match page {
            DownloadPage::Serve { rows: kept, next_cursor_ms: None } => {
                rows@.len() <= size && kept@ == rows@
            },
            DownloadPage::Serve { rows: kept, next_cursor_ms: Some(ms) } => {
                &&& rows@.len() > size && 0 < kept@.len() <= size
                &&& forall|i: int| 0 <= i < kept@.len() ==> #[trigger] kept@[i] == rows@[i]
                &&& ms == rows@[kept@.len() - 1].last_modified
                &&& ms < rows@[size as int].last_modified
                &&& forall|i: int|
                    kept@.len() <= i < size ==> (#[trigger] rows@[i]).last_modified
                        >= rows@[size as int].last_modified
            },
            DownloadPage::Reread { query: again, ms } => {
                &&& rows@.len() > size
                &&& ms == rows@[size as int].last_modified
                &&& ms > i64::MIN ==> again.after_ms == ms - 1
                &&& again.through_ms == Some(ms)
                &&& again.include_own == query.include_own
                &&& again.limit == i64::MAX
                &&& forall|i: int| 0 <= i < size ==> (#[trigger] rows@[i]).last_modified >= ms
            },
        },
{
    if let DownloadPage::Serve { rows: kept, next_cursor_ms } = page {
        if next_cursor_ms is Some {
            assert(kept@.last() == rows@[kept@.len() - 1]);
            assert forall|i: int| 0 <= i < kept@.len() implies #[trigger] kept@[i] == rows@[i] by {
                assert(rows@.take(kept@.len() as int)[i] == rows@[i]);
            }
        }
    }
}

/// A write makes the id and the key it lands on, and those of the row it replaces, unfit to be
/// answered for out of the cache, and nothing else.
pub proof fn a_write_makes_what_it_touched_stale(
    cache: CacheView,
    device: Uuid,
    target: ConfigTarget,
    key: Seq<char>,
    id: Uuid,
    other: Uuid,
    name: Seq<char>,
)
    ensures
        ({
            let after = cache.noted(device, target, key);
            &&& !after.id_fresh(target.new_id)
            &&& !after.key_fresh(device, key)
            &&& target.existing matches Some(row) ==> !after.id_fresh(row.id) && !after.key_fresh(
                device,
                row.key@,
            )
            &&& id != target.new_id && (target.existing matches Some(row) ==> id != row.id)
                ==> after.id_fresh(id) == cache.id_fresh(id)
            &&& (other != device || name != key) && (target.existing matches Some(row)
                ==> other != device || name != row.key@) ==> after.key_fresh(other, name)
                == cache.key_fresh(other, name)
            &&& after.rows == cache.rows && after.keys == cache.keys && after.taken == cache.taken
        }),
{
    tokens_are_distinct(id, id, other, name, device, key);
    if let Some(row) = target.existing {
        tokens_are_distinct(id, id, other, name, device, row.key@);
    }
}

/// A row takes the id it is sent under where that is free. Where it is not, a row that is there
/// already keeps its own, and a new one takes the fresh one.
pub proof fn a_row_takes_the_id_it_is_sent_under(
    by_key: Option<ExistingConfig>,
    by_id: Option<ExistingConfig>,
    id_taken: bool,
    submitted: Uuid,
    fresh: Uuid,
    facts: TargetFacts,
    target: ConfigTarget,
)
    requires
        call_ensures(target_facts, (by_key, by_id, id_taken), facts),
        call_ensures(
            resolve_config_target,
            (facts, submitted, fresh),
            target,
        ),
    ensures
        by_key is Some ==> target.existing == by_key,
        by_key is None ==> target.existing == by_id,
        !id_taken ==> target.new_id == submitted,
        id_taken && target.existing is None ==> target.new_id == fresh,
        id_taken ==> (target.existing matches Some(row) ==> target.new_id == row.id),
{
}

/// A batch answers for exactly the ids and keys it asked about, and knows exactly the ids that
/// are taken; each row that was read is kept under its own id and found under its own device
/// and key, and no other row is.
pub proof fn a_batch_knows_what_it_asked_about(
    ids: &Vec<Uuid>,
    keys: &Vec<String>,
    taken: &Vec<Uuid>,
    under_ids: Vec<CachedConfig>,
    under_keys: Vec<CachedConfig>,
    batch: ConfigBatch,
    id: Uuid,
    device: Uuid,
    key: Seq<char>,
)
    requires
        call_ensures(
            ConfigBatch::load,
            (ids, keys, taken, under_ids, under_keys),
            batch,
        ),
    ensures
        batch@.id_fresh(id) <==> ids@.contains(id),
        batch@.key_fresh(device, key) <==> texts(keys@).contains(key),
        batch@.taken.contains(id.bits) <==> taken@.contains(id),
        batch@.rows.contains_key(id.bits) ==> batch@.rows[id.bits].id == id && (
        under_ids@ + under_keys@).contains(batch@.rows[id.bits]),
        forall|i: int|
            0 <= i < (under_ids@ + under_keys@).len() ==> batch@.rows.contains_key(
                (#[trigger] (under_ids@ + under_keys@)[i]).id.bits,
            ),
        batch@.row_under(device, key) matches Some(row) ==> exists|i: int|
            0 <= i < (under_ids@ + under_keys@).len() && (#[trigger] (under_ids@ + under_keys@)[i]).id
                == row.id && (under_ids@ + under_keys@)[i].device_uuid == device && (under_ids@
                + under_keys@)[i].key@ == key,
{
    let none = asked(ids@, keys@, taken@);
    let all = under_ids@ + under_keys@;
    rows_are_added_in_order(none, under_ids@, under_keys@);
    rows_are_kept_under_their_ids(none, all);
    assert(Uuid { bits: id.bits } == id);
    if batch@.row_under(device, key) is Some {
        let token = key_token(device, key);
        let at = batch@.keys[token];
        let i = choose|i: int|
            0 <= i < all.len() && key_token(
                (#[trigger] all[i]).device_uuid,
                all[i].key@,
            ) == token && all[i].id == at;
        tokens_are_distinct(
            id,
            id,
            all[i].device_uuid,
            all[i].key@,
            device,
            key,
        );
        assert(batch@.rows[at.bits].id == Uuid { bits: at.bits });
        assert(all[i].id == batch@.row_under(device, key)->0.id);
    }
}

proof fn rows_are_added_in_order(
    cache: CacheView,
    first: Seq<CachedConfig>,
    second: Seq<CachedConfig>,
)
    ensures
        cache.with_rows(first).with_rows(second) == cache.with_rows(first + second),
    decreases second.len(),
{
    if second.len() == 0 {
        assert(first + second =~= first);
    } else {
        rows_are_added_in_order(cache, first, second.drop_last());
        assert((first + second).drop_last() =~= first + second.drop_last());
        assert((first + second).last() == second.last());
    }
}

proof fn rows_are_kept_under_their_ids(cache: CacheView, rows: Seq<CachedConfig>)
    requires
        cache.rows == Map::<u128, CachedConfig>::empty(),
        cache.keys == Map::<Seq<char>, Uuid>::empty(),
    ensures
        ({
            let after = cache.with_rows(rows);
            &&& after.taken == cache.taken
            &&& after.asked_ids == cache.asked_ids
            &&& after.asked_keys == cache.asked_keys
            &&& after.stale_ids == cache.stale_ids
            &&& after.stale_keys == cache.stale_keys
            &&& forall|bits: u128| #[trigger]
                after.rows.contains_key(bits) ==> after.rows[bits].id == (Uuid { bits })
                    && rows.contains(after.rows[bits])
            &&& forall|i: int|
                0 <= i < rows.len() ==> after.rows.contains_key((#[trigger] rows[i]).id.bits)
            &&& forall|token: Seq<char>| #[trigger]
                after.keys.contains_key(token) ==> exists|i: int|
                    0 <= i < rows.len() && key_token(
                        (#[trigger] rows[i]).device_uuid,
                        rows[i].key@,
                    ) == token && rows[i].id == after.keys[token]
        }),
    decreases rows.len(),
{
    if rows.len() > 0 {
        let front = rows.drop_last();
        let row = rows.last();
        rows_are_kept_under_their_ids(cache, front);
        let before = cache.with_rows(front);
        let after = cache.with_rows(rows);
        assert(after == before.with_row(row));
        assert(row.id == Uuid { bits: row.id.bits });
        assert(rows[rows.len() - 1] == row);
        assert forall|bits: u128| #[trigger] after.rows.contains_key(bits) implies after.rows[bits].id
            == (Uuid { bits }) && rows.contains(after.rows[bits]) by {
            if bits != row.id.bits {
                assert(before.rows.contains_key(bits));
                let k = choose|k: int| 0 <= k < front.len() && front[k] == before.rows[bits];
                assert(rows[k] == after.rows[bits]);
            }
        }
        assert forall|i: int| 0 <= i < rows.len() implies after.rows.contains_key(
            (#[trigger] rows[i]).id.bits,
        ) by {
            if i < front.len() {
                assert(before.rows.contains_key(front[i].id.bits));
            }
        }
        assert forall|token: Seq<char>| #[trigger] after.keys.contains_key(token) implies exists|
            i: int,
        |
            0 <= i < rows.len() && key_token(
                (#[trigger] rows[i]).device_uuid,
                rows[i].key@,
            ) == token && rows[i].id == after.keys[token] by {
            let own = key_token(row.device_uuid, row.key@);
            if token != own {
                assert(before.keys.contains_key(token));
                let k = choose|k: int|
                    0 <= k < front.len() && key_token(
                        (#[trigger] front[k]).device_uuid,
                        front[k].key@,
                    ) == token && front[k].id == before.keys[token];
                assert(rows[k].id == after.keys[token]);
            } else {
                assert(rows[rows.len() - 1].id == after.keys[token]);
            }
        }
    }
}

/// Inserting configs, rewriting them and deleting them are three statements, and a write is
/// about its id and about each key it sits or sat under.
pub proof fn a_write_is_about_its_id_and_its_keys(one: ConfigWrite, other: ConfigWrite)
    ensures
        one.kind() == other.kind() <==> (one is Insert && other is Insert) || (one is Update
            && other is Update) || (one is Delete && other is Delete),
        one matches ConfigWrite::Insert(row) ==> one.rows().len() == 2 && one.rows().contains(
            id_token(row.id),
        ) && one.rows().contains(key_token(row.device_uuid, row.key@)),
        one matches ConfigWrite::Update { row, old_key } ==> one.rows().len() == 3
            && one.rows().contains(id_token(row.id)) && one.rows().contains(
            key_token(row.device_uuid, row.key@),
        ) && one.rows().contains(key_token(row.device_uuid, old_key@)),
        one matches ConfigWrite::Delete { id, device_uuid, key, .. } ==> one.rows().len() == 2
            && one.rows().contains(id_token(id)) && one.rows().contains(
            key_token(device_uuid, key@),
        ),
{
    match one {
        ConfigWrite::Insert(row) => {
            assert(one.rows()[0] == id_token(row.id));
            assert(one.rows()[1] == key_token(row.device_uuid, row.key@));
        },
        ConfigWrite::Update { row, old_key } => {
            assert(one.rows()[0] == id_token(row.id));
            assert(one.rows()[1] == key_token(row.device_uuid, row.key@));
            assert(one.rows()[2] == key_token(row.device_uuid, old_key@));
        },
        ConfigWrite::Delete { id, device_uuid, key, .. } => {
            assert(one.rows()[0] == id_token(id));
            assert(one.rows()[1] == key_token(device_uuid, key@));
        },
    }
}

/// An upload looks up the id, the key and the devices of everything it carries: the key that a
/// document shows even where it is no config, and both devices where the change and its
/// document name one each. It looks up nothing else, and no key or device twice.
pub proof fn an_upload_looks_up_what_it_carries(
    changes: &Vec<ConfigChangeDelta>,
    items: &Vec<ConfigSyncItem>,
    of_changes: ConfigLookups,
    of_items: ConfigLookups,
    i: int,
)
    requires
        call_ensures(lookups_of_changes, (changes,), of_changes),
        call_ensures(lookups_of_items, (items,), of_items),
    ensures
        of_changes.ids@.len() == changes@.len(),
        of_items.ids@.len() == items@.len(),
        0 <= i < changes@.len() ==> {
            let change = changes@[i];
            &&& of_changes.ids@[i] == uuid_of(change.id@)
            &&& change.data matches Payload::Item(data) ==> texts(of_changes.keys@).contains(
                data.key@,
            ) && (data.device_uuid matches Some(d) ==> of_changes.devices@.contains(d))
            &&& change.data is Unreadable ==> (change.stray_key matches Some(key) ==> texts(
                of_changes.keys@,
            ).contains(key@))
            &&& change.device_uuid matches Some(d) ==> of_changes.devices@.contains(d)
        },
        0 <= i < items@.len() ==> {
            let item = items@[i];
            &&& of_items.ids@[i] == item.id
            &&& texts(of_items.keys@).contains(item.key@)
            &&& item.device_uuid matches Some(d) ==> of_items.devices@.contains(d)
        },
        changes@.len() == 0 ==> of_changes.keys@.len() == 0 && of_changes.devices@.len() == 0,
        items@.len() == 0 ==> of_items.keys@.len() == 0 && of_items.devices@.len() == 0,
        texts(of_changes.keys@).no_duplicates() && of_changes.devices@.no_duplicates(),
        texts(of_items.keys@).no_duplicates() && of_items.devices@.no_duplicates(),
{
    if 0 <= i < changes@.len() {
        let change = changes@[i];
        if let Payload::Item(data) = change.data {
            assert(shown_key(changes@[i]) == Some(data.key@));
            if let Some(d) = data.device_uuid {
                assert(shown_device(changes@[i]) == Some(d));
            }
        }
        if change.data is Unreadable && change.stray_key is Some {
            assert(shown_key(changes@[i]) == Some(change.stray_key->0@));
        }
        if let Some(d) = change.device_uuid {
            assert(changes@[i].device_uuid == Some(d));
        }
    }
    if 0 <= i < items@.len() {
        assert(items@[i].key@ == items@[i].key@);
        if let Some(d) = items@[i].device_uuid {
            assert(items@[i].device_uuid == Some(d));
        }
    }
    if changes@.len() == 0 {
        nothing_is_looked_up(of_changes);
    }
    if items@.len() == 0 {
        nothing_is_looked_up(of_items);
    }
}

proof fn nothing_is_looked_up(l: ConfigLookups)
    requires
        forall|k: Seq<char>| !(#[trigger] texts(l.keys@).contains(k)),
        forall|d: Uuid| !(#[trigger] l.devices@.contains(d)),
    ensures
        l.keys@.len() == 0,
        l.devices@.len() == 0,
{
    if l.keys@.len() > 0 {
        assert(texts(l.keys@)[0] == l.keys@[0]@);
        assert(texts(l.keys@).contains(l.keys@[0]@));
    }
    if l.devices@.len() > 0 {
        assert(l.devices@.contains(l.devices@[0]));
    }
}

/// The cache shows a row only to its own account and, where a device is asked for, for its own
/// device; a write lands on the row under its key, or else on the device's row under its id, and
/// knows whether its id is taken.
pub proof fn the_cache_shows_rows_to_their_owners(
    batch: &ConfigBatch,
    user: Uuid,
    id: Uuid,
    device: Uuid,
    key: &str,
    anywhere: Option<CachedConfig>,
    on_device: Option<CachedConfig>,
    facts: TargetFacts,
)
    requires
        call_ensures(ConfigBatch::row_for, (batch, user, id, None), anywhere),
        call_ensures(ConfigBatch::row_for, (batch, user, id, Some(device)), on_device),
        call_ensures(ConfigBatch::facts_for, (batch, user, device, id, key), facts),
    ensures
        anywhere matches Some(row) ==> row.user_id == user && row == batch@.rows[id.bits],
        anywhere is None ==> !batch@.rows.contains_key(id.bits) || batch@.rows[id.bits].user_id
            != user,
        on_device matches Some(row) ==> anywhere == Some(row) && row.device_uuid == device,
        on_device is None ==> (anywhere matches Some(row) ==> row.device_uuid != device),
        facts.id_taken <==> batch@.taken.contains(id.bits),
        batch@.row_under(device, key@) matches Some(row) ==> (facts.existing matches Some(found)
            && found.id == row.id && found.version == row.version && found.key == row.key),
        batch@.row_under(device, key@) is None ==> match on_device {
            Some(row) => facts.existing matches Some(found) && found.id == row.id && found.version
                == row.version && found.key == row.key,
            None => facts.existing is None,
        },
{
}

} // verus!
