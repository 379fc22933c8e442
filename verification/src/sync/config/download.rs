//! Reading configs: what an upload looks up first, and what a client is owed.

use crate::ids::{hyphenated, Uuid};
use crate::instant::{initial_sync, is_initial_sync, Instant};
use crate::sync::config::cache::CachedConfig;
use crate::sync::config::upload::{config_to_send, stored_config, ConfigBroadcast, StoredConfig};
use crate::sync::download::Stamped;
use crate::sync::request::{ConfigChangeDelta, ConfigSyncItem};
use crate::sync::types::{
    download_operation, operation_of, remote_views, stored_or_synced, stored_state, Payload,
    RemoteDelta, RemoteView, SyncState,
};
use crate::text::texts;
use vstd::hash_set::StringHashSet;
use vstd::prelude::*;

verus! {

/// What an upload asks the database before it begins.
#[derive(Debug)]
pub struct ConfigLookups {
    pub ids: Vec<Uuid>,
    /// Without repeats.
    pub keys: Vec<String>,
    /// Without repeats.
    pub devices: Vec<Uuid>,
}

impl ConfigLookups {
    /// Whether no key and no device is asked about twice.
    pub open spec fn wf(self) -> bool {
        texts(self.keys@).no_duplicates() && self.devices@.no_duplicates()
    }

    fn none() -> (l: ConfigLookups)
        ensures
            l.wf(),
            l.ids@.len() == 0,
            texts(l.keys@) == Seq::<Seq<char>>::empty(),
            l.devices@ == Seq::<Uuid>::empty(),
    {
        let l = ConfigLookups { ids: Vec::new(), keys: Vec::new(), devices: Vec::new() };
        assert(texts(l.keys@) =~= Seq::<Seq<char>>::empty());
        l
    }

    fn ask_id(&mut self, id: Uuid)
        ensures
            final(self).ids@ == old(self).ids@.push(id),
            final(self).keys == old(self).keys,
            final(self).devices == old(self).devices,
    {
        self.ids.push(id);
    }

    fn ask_key(&mut self, key: &String, seen: &mut StringHashSet)
        requires
            old(self).wf(),
            forall|k: Seq<char>| #[trigger]
                old(seen)@.contains(k) <==> texts(old(self).keys@).contains(k),
        ensures
            final(self).wf(),
            final(self).ids == old(self).ids,
            final(self).devices == old(self).devices,
            forall|k: Seq<char>| #[trigger]
                final(seen)@.contains(k) <==> texts(final(self).keys@).contains(k),
            forall|k: Seq<char>| #[trigger]
                texts(final(self).keys@).contains(k) <==> texts(old(self).keys@).contains(k) || k
                    == key@,
    {
        if !seen.contains(key.as_str()) {
            seen.insert(key.clone());
            self.keys.push(key.clone());
            proof {
                let before = texts(old(self).keys@);
                let after = texts(self.keys@);
                assert(after =~= before.push(key@));
                assert forall|k: Seq<char>| #[trigger] after.contains(k) <==> before.contains(k)
                    || k == key@ by {
                    if before.contains(k) {
                        let i = choose|i: int| 0 <= i < before.len() && before[i] == k;
                        assert(after[i] == k);
                    }
                    if k == key@ {
                        assert(after[before.len() as int] == k);
                    }
                }
            }
        }
    }

    fn ask_device(&mut self, device: Option<Uuid>)
        requires
            old(self).wf(),
        ensures
            final(self).wf(),
            final(self).ids == old(self).ids,
            final(self).keys == old(self).keys,
            forall|d: Uuid| #[trigger]
                final(self).devices@.contains(d) <==> old(self).devices@.contains(d) || Some(d)
                    == device,
    {
        if let Some(named) = device {
            let mut i: usize = 0;
            while i < self.devices.len()
                invariant
                    i <= self.devices.len(),
                    *self == *old(self),
                    self.wf(),
                    device == Some(named),
                    forall|k: int| 0 <= k < i ==> #[trigger] self.devices@[k] != named,
                decreases self.devices.len() - i,
            {
                if self.devices[i] == named {
                    assert(self.devices@.contains(named));
                    return;
                }
                i = i + 1;
            }
            self.devices.push(named);
            proof {
                let before = old(self).devices@;
                let after = self.devices@;
                assert forall|d: Uuid| #[trigger] after.contains(d) <==> before.contains(d) || d
                    == named by {
                    if before.contains(d) {
                        let k = choose|k: int| 0 <= k < before.len() && before[k] == d;
                        assert(after[k] == d);
                    }
                    if d == named {
                        assert(after[before.len() as int] == d);
                    }
                }
            }
        }
    }
}

/// The key a change's document shows, whether or not it can be read as a config.
pub open spec fn shown_key(change: ConfigChangeDelta) -> Option<Seq<char>> {
    match change.data {
        Payload::Item(data) => Some(data.key@),
        Payload::Unreadable(_) => crate::text::opt_text(change.stray_key),
        _ => None,
    }
}

/// The device a change's document names.
pub open spec fn shown_device(change: ConfigChangeDelta) -> Option<Uuid> {
    match change.data {
        Payload::Item(data) => data.device_uuid,
        _ => None,
    }
}

/// What a list of changes looks up: every id, and each key and device that shows.
pub fn lookups_of_changes(changes: &Vec<ConfigChangeDelta>) -> (l: ConfigLookups)
    ensures
        l.wf(),
        l.ids@ == changes@.map_values(|c: ConfigChangeDelta| crate::ids::uuid_of(c.id@)),
        forall|k: Seq<char>| #[trigger]
            texts(l.keys@).contains(k) <==> exists|i: int|
                0 <= i < changes@.len() && shown_key(#[trigger] changes@[i]) == Some(k),
        forall|d: Uuid| #[trigger]
            l.devices@.contains(d) <==> exists|i: int|
                0 <= i < changes@.len() && ((#[trigger] changes@[i]).device_uuid == Some(d)
                    || shown_device(changes@[i]) == Some(d)),
{
    let mut l = ConfigLookups::none();
    let mut seen = StringHashSet::new();
    let mut i: usize = 0;
    while i < changes.len()
        invariant
            i <= changes.len(),
            l.wf(),
            l.ids@ == changes@.take(i as int).map_values(
                |c: ConfigChangeDelta| crate::ids::uuid_of(c.id@),
            ),
            forall|k: Seq<char>| #[trigger] seen@.contains(k) <==> texts(l.keys@).contains(k),
            forall|k: Seq<char>| #[trigger]
                texts(l.keys@).contains(k) <==> exists|j: int|
                    0 <= j < i && shown_key(#[trigger] changes@[j]) == Some(k),
            forall|d: Uuid| #[trigger]
                l.devices@.contains(d) <==> exists|j: int|
                    0 <= j < i && ((#[trigger] changes@[j]).device_uuid == Some(d) || shown_device(
                        changes@[j],
                    ) == Some(d)),
        decreases changes.len() - i,
    {
        let change = &changes[i];
        let ghost before = l;
        l.ask_id(crate::ids::parse_or_hash_uuid(change.id.as_str()));
        l.ask_device(change.device_uuid);
        match &change.data {
            Payload::Item(data) => {
                l.ask_key(&data.key, &mut seen);
                l.ask_device(data.device_uuid);
            },
            Payload::Unreadable(_) => {
                if let Some(key) = &change.stray_key {
                    l.ask_key(key, &mut seen);
                }
            },
            _ => {},
        }
        proof {
            let at = i as int;
            assert(l.ids@ =~= changes@.take(at + 1).map_values(
                |c: ConfigChangeDelta| crate::ids::uuid_of(c.id@),
            ));
            assert forall|k: Seq<char>| #[trigger] texts(l.keys@).contains(k) <==> exists|j: int|
                0 <= j < at + 1 && shown_key(#[trigger] changes@[j]) == Some(k) by {
                assert(texts(l.keys@).contains(k) <==> texts(before.keys@).contains(k) || shown_key(
                    changes@[at],
                ) == Some(k));
                if texts(before.keys@).contains(k) {
                    let j = choose|j: int|
                        0 <= j < at && shown_key(#[trigger] changes@[j]) == Some(k);
                    assert(shown_key(changes@[j]) == Some(k));
                }
            }
            assert forall|d: Uuid| #[trigger] l.devices@.contains(d) <==> exists|j: int|
                0 <= j < at + 1 && ((#[trigger] changes@[j]).device_uuid == Some(d) || shown_device(
                    changes@[j],
                ) == Some(d)) by {
                assert(l.devices@.contains(d) <==> before.devices@.contains(d)
                    || changes@[at].device_uuid == Some(d) || shown_device(changes@[at]) == Some(d));
                if before.devices@.contains(d) {
                    let j = choose|j: int|
                        0 <= j < at && ((#[trigger] changes@[j]).device_uuid == Some(d)
                            || shown_device(changes@[j]) == Some(d));
                    assert(changes@[j].device_uuid == Some(d) || shown_device(changes@[j]) == Some(
                        d,
                    ));
                }
            }
        }
        i = i + 1;
    }
    assert(changes@.take(i as int) =~= changes@);
    l
}

/// What the flat list looks up: every id, key and device in it.
pub fn lookups_of_items(items: &Vec<ConfigSyncItem>) -> (l: ConfigLookups)
    ensures
        l.wf(),
        l.ids@ == items@.map_values(|item: ConfigSyncItem| item.id),
        forall|k: Seq<char>| #[trigger]
            texts(l.keys@).contains(k) <==> exists|i: int|
                0 <= i < items@.len() && (#[trigger] items@[i]).key@ == k,
        forall|d: Uuid| #[trigger]
            l.devices@.contains(d) <==> exists|i: int|
                0 <= i < items@.len() && (#[trigger] items@[i]).device_uuid == Some(d),
{
    let mut l = ConfigLookups::none();
    let mut seen = StringHashSet::new();
    let mut i: usize = 0;
    while i < items.len()
        invariant
            i <= items.len(),
            l.wf(),
            l.ids@ == items@.take(i as int).map_values(|item: ConfigSyncItem| item.id),
            forall|k: Seq<char>| #[trigger] seen@.contains(k) <==> texts(l.keys@).contains(k),
            forall|k: Seq<char>| #[trigger]
                texts(l.keys@).contains(k) <==> exists|j: int|
                    0 <= j < i && (#[trigger] items@[j]).key@ == k,
            forall|d: Uuid| #[trigger]
                l.devices@.contains(d) <==> exists|j: int|
                    0 <= j < i && (#[trigger] items@[j]).device_uuid == Some(d),
        decreases items.len() - i,
    {
        let item = &items[i];
        let ghost before = l;
        l.ask_id(item.id);
        l.ask_key(&item.key, &mut seen);
        l.ask_device(item.device_uuid);
        proof {
            let at = i as int;
            assert(l.ids@ =~= items@.take(at + 1).map_values(|item: ConfigSyncItem| item.id));
            assert forall|k: Seq<char>| #[trigger] texts(l.keys@).contains(k) <==> exists|j: int|
                0 <= j < at + 1 && (#[trigger] items@[j]).key@ == k by {
                assert(texts(l.keys@).contains(k) <==> texts(before.keys@).contains(k)
                    || items@[at].key@ == k);
                if texts(before.keys@).contains(k) {
                    let j = choose|j: int| 0 <= j < at && (#[trigger] items@[j]).key@ == k;
                    assert(items@[j].key@ == k);
                }
            }
            assert forall|d: Uuid| #[trigger] l.devices@.contains(d) <==> exists|j: int|
                0 <= j < at + 1 && (#[trigger] items@[j]).device_uuid == Some(d) by {
                assert(l.devices@.contains(d) <==> before.devices@.contains(d)
                    || items@[at].device_uuid == Some(d));
                if before.devices@.contains(d) {
                    let j = choose|j: int|
                        0 <= j < at && (#[trigger] items@[j]).device_uuid == Some(d);
                    assert(items@[j].device_uuid == Some(d));
                }
            }
        }
        i = i + 1;
    }
    assert(items@.take(i as int) =~= items@);
    l
}

impl Stamped for CachedConfig {
    open spec fn stamp(&self) -> i64 {
        self.last_modified
    }

    open spec fn writer(&self) -> Uuid {
        self.client_uuid
    }

    fn stamp_of(&self) -> (ms: i64) {
        self.last_modified
    }
}

/// A row as an item of the flat list.
pub open spec fn config_item(row: CachedConfig) -> ConfigSyncItem {
    ConfigSyncItem {
        id: row.id,
        device_uuid: Some(row.device_uuid),
        key: row.key,
        value: row.value,
        sync_state: stored_state(row.sync_state),
        version: row.version,
        is_deleted: row.is_deleted,
        last_modified: row.last_modified,
    }
}

/// A row as an item of the flat list.
pub fn item_of_config(row: &CachedConfig) -> (item: ConfigSyncItem)
    ensures
        item == config_item(*row),
{
    ConfigSyncItem {
        id: row.id,
        device_uuid: Some(row.device_uuid),
        key: row.key.clone(),
        value: row.value.clone(),
        sync_state: stored_or_synced(&row.sync_state),
        version: row.version,
        is_deleted: row.is_deleted,
        last_modified: row.last_modified,
    }
}

/// Rows as items of the flat list: what a stream opens with, and what an upload reads back.
pub fn config_items(rows: &Vec<CachedConfig>) -> (items: Vec<ConfigSyncItem>)
    ensures
        items@ == rows@.map_values(|row: CachedConfig| config_item(row)),
{
    let mut items: Vec<ConfigSyncItem> = Vec::new();
    let mut i: usize = 0;
    while i < rows.len()
        invariant
            i <= rows.len(),
            items@ == rows@.take(i as int).map_values(|row: CachedConfig| config_item(row)),
        decreases rows.len() - i,
    {
        items.push(item_of_config(&rows[i]));
        assert(items@ =~= rows@.take(i + 1).map_values(|row: CachedConfig| config_item(row)));
        i = i + 1;
    }
    assert(rows@.take(i as int) =~= rows@);
    items
}

/// A row as a change the server sends.
pub open spec fn config_change(row: CachedConfig) -> RemoteView<StoredConfig> {
    RemoteView {
        id: hyphenated(row.id.bits),
        operation_type: download_operation(row.is_deleted),
        version: row.version,
        data: stored_config(row),
    }
}

/// The changes a download sends: a first sync is not told of deletions.
pub open spec fn config_changes(rows: Seq<CachedConfig>, initial: bool) -> Seq<
    RemoteView<StoredConfig>,
>
    decreases rows.len(),
{
    if rows.len() == 0 {
        seq![]
    } else {
        let front = config_changes(rows.drop_last(), initial);
        if initial && rows.last().is_deleted {
            front
        } else {
            front.push(config_change(rows.last()))
        }
    }
}

/// One page of the configs a client is owed.
pub struct ConfigDownload {
    pub remote_changes: Vec<RemoteDelta<StoredConfig>>,
    pub items: Vec<ConfigSyncItem>,
    /// The client's next cursor, when the page was cut short.
    pub next_cursor_ms: Option<i64>,
}

/// The download a page of rows makes: the rows once as changes and once as the flat list,
/// which carries deletions even on a first sync.
pub fn fetch_config_download(
    rows: Vec<CachedConfig>,
    last_synced_at: Option<Instant>,
    next_cursor_ms: Option<i64>,
) -> (d: ConfigDownload)
    ensures
        remote_views(d.remote_changes@) == config_changes(rows@, initial_sync(last_synced_at)),
        d.items@ == rows@.map_values(|row: CachedConfig| config_item(row)),
        d.next_cursor_ms == next_cursor_ms,
{
    let initial = is_initial_sync(last_synced_at);
    let items = config_items(&rows);
    let mut remote_changes: Vec<RemoteDelta<StoredConfig>> = Vec::new();
    let mut i: usize = 0;
    assert(rows@.take(0) =~= seq![]);
    assert(remote_views(remote_changes@) =~= seq![]);
    while i < rows.len()
        invariant
            i <= rows.len(),
            remote_views(remote_changes@) == config_changes(rows@.take(i as int), initial),
        decreases rows.len() - i,
    {
        let row = &rows[i];
        let ghost before = remote_changes@;
        if !(initial && row.is_deleted) {
            let remote = RemoteDelta {
                id: row.id.text(),
                operation_type: operation_of(row.is_deleted),
                version: row.version,
                data: config_to_send(row.copy()),
            };
            let ghost sent = remote@;
            remote_changes.push(remote);
            assert(remote_views(remote_changes@) =~= remote_views(before).push(sent));
        }
        proof {
            let next = rows@.take(i + 1);
            assert(next.drop_last() =~= rows@.take(i as int));
            assert(next.last() == rows@[i as int]);
        }
        i = i + 1;
    }
    assert(rows@.take(i as int) =~= rows@);
    ConfigDownload { remote_changes, items, next_cursor_ms }
}

/// Whether an upload's rows have to be read back at all.
pub fn echoes_anything(landed: &Vec<Uuid>) -> (b: bool)
    ensures
        b == (landed@.len() > 0),
{
    landed.len() > 0
}

/// What the streams hear of a deleted row.
pub open spec fn deletion_announced(row: CachedConfig) -> ConfigBroadcast {
    ConfigBroadcast {
        device_uuid: row.device_uuid,
        item: ConfigSyncItem {
            sync_state: SyncState::PendingDelete,
            is_deleted: true,
            ..config_item(row)
        },
    }
}

/// What the streams hear of the rows a delete statement returned.
pub fn announce_deletions(rows: &Vec<CachedConfig>) -> (broadcasts: Vec<ConfigBroadcast>)
    ensures
        broadcasts@ == rows@.map_values(|row: CachedConfig| deletion_announced(row)),
{
    let mut broadcasts: Vec<ConfigBroadcast> = Vec::new();
    let mut i: usize = 0;
    while i < rows.len()
        invariant
            i <= rows.len(),
            broadcasts@ == rows@.take(i as int).map_values(
                |row: CachedConfig| deletion_announced(row),
            ),
        decreases rows.len() - i,
    {
        let row = &rows[i];
        let item = ConfigSyncItem {
            id: row.id,
            device_uuid: Some(row.device_uuid),
            key: row.key.clone(),
            value: row.value.clone(),
            sync_state: SyncState::PendingDelete,
            version: row.version,
            is_deleted: true,
            last_modified: row.last_modified,
        };
        broadcasts.push(ConfigBroadcast { device_uuid: row.device_uuid, item });
        assert(broadcasts@ =~= rows@.take(i + 1).map_values(
            |row: CachedConfig| deletion_announced(row),
        ));
        i = i + 1;
    }
    assert(rows@.take(i as int) =~= rows@);
    broadcasts
}

/// A first sync is told of no deletion, and any other sync of every row it is owed.
pub proof fn a_first_sync_hears_of_no_deletion(rows: Seq<CachedConfig>, initial: bool)
    ensures
        initial ==> forall|i: int|
            0 <= i < config_changes(rows, initial).len() ==> (#[trigger] config_changes(
                rows,
                initial,
            )[i]).operation_type == crate::sync::types::OperationType::Update,
        !initial ==> config_changes(rows, initial) == rows.map_values(
            |row: CachedConfig| config_change(row),
        ),
    decreases rows.len(),
{
    if rows.len() > 0 {
        a_first_sync_hears_of_no_deletion(rows.drop_last(), initial);
        if !initial {
            assert(rows.map_values(|row: CachedConfig| config_change(row)) =~= rows.drop_last().map_values(
                |row: CachedConfig| config_change(row),
            ).push(config_change(rows.last())));
        }
    } else if !initial {
        assert(rows.map_values(|row: CachedConfig| config_change(row)) =~= seq![]);
    }
}

} // verus!
