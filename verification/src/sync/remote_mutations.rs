//! What a scope downloads.

use crate::instant::{initial_sync, Instant};
use crate::sync::config::cache::CachedConfig;
use crate::sync::config::download::{config_changes, fetch_config_download};
use crate::sync::drawing::{drawing_changes, fetch_remote_drawing_mutations, DrawingRow};
use crate::sync::grocery::remote_mutations::{
    carries, fetch_remote_grocery_mutations, GroceryRows, RemoteGrocery,
};
use crate::sync::handler::{RemoteScribble, RemoteTodo};
use crate::sync::types::{remote_views, SyncScope};
use vstd::prelude::*;

verus! {

/// The collections a scope downloads.
#[derive(Debug, Clone, Copy, PartialEq, Eq, Structural)]
pub struct RemoteReads {
    pub todo: bool,
    pub grocery: bool,
    pub configs: bool,
    pub drawings: bool,
}

/// Whether a scope takes the tasks in.
pub open spec fn reads_todo(scope: SyncScope) -> bool {
    scope == SyncScope::All || scope == SyncScope::Todo
}

/// Whether a scope takes the groceries in.
pub open spec fn reads_grocery(scope: SyncScope) -> bool {
    scope == SyncScope::All || scope == SyncScope::Grocery
}

/// Whether a scope is one of the drawing apps'.
pub open spec fn is_scribble(scope: SyncScope) -> bool {
    scope == SyncScope::ScribbleBox || scope == SyncScope::ScribbleKeep || scope
        == SyncScope::ScribbleKeepCloud
}

/// Whether a scope reads drawings back: only the cloud app does.
pub open spec fn reads_drawings(scope: SyncScope) -> bool {
    scope == SyncScope::ScribbleKeepCloud
}

/// The collections a scope downloads.
pub fn remote_reads(scope: SyncScope) -> (reads: RemoteReads)
    ensures
        reads == (RemoteReads {
            todo: reads_todo(scope),
            grocery: reads_grocery(scope),
            configs: is_scribble(scope),
            drawings: reads_drawings(scope),
        }),
{
    RemoteReads {
        todo: scope == SyncScope::All || scope == SyncScope::Todo,
        grocery: scope == SyncScope::All || scope == SyncScope::Grocery,
        configs: scope == SyncScope::ScribbleBox || scope == SyncScope::ScribbleKeep || scope
            == SyncScope::ScribbleKeepCloud,
        drawings: scope == SyncScope::ScribbleKeepCloud,
    }
}

/// What was read for a download: the changed tasks, the groceries an account can see, and
/// the configs and drawings past the client's cursor.
pub struct RemoteRows {
    pub todo: RemoteTodo,
    pub grocery: GroceryRows,
    pub configs: Vec<CachedConfig>,
    pub drawings: Vec<DrawingRow>,
}

/// The changes of every collection that the server sends.
pub struct RemoteMutations {
    pub todo: RemoteTodo,
    pub grocery: RemoteGrocery,
    pub scribble: RemoteScribble,
}

/// Whether `sent` is what a client is owed of the groceries.
pub open spec fn carries_groceries(
    sent: RemoteGrocery,
    rows: GroceryRows,
    since: Option<Instant>,
    client: Seq<char>,
) -> bool {
    &&& carries(sent.lists, rows.lists@, since, client)
    &&& carries(sent.members, rows.members@, since, client)
    &&& carries(sent.stores, rows.stores@, since, client)
    &&& carries(sent.categories, rows.categories@, since, client)
    &&& carries(sent.items, rows.items@, since, client)
    &&& carries(sent.store_infos, rows.store_infos@, since, client)
}

/// Whether nothing is sent of the groceries.
pub open spec fn carries_no_groceries(sent: RemoteGrocery) -> bool {
    &&& sent.lists@.len() == 0
    &&& sent.members@.len() == 0
    &&& sent.stores@.len() == 0
    &&& sent.categories@.len() == 0
    &&& sent.items@.len() == 0
    &&& sent.store_infos@.len() == 0
}

/// Everything a scope downloads, unpaged: each collection it takes in, and nothing of the
/// others.
pub fn fetch_remote_mutations(
    scope: SyncScope,
    last_synced_at: Option<Instant>,
    client_id: &str,
    rows: RemoteRows,
) -> (r: RemoteMutations)
    ensures
        if reads_todo(scope) {
            r.todo == rows.todo
        } else {
            r.todo.lists@.len() == 0 && r.todo.items@.len() == 0
        },
        if reads_grocery(scope) {
            carries_groceries(r.grocery, rows.grocery, last_synced_at, client_id@)
        } else {
            carries_no_groceries(r.grocery)
        },
        remote_views(r.scribble.configs@) == (if is_scribble(scope) {
            config_changes(rows.configs@, initial_sync(last_synced_at))
        } else {
            seq![]
        }),
        remote_views(r.scribble.drawings@) == (if reads_drawings(scope) {
            drawing_changes(rows.drawings@, initial_sync(last_synced_at))
        } else {
            seq![]
        }),
{
    let reads = remote_reads(scope);
    let todo = if reads.todo {
        rows.todo
    } else {
        RemoteTodo { lists: Vec::new(), items: Vec::new() }
    };
    let grocery = if reads.grocery {
        fetch_remote_grocery_mutations(last_synced_at, client_id, rows.grocery)
    } else {
        RemoteGrocery {
            lists: Vec::new(),
            members: Vec::new(),
            stores: Vec::new(),
            categories: Vec::new(),
            items: Vec::new(),
            store_infos: Vec::new(),
        }
    };
    let configs = if reads.configs {
        fetch_config_download(rows.configs, last_synced_at, None).remote_changes
    } else {
        Vec::new()
    };
    let drawings = if reads.drawings {
        fetch_remote_drawing_mutations(&rows.drawings, last_synced_at)
    } else {
        Vec::new()
    };
    RemoteMutations { todo, grocery, scribble: RemoteScribble { configs, drawings } }
}

/// A scope of one product downloads nothing of the other's.
pub proof fn the_products_download_nothing_of_each_other(scope: SyncScope)
    ensures
        is_scribble(scope) ==> !reads_todo(scope) && !reads_grocery(scope),
        reads_drawings(scope) ==> is_scribble(scope),
        is_scribble(scope) <==> crate::sync::scope_auth::owner_of(scope)
            == crate::sync::types::Product::ScribbleRoute,
{
}

/// A scope downloads what belongs to it: everything but the drawing apps' collections is for
/// the household, whose two parts are downloaded alone or together, and drawings are read back
/// by the cloud app alone.
pub proof fn a_scope_downloads_what_belongs_to_it(scope: SyncScope, reads: RemoteReads)
    requires
        call_ensures(remote_reads, (scope,), reads),
    ensures
        match scope {
            SyncScope::All => reads.todo && reads.grocery && !reads.configs && !reads.drawings,
            SyncScope::Todo => reads.todo && !reads.grocery && !reads.configs && !reads.drawings,
            SyncScope::Grocery => !reads.todo && reads.grocery && !reads.configs && !reads.drawings,
            SyncScope::ScribbleBox => !reads.todo && !reads.grocery && reads.configs
                && !reads.drawings,
            SyncScope::ScribbleKeep => !reads.todo && !reads.grocery && reads.configs
                && !reads.drawings,
            SyncScope::ScribbleKeepCloud => !reads.todo && !reads.grocery && reads.configs
                && reads.drawings,
        },
{
}

/// What is fetched for a scope is what it downloads: of the tasks what was read, of the
/// groceries exactly what is due, of the configs and drawings the changes that were read, without
/// the deletions where this is the client's first sync, and of what the scope does not download
/// nothing.
pub proof fn what_is_fetched_is_what_the_scope_downloads(
    scope: SyncScope,
    since: Option<Instant>,
    client_id: &str,
    rows: RemoteRows,
    reads: RemoteReads,
    r: RemoteMutations,
)
    requires
        call_ensures(remote_reads, (scope,), reads),
        call_ensures(fetch_remote_mutations, (scope, since, client_id, rows), r),
    ensures
        reads.todo ==> r.todo == rows.todo,
        !reads.todo ==> r.todo.lists@.len() == 0 && r.todo.items@.len() == 0,
        reads.grocery ==> carries(r.grocery.lists, rows.grocery.lists@, since, client_id@)
            && carries(r.grocery.members, rows.grocery.members@, since, client_id@) && carries(
            r.grocery.stores,
            rows.grocery.stores@,
            since,
            client_id@,
        ) && carries(r.grocery.categories, rows.grocery.categories@, since, client_id@) && carries(
            r.grocery.items,
            rows.grocery.items@,
            since,
            client_id@,
        ) && carries(r.grocery.store_infos, rows.grocery.store_infos@, since, client_id@),
        !reads.grocery ==> r.grocery.lists@.len() == 0 && r.grocery.members@.len() == 0
            && r.grocery.stores@.len() == 0 && r.grocery.categories@.len() == 0
            && r.grocery.items@.len() == 0 && r.grocery.store_infos@.len() == 0,
        !reads.configs ==> r.scribble.configs@.len() == 0,
        !reads.drawings ==> r.scribble.drawings@.len() == 0,
        reads.configs ==> remote_views(r.scribble.configs@) == config_changes(
            rows.configs@,
            since is None || since->0.secs <= 0,
        ),
        reads.drawings ==> remote_views(r.scribble.drawings@) == drawing_changes(
            rows.drawings@,
            since is None || since->0.secs <= 0,
        ),
{
    assert(remote_views(r.scribble.configs@).len() == r.scribble.configs@.len());
    assert(remote_views(r.scribble.drawings@).len() == r.scribble.drawings@.len());
}

} // verus!
