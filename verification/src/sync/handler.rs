//! What a sync request comes to: what its scope takes in, what the response is made of, and
//! whose caches it reaches.

use crate::error::{outcome, AppError, ErrorView};
use crate::ids::{hyphenated, Uuid};
use crate::instant::Instant;
use crate::sync::config::upload::StoredConfig;
use crate::sync::device::{resolve_sync_device, ItemDeviceRule, SyncDevice};
use crate::sync::download::ReplyCursor;
use crate::sync::drawing::StoredDrawing;
use crate::sync::grocery::categories::CategoryData;
use crate::sync::grocery::grocery_item_store_info::GroceryItemStoreInfoData;
use crate::sync::grocery::grocery_items::GroceryItemData;
use crate::sync::grocery::grocery_list_members::GroceryListMemberData;
use crate::sync::grocery::grocery_lists::GroceryListData;
use crate::sync::grocery::remote_mutations::RemoteGrocery;
use crate::sync::grocery::stores::StoreData;
use crate::sync::limits::{payload_check, validate_sync_payload, SyncLimits};
use crate::sync::remote_mutations::{is_scribble, reads_grocery, reads_todo, remote_reads};
use crate::sync::request::{ConfigSyncItem, SyncRequest, TodoItemData, TodoListData};
use crate::sync::scope_auth::{authorize_scope, scope_decision};
use crate::sync::status::{cache_key, get_cache_key};
use crate::sync::types::{
    remote_views, status_views, Claims, Product, RemoteDelta, RemoteView, StatusView,
    SuccessResult, SyncScope,
};
use crate::text::{same_text, texts};
use std::collections::HashSet;
use vstd::hash_set::StringHashSet;
use vstd::prelude::*;

verus! {

broadcast use vstd::std_specs::hash::group_hash_axioms;

/// The scope of a request: everything, where it names none.
pub open spec fn scope_of(request: SyncRequest) -> SyncScope {
    match request.scope {
        Some(scope) => scope,
        None => SyncScope::All,
    }
}

/// Receives a request: its token has to permit its scope, and its body has to keep within the
/// bounds. Nothing is read or written before.
pub fn receive(claims: &Claims, request: &SyncRequest, limits: &SyncLimits) -> (r: Result<
    SyncScope,
    AppError,
>)
    ensures
        outcome(r) == (match scope_decision(claims.product, scope_of(*request)) {
            Err(e) => Err(e),
            Ok(_) => match payload_check(*request, *limits) {
                Err(e) => Err(e),
                Ok(_) => Ok::<SyncScope, ErrorView>(scope_of(*request)),
            },
        }),
{
    let scope = match request.scope {
        Some(scope) => scope,
        None => SyncScope::All,
    };
    match authorize_scope(claims, scope) {
        Ok(_) => {},
        Err(e) => {
            return Err(e);
        },
    }
    match validate_sync_payload(request, limits) {
        Ok(_) => Ok(scope),
        Err(e) => Err(e),
    }
}

/// The client a request writes as: the one its token was issued to, whatever its body says.
pub fn writing_client(claims: &Claims) -> (client: String)
    ensures
        client == claims.client_uuid,
{
    claims.client_uuid.clone()
}

/// The page a download is cut to: none for a client that cannot come back for the rest.
pub fn download_page(request: &SyncRequest, limits: &SyncLimits) -> (size: Option<usize>)
    ensures
        size == (if request.supports_paging {
            Some(limits.download_page_size)
        } else {
            None
        }),
{
    if request.supports_paging {
        Some(limits.download_page_size)
    } else {
        None
    }
}

/// What a scope takes in.
#[derive(Debug, Clone, Copy, PartialEq, Eq, Structural)]
pub struct SyncPlan {
    pub todo: bool,
    pub grocery: bool,
    /// Whether the drawing apps' collections are part of it at all.
    pub scribble: bool,
    pub uploads_drawings: bool,
    pub uploads_configs: bool,
    pub downloads_drawings: bool,
    /// Whether the request speaks for a tablet of its own.
    pub has_device: bool,
}

/// What a scope takes in: drawings are uploaded by the tablets, configs under the two Keep
/// scopes, and the cloud app speaks for no tablet.
pub open spec fn plan_of(scope: SyncScope) -> SyncPlan {
    SyncPlan {
        todo: reads_todo(scope),
        grocery: reads_grocery(scope),
        scribble: is_scribble(scope),
        uploads_drawings: scope == SyncScope::ScribbleBox || scope == SyncScope::ScribbleKeep,
        uploads_configs: scope == SyncScope::ScribbleKeep || scope == SyncScope::ScribbleKeepCloud,
        downloads_drawings: scope == SyncScope::ScribbleKeepCloud,
        has_device: is_scribble(scope) && scope != SyncScope::ScribbleKeepCloud,
    }
}

/// What a scope takes in.
pub fn sync_plan(scope: SyncScope) -> (plan: SyncPlan)
    ensures
        plan == plan_of(scope),
{
    let reads = remote_reads(scope);
    SyncPlan {
        todo: reads.todo,
        grocery: reads.grocery,
        scribble: reads.configs,
        uploads_drawings: scope == SyncScope::ScribbleBox || scope == SyncScope::ScribbleKeep,
        uploads_configs: scope == SyncScope::ScribbleKeep || scope == SyncScope::ScribbleKeepCloud,
        downloads_drawings: reads.drawings,
        has_device: reads.configs && scope != SyncScope::ScribbleKeepCloud,
    }
}

/// The device a request speaks for: none for the cloud app, whatever its body names.
pub fn request_device(scope: SyncScope, requested: Option<Uuid>) -> (device: Option<SyncDevice>)
    ensures
        device == (if plan_of(scope).has_device {
            Some(
                match requested {
                    Some(id) => SyncDevice::Named(id),
                    None => SyncDevice::Fallback,
                },
            )
        } else {
            None
        }),
{
    if sync_plan(scope).has_device {
        Some(resolve_sync_device(requested))
    } else {
        None
    }
}

/// How rows are placed, given the device a request speaks for. The same device limits what
/// it reads.
pub fn item_rule(device: Option<Uuid>) -> (rule: ItemDeviceRule)
    ensures
        rule == (match device {
            Some(device) => ItemDeviceRule::RequestDevice(device),
            None => ItemDeviceRule::RowMustName,
        }),
{
    match device {
        Some(device) => ItemDeviceRule::RequestDevice(device),
        None => ItemDeviceRule::RowMustName,
    }
}

/// The drawings a response carries in its flat list.
#[derive(Debug, Clone, Copy, PartialEq, Eq, Structural)]
pub enum ResponseDrawings {
    Nothing,
    /// Those this request wrote.
    Written,
    /// Those this request wrote, and those that changed since the client's cursor.
    Changed,
}

/// The drawings a response carries in its flat list.
pub fn response_drawings(scope: SyncScope, written: usize) -> (what: ResponseDrawings)
    ensures
        what == (if scope == SyncScope::ScribbleKeepCloud {
            ResponseDrawings::Changed
        } else if plan_of(scope).uploads_drawings && written > 0 {
            ResponseDrawings::Written
        } else {
            ResponseDrawings::Nothing
        }),
{
    if scope == SyncScope::ScribbleKeepCloud {
        ResponseDrawings::Changed
    } else if sync_plan(scope).uploads_drawings && written > 0 {
        ResponseDrawings::Written
    } else {
        ResponseDrawings::Nothing
    }
}

/// Whether a change is about a row that is among those found already.
pub open spec fn is_among<T>(found: Seq<RemoteView<T>>, id: Seq<char>) -> bool {
    exists|i: int| 0 <= i < found.len() && (#[trigger] found[i]).id == id
}

/// The changes found while uploading, followed by those fetched that are about other rows.
pub open spec fn merged<T>(found: Seq<RemoteView<T>>, fetched: Seq<RemoteView<T>>) -> Seq<
    RemoteView<T>,
>
    decreases fetched.len(),
{
    if fetched.len() == 0 {
        found
    } else {
        let front = merged(found, fetched.drop_last());
        if is_among(found, fetched.last().id) {
            front
        } else {
            front.push(fetched.last())
        }
    }
}

/// Merges the changes found while uploading with those fetched: a row the upload already
/// answers for is not sent twice.
pub fn merge_changes<T>(found: Vec<RemoteDelta<T>>, fetched: Vec<RemoteDelta<T>>) -> (all: Vec<
    RemoteDelta<T>,
>)
    ensures
        remote_views(all@) == merged(remote_views(found@), remote_views(fetched@)),
{
    let ghost head = remote_views(found@);
    let ghost tail = remote_views(fetched@);
    let ghost rows = fetched@;
    let mut ids = StringHashSet::new();
    let mut i: usize = 0;
    while i < found.len()
        invariant
            i <= found.len(),
            head == remote_views(found@),
            forall|id: Seq<char>| #[trigger]
                ids@.contains(id) <==> exists|k: int| 0 <= k < i && (#[trigger] head[k]).id == id,
        decreases found.len() - i,
    {
        let ghost before = ids@;
        ids.insert(found[i].id.clone());
        proof {
            let at = i as int;
            assert(head[at].id == found@[at].id@);
            assert forall|id: Seq<char>| #[trigger] ids@.contains(id) <==> exists|k: int|
                0 <= k < at + 1 && (#[trigger] head[k]).id == id by {
                if before.contains(id) {
                    let k = choose|k: int| 0 <= k < at && (#[trigger] head[k]).id == id;
                    assert(head[k].id == id);
                } else if ids@.contains(id) {
                    assert(head[at].id == id);
                }
            }
        }
        i = i + 1;
    }
    assert forall|id: Seq<char>| #[trigger] ids@.contains(id) <==> is_among(head, id) by {}
    let mut all = found;
    assert(tail.take(0) =~= seq![]);
    for change in it: fetched.into_iter()
        invariant
            it.seq() == rows,
            tail == remote_views(rows),
            forall|id: Seq<char>| #[trigger] ids@.contains(id) <==> is_among(head, id),
            remote_views(all@) == merged(head, tail.take(it.index() as int)),
    {
        let ghost at = it.index() as int;
        let ghost before = all@;
        let ghost sent = change@;
        proof {
            assert(change == rows[at]);
            assert(tail[at] == sent);
            assert(tail.take(at + 1).drop_last() =~= tail.take(at));
            assert(tail.take(at + 1).last() == sent);
        }
        if !ids.contains(change.id.as_str()) {
            all.push(change);
            assert(remote_views(all@) =~= remote_views(before).push(sent));
        }
    }
    assert(tail.take(tail.len() as int) =~= tail);
    all
}

/// The texts of a list of ids.
pub open spec fn id_texts(ids: Seq<Uuid>) -> Seq<Seq<char>> {
    ids.map_values(|id: Uuid| hyphenated(id.bits))
}

fn texts_of_ids(ids: &Vec<Uuid>) -> (list: Vec<String>)
    ensures
        texts(list@) == id_texts(ids@),
{
    let mut list: Vec<String> = Vec::new();
    let mut i: usize = 0;
    while i < ids.len()
        invariant
            i <= ids.len(),
            list@.len() == i,
            forall|k: int| 0 <= k < i ==> (#[trigger] list@[k])@ == hyphenated(ids@[k].bits),
        decreases ids.len() - i,
    {
        list.push(ids[i].text());
        i = i + 1;
    }
    assert(texts(list@) =~= id_texts(ids@));
    list
}

/// What uploads report.
pub struct UploadReport {
    /// The ids of what is done.
    pub success_ids: Vec<String>,
    /// The version each ended at.
    pub upload_status: Vec<SuccessResult>,
}

impl UploadReport {
    /// The ids of what is done.
    pub open spec fn acked(self) -> Seq<Seq<char>> {
        texts(self.success_ids@)
    }

    /// The statuses reported.
    pub open spec fn reported(self) -> Seq<StatusView> {
        status_views(self.upload_status@)
    }

    /// A report of nothing.
    pub fn none() -> (r: UploadReport)
        ensures
            r.acked() == Seq::<Seq<char>>::empty(),
            r.reported() == Seq::<StatusView>::empty(),
    {
        let r = UploadReport { success_ids: Vec::new(), upload_status: Vec::new() };
        assert(r.acked() =~= Seq::<Seq<char>>::empty());
        assert(r.reported() =~= Seq::<StatusView>::empty());
        r
    }

    /// The report of an upload of changes.
    pub fn of_changes(success_ids: Vec<String>, upload_status: Vec<SuccessResult>) -> (r: UploadReport)
        ensures
            r.acked() == texts(success_ids@),
            r.reported() == status_views(upload_status@),
    {
        UploadReport { success_ids, upload_status }
    }

    /// The report of an upload of a flat list: what is done are the rows to read back.
    pub fn of_items(landed: &Vec<Uuid>, upload_status: Vec<SuccessResult>) -> (r: UploadReport)
        ensures
            r.acked() == id_texts(landed@),
            r.reported() == status_views(upload_status@),
    {
        UploadReport { success_ids: texts_of_ids(landed), upload_status }
    }

    /// This report followed by another.
    pub fn and(self, other: UploadReport) -> (r: UploadReport)
        ensures
            r.acked() == self.acked() + other.acked(),
            r.reported() == self.reported() + other.reported(),
    {
        let ghost more = other;
        let mut success_ids = self.success_ids;
        let mut upload_status = self.upload_status;
        let mut other_ids = other.success_ids;
        let mut other_status = other.upload_status;
        success_ids.append(&mut other_ids);
        upload_status.append(&mut other_status);
        let r = UploadReport { success_ids, upload_status };
        assert(r.acked() =~= self.acked() + more.acked());
        assert(r.reported() =~= self.reported() + more.reported());
        r
    }
}

/// The ids a list of reports names, in order.
pub open spec fn all_acked(parts: Seq<UploadReport>) -> Seq<Seq<char>>
    decreases parts.len(),
{
    if parts.len() == 0 {
        seq![]
    } else {
        all_acked(parts.drop_last()) + parts.last().acked()
    }
}

/// The statuses a list of reports holds, in order.
pub open spec fn all_reported(parts: Seq<UploadReport>) -> Seq<StatusView>
    decreases parts.len(),
{
    if parts.len() == 0 {
        seq![]
    } else {
        all_reported(parts.drop_last()) + parts.last().reported()
    }
}

/// Brings the reports of the uploads of a request together, in order.
pub fn consolidate(parts: Vec<UploadReport>) -> (r: UploadReport)
    ensures
        r.acked() == all_acked(parts@),
        r.reported() == all_reported(parts@),
{
    let ghost all = parts@;
    let mut r = UploadReport::none();
    assert(all.take(0) =~= seq![]);
    for part in it: parts.into_iter()
        invariant
            it.seq() == all,
            r.acked() == all_acked(all.take(it.index() as int)),
            r.reported() == all_reported(all.take(it.index() as int)),
    {
        let ghost at = it.index() as int;
        proof {
            assert(part == all[at]);
            assert(all.take(at + 1).drop_last() =~= all.take(at));
            assert(all.take(at + 1).last() == all[at]);
        }
        r = r.and(part);
    }
    assert(all.take(all.len() as int) =~= all);
    r
}

/// Whether a config is among a list of them.
pub open spec fn has_config(items: Seq<ConfigSyncItem>, id: Uuid) -> bool {
    exists|i: int| 0 <= i < items.len() && (#[trigger] items[i]).id == id
}

/// The configs a download carries, followed by those the request wrote that are not among
/// them.
pub open spec fn flat_configs(changed: Seq<ConfigSyncItem>, written: Seq<ConfigSyncItem>) -> Seq<
    ConfigSyncItem,
>
    decreases written.len(),
{
    if written.len() == 0 {
        changed
    } else {
        let front = flat_configs(changed, written.drop_last());
        if has_config(changed, written.last().id) {
            front
        } else {
            front.push(written.last())
        }
    }
}

/// The flat list of configs a response carries: what the download holds and what the request
/// wrote, each row once.
pub fn response_configs(changed: Vec<ConfigSyncItem>, written: Vec<ConfigSyncItem>) -> (all: Vec<
    ConfigSyncItem,
>)
    ensures
        all@ == flat_configs(changed@, written@),
{
    let ghost head = changed@;
    let ghost tail = written@;
    let mut ids: HashSet<u128> = HashSet::new();
    let mut i: usize = 0;
    while i < changed.len()
        invariant
            i <= changed.len(),
            head == changed@,
            forall|id: Uuid| #[trigger]
                ids@.contains(id.bits) <==> exists|k: int|
                    0 <= k < i && (#[trigger] head[k]).id == id,
        decreases changed.len() - i,
    {
        let ghost before = ids@;
        ids.insert(changed[i].id.bits);
        proof {
            let at = i as int;
            assert forall|id: Uuid| #[trigger] ids@.contains(id.bits) <==> exists|k: int|
                0 <= k < at + 1 && (#[trigger] head[k]).id == id by {
                if before.contains(id.bits) {
                    let k = choose|k: int| 0 <= k < at && (#[trigger] head[k]).id == id;
                    assert(head[k].id == id);
                } else if ids@.contains(id.bits) {
                    assert(head[at].id == id);
                }
            }
        }
        i = i + 1;
    }
    assert forall|id: Uuid| #[trigger] ids@.contains(id.bits) <==> has_config(head, id) by {}
    let mut all = changed;
    assert(tail.take(0) =~= seq![]);
    for item in it: written.into_iter()
        invariant
            it.seq() == tail,
            forall|id: Uuid| #[trigger] ids@.contains(id.bits) <==> has_config(head, id),
            all@ == flat_configs(head, tail.take(it.index() as int)),
    {
        let ghost at = it.index() as int;
        proof {
            assert(item == tail[at]);
            assert(tail.take(at + 1).drop_last() =~= tail.take(at));
            assert(tail.take(at + 1).last() == tail[at]);
        }
        if !ids.contains(&item.id.bits) {
            all.push(item);
        }
    }
    assert(tail.take(tail.len() as int) =~= tail);
    all
}

/// Changes to tasks that the server sends.
pub struct RemoteTodo {
    pub lists: Vec<RemoteDelta<TodoListData>>,
    pub items: Vec<RemoteDelta<TodoItemData>>,
}

/// Changes to the drawing apps' collections that the server sends.
pub struct RemoteScribble {
    pub configs: Vec<RemoteDelta<StoredConfig>>,
    pub drawings: Vec<RemoteDelta<StoredDrawing>>,
}

/// What one part of a request came to: what its uploads reported, the changes they found, and
/// those fetched after them.
pub struct SyncPart<R> {
    pub report: UploadReport,
    pub found: R,
    pub fetched: R,
}

/// The reply to a sync request.
pub struct SyncResponse {
    pub success_ids: Vec<String>,
    pub upload_status: Vec<SuccessResult>,
    pub remote_todo_list_changes: Vec<RemoteDelta<TodoListData>>,
    pub remote_todo_changes: Vec<RemoteDelta<TodoItemData>>,
    pub remote_grocery_list_changes: Vec<RemoteDelta<GroceryListData>>,
    pub remote_grocery_list_member_changes: Vec<RemoteDelta<GroceryListMemberData>>,
    pub remote_store_changes: Vec<RemoteDelta<StoreData>>,
    pub remote_category_changes: Vec<RemoteDelta<CategoryData>>,
    pub remote_grocery_changes: Vec<RemoteDelta<GroceryItemData>>,
    pub remote_grocery_item_store_info_changes: Vec<RemoteDelta<GroceryItemStoreInfoData>>,
    pub remote_config_changes: Vec<RemoteDelta<StoredConfig>>,
    pub remote_drawing_changes: Vec<RemoteDelta<StoredDrawing>>,
    pub configs: Vec<ConfigSyncItem>,
    pub drawings: Vec<StoredDrawing>,
    pub server_timestamp: Instant,
    pub has_more: bool,
}

/// Whether `sent` is what the changes found and those fetched come to.
pub open spec fn sends<T>(
    sent: Vec<RemoteDelta<T>>,
    found: Vec<RemoteDelta<T>>,
    fetched: Vec<RemoteDelta<T>>,
) -> bool {
    remote_views(sent@) == merged(remote_views(found@), remote_views(fetched@))
}

/// The reply to a sync request: the reports of its three parts in order, their changes with
/// no row sent twice, the flat lists, and where the client resumes.
pub fn sync_response(
    todo: SyncPart<RemoteTodo>,
    grocery: SyncPart<RemoteGrocery>,
    scribble: SyncPart<RemoteScribble>,
    configs: Vec<ConfigSyncItem>,
    drawings: Vec<StoredDrawing>,
    cursor: ReplyCursor,
) -> (r: SyncResponse)
    ensures
        texts(r.success_ids@) == todo.report.acked() + grocery.report.acked()
            + scribble.report.acked(),
        status_views(r.upload_status@) == todo.report.reported() + grocery.report.reported()
            + scribble.report.reported(),
        sends(r.remote_todo_list_changes, todo.found.lists, todo.fetched.lists),
        sends(r.remote_todo_changes, todo.found.items, todo.fetched.items),
        sends(r.remote_grocery_list_changes, grocery.found.lists, grocery.fetched.lists),
        sends(r.remote_grocery_list_member_changes, grocery.found.members, grocery.fetched.members),
        sends(r.remote_store_changes, grocery.found.stores, grocery.fetched.stores),
        sends(r.remote_category_changes, grocery.found.categories, grocery.fetched.categories),
        sends(r.remote_grocery_changes, grocery.found.items, grocery.fetched.items),
        sends(
            r.remote_grocery_item_store_info_changes,
            grocery.found.store_infos,
            grocery.fetched.store_infos,
        ),
        sends(r.remote_config_changes, scribble.found.configs, scribble.fetched.configs),
        sends(r.remote_drawing_changes, scribble.found.drawings, scribble.fetched.drawings),
        r.configs == configs,
        r.drawings == drawings,
        r.server_timestamp == cursor.server_timestamp,
        r.has_more == cursor.has_more,
{
    let report = todo.report.and(grocery.report).and(scribble.report);
    SyncResponse {
        success_ids: report.success_ids,
        upload_status: report.upload_status,
        remote_todo_list_changes: merge_changes(todo.found.lists, todo.fetched.lists),
        remote_todo_changes: merge_changes(todo.found.items, todo.fetched.items),
        remote_grocery_list_changes: merge_changes(grocery.found.lists, grocery.fetched.lists),
        remote_grocery_list_member_changes: merge_changes(
            grocery.found.members,
            grocery.fetched.members,
        ),
        remote_store_changes: merge_changes(grocery.found.stores, grocery.fetched.stores),
        remote_category_changes: merge_changes(
            grocery.found.categories,
            grocery.fetched.categories,
        ),
        remote_grocery_changes: merge_changes(grocery.found.items, grocery.fetched.items),
        remote_grocery_item_store_info_changes: merge_changes(
            grocery.found.store_infos,
            grocery.fetched.store_infos,
        ),
        remote_config_changes: merge_changes(scribble.found.configs, scribble.fetched.configs),
        remote_drawing_changes: merge_changes(scribble.found.drawings, scribble.fetched.drawings),
        configs,
        drawings,
        server_timestamp: cursor.server_timestamp,
        has_more: cursor.has_more,
    }
}

/// Whether a request carries grocery changes.
pub open spec fn has_grocery(r: SyncRequest) -> bool {
    r.grocery_list_changes@.len() > 0 || r.grocery_list_member_changes@.len() > 0
        || r.store_changes@.len() > 0 || r.category_changes@.len() > 0 || r.grocery_changes@.len()
        > 0 || r.grocery_item_store_info_changes@.len() > 0
}

/// Whether a request carries changes to tasks.
pub open spec fn has_todo(r: SyncRequest) -> bool {
    r.todo_list_changes@.len() > 0 || r.todo_changes@.len() > 0
}

/// Whether a request carries drawings.
pub open spec fn has_drawings(r: SyncRequest) -> bool {
    r.drawing_changes@.len() > 0 || r.drawings@.len() > 0
}

/// Whether a request carries configs.
pub open spec fn has_configs(r: SyncRequest) -> bool {
    r.config_changes@.len() > 0 || r.configs@.len() > 0
}

/// Whether a request carries anything at all.
pub open spec fn has_mutations(r: SyncRequest) -> bool {
    has_todo(r) || has_grocery(r) || has_configs(r) || has_drawings(r)
}

/// Whether a request carries grocery changes.
pub fn carries_grocery(r: &SyncRequest) -> (b: bool)
    ensures
        b == has_grocery(*r),
{
    r.grocery_list_changes.len() > 0 || r.grocery_list_member_changes.len() > 0
        || r.store_changes.len() > 0 || r.category_changes.len() > 0 || r.grocery_changes.len() > 0
        || r.grocery_item_store_info_changes.len() > 0
}

/// Whether a request carries anything at all.
pub fn carries_mutations(r: &SyncRequest) -> (b: bool)
    ensures
        b == has_mutations(*r),
{
    r.todo_list_changes.len() > 0 || r.todo_changes.len() > 0 || carries_grocery(r)
        || r.config_changes.len() > 0 || r.configs.len() > 0 || r.drawing_changes.len() > 0
        || r.drawings.len() > 0
}

/// The users whose grocery caches move: those affected, and the caller.
pub open spec fn with_caller(affected: Seq<Seq<char>>, caller: Seq<char>) -> Seq<Seq<char>> {
    if affected.contains(caller) {
        affected
    } else {
        affected.push(caller)
    }
}

/// The grocery cache keys of a list of users.
pub open spec fn grocery_keys(users: Seq<Seq<char>>) -> Seq<Seq<char>>
    decreases users.len(),
{
    if users.len() == 0 {
        seq![]
    } else {
        grocery_keys(users.drop_last()) + seq![
            cache_key(users.last(), SyncScope::Grocery),
            cache_key(users.last(), SyncScope::All),
        ]
    }
}

/// The cache keys a request moves forward, in order: the caller's, those of everybody its
/// grocery changes reach, and those of the scopes whose status looks at what changed.
pub open spec fn moved_keys(r: SyncRequest, caller: Seq<char>, affected: Seq<Seq<char>>) -> Seq<
    Seq<char>,
> {
    if !has_mutations(r) {
        seq![]
    } else {
        seq![cache_key(caller, SyncScope::All)] + (if has_grocery(r) {
            grocery_keys(with_caller(affected, caller))
        } else {
            seq![]
        }) + (if has_todo(r) {
            seq![cache_key(caller, SyncScope::Todo)]
        } else {
            seq![]
        }) + (if has_drawings(r) {
            seq![
                cache_key(caller, SyncScope::ScribbleBox),
                cache_key(caller, SyncScope::ScribbleKeepCloud),
            ]
        } else {
            seq![]
        }) + (if has_configs(r) {
            seq![
                cache_key(caller, SyncScope::ScribbleKeep),
                cache_key(caller, SyncScope::ScribbleKeepCloud),
            ]
        } else {
            seq![]
        })
    }
}

fn push_key(keys: &mut Vec<String>, user: &str, scope: SyncScope)
    ensures
        texts(final(keys)@) == texts(old(keys)@).push(cache_key(user@, scope)),
{
    keys.push(get_cache_key(user, scope));
    assert(texts(keys@) =~= texts(old(keys)@).push(cache_key(user@, scope)));
}

fn push_grocery_keys(keys: &mut Vec<String>, users: &Vec<String>, caller: &str)
    ensures
        texts(final(keys)@) == texts(old(keys)@) + grocery_keys(
            with_caller(texts(users@), caller@),
        ),
{
    let ghost start = texts(keys@);
    let ghost all = texts(users@);
    let mut included = false;
    let mut i: usize = 0;
    assert(texts(keys@) =~= start + grocery_keys(all.take(0)));
    while i < users.len()
        invariant
            i <= users.len(),
            all == texts(users@),
            texts(keys@) == start + grocery_keys(all.take(i as int)),
            included <==> exists|k: int| 0 <= k < i && #[trigger] all[k] == caller@,
        decreases users.len() - i,
    {
        let user = users[i].as_str();
        assert(all[i as int] == user@);
        push_key(keys, user, SyncScope::Grocery);
        push_key(keys, user, SyncScope::All);
        let ghost before = included;
        if same_text(user, caller) {
            included = true;
        }
        proof {
            let next = all.take(i + 1);
            assert(next.drop_last() =~= all.take(i as int));
            assert(next.last() == user@);
            assert(texts(keys@) =~= start + grocery_keys(next));
            if included && !before {
                assert(all[i as int] == caller@);
            }
        }
        i = i + 1;
    }
    assert(all.take(i as int) =~= all);
    if !included {
        assert(!all.contains(caller@));
        push_key(keys, caller, SyncScope::Grocery);
        push_key(keys, caller, SyncScope::All);
        proof {
            let longer = all.push(caller@);
            assert(longer.drop_last() =~= all);
            assert(texts(keys@) =~= start + grocery_keys(longer));
        }
    }
}

/// The cache keys a request moves forward.
pub fn caches_to_move(r: &SyncRequest, caller: &str, affected: &Vec<String>) -> (keys: Vec<String>)
    ensures
        texts(keys@) == moved_keys(*r, caller@, texts(affected@)),
{
    let mut keys: Vec<String> = Vec::new();
    assert(texts(keys@) =~= seq![]);
    if !carries_mutations(r) {
        return keys;
    }
    push_key(&mut keys, caller, SyncScope::All);
    if carries_grocery(r) {
        push_grocery_keys(&mut keys, affected, caller);
    }
    if r.todo_list_changes.len() > 0 || r.todo_changes.len() > 0 {
        push_key(&mut keys, caller, SyncScope::Todo);
    }
    if r.drawing_changes.len() > 0 || r.drawings.len() > 0 {
        push_key(&mut keys, caller, SyncScope::ScribbleBox);
        push_key(&mut keys, caller, SyncScope::ScribbleKeepCloud);
    }
    if r.config_changes.len() > 0 || r.configs.len() > 0 {
        push_key(&mut keys, caller, SyncScope::ScribbleKeep);
        push_key(&mut keys, caller, SyncScope::ScribbleKeepCloud);
    }
    assert(texts(keys@) =~= moved_keys(*r, caller@, texts(affected@)));
    keys
}

proof fn grocery_keys_hold(users: Seq<Seq<char>>, user: Seq<char>)
    requires
        users.contains(user),
    ensures
        grocery_keys(users).contains(cache_key(user, SyncScope::Grocery)),
        grocery_keys(users).contains(cache_key(user, SyncScope::All)),
    decreases users.len(),
{
    let front = users.drop_last();
    let keys = grocery_keys(users);
    let n = grocery_keys(front).len() as int;
    if users.last() == user {
        assert(keys[n] == cache_key(user, SyncScope::Grocery));
        assert(keys[n + 1] == cache_key(user, SyncScope::All));
    } else {
        let i = choose|i: int| 0 <= i < users.len() && users[i] == user;
        assert(front[i] == user);
        grocery_keys_hold(front, user);
        let a = choose|a: int|
            0 <= a < n && grocery_keys(front)[a] == cache_key(user, SyncScope::Grocery);
        assert(keys[a] == cache_key(user, SyncScope::Grocery));
        let b = choose|b: int|
            0 <= b < n && grocery_keys(front)[b] == cache_key(user, SyncScope::All);
        assert(keys[b] == cache_key(user, SyncScope::All));
    }
}

/// Everybody a request's grocery changes reach learns of it from both of their caches, the
/// caller included, and a request that carries nothing moves no cache.
pub proof fn everybody_reached_hears_of_it(
    r: SyncRequest,
    caller: Seq<char>,
    affected: Seq<Seq<char>>,
    user: Seq<char>,
)
    ensures
        has_grocery(r) && (affected.contains(user) || user == caller) ==> moved_keys(
            r,
            caller,
            affected,
        ).contains(cache_key(user, SyncScope::Grocery)) && moved_keys(r, caller, affected).contains(
            cache_key(user, SyncScope::All),
        ),
        !has_mutations(r) ==> moved_keys(r, caller, affected).len() == 0,
{
    if has_grocery(r) && (affected.contains(user) || user == caller) {
        let users = with_caller(affected, caller);
        if affected.contains(user) {
            let i = choose|i: int| 0 <= i < affected.len() && affected[i] == user;
            assert(users[i] == user);
        } else {
            assert(users[affected.len() as int] == user);
        }
        grocery_keys_hold(users, user);
        let part = grocery_keys(users);
        let keys = moved_keys(r, caller, affected);
        assert forall|k: int| 0 <= k < part.len() implies #[trigger] part[k] == keys[k + 1] by {}
        let a = choose|a: int|
            0 <= a < part.len() && part[a] == cache_key(user, SyncScope::Grocery);
        assert(keys[a + 1] == cache_key(user, SyncScope::Grocery));
        let b = choose|b: int| 0 <= b < part.len() && part[b] == cache_key(user, SyncScope::All);
        assert(keys[b + 1] == cache_key(user, SyncScope::All));
    }
}

/// No row is sent twice for having been both echoed and fetched: what is merged in is about
/// other rows, and nothing that was found is lost.
pub proof fn merging_sends_no_row_twice<T>(found: Seq<RemoteView<T>>, fetched: Seq<RemoteView<T>>)
    ensures
        merged(found, fetched).len() >= found.len(),
        merged(found, fetched).take(found.len() as int) == found,
        forall|k: int|
            found.len() <= k < merged(found, fetched).len() ==> !is_among(
                found,
                (#[trigger] merged(found, fetched)[k]).id,
            ),
    decreases fetched.len(),
{
    if fetched.len() == 0 {
        assert(found.take(found.len() as int) =~= found);
    } else {
        let front = merged(found, fetched.drop_last());
        merging_sends_no_row_twice(found, fetched.drop_last());
        let all = merged(found, fetched);
        assert(all.take(found.len() as int) =~= found);
        assert forall|k: int| found.len() <= k < all.len() implies !is_among(
            found,
            (#[trigger] all[k]).id,
        ) by {
            if k < front.len() {
                assert(all[k] == front[k]);
            }
        }
    }
}

/// Each config a response lists stands there once: everything the download holds, and every
/// row the request wrote, with nothing appended that was there already.
pub proof fn a_written_config_is_listed_once(
    changed: Seq<ConfigSyncItem>,
    written: Seq<ConfigSyncItem>,
)
    ensures
        flat_configs(changed, written).len() >= changed.len(),
        flat_configs(changed, written).take(changed.len() as int) == changed,
        forall|k: int|
            changed.len() <= k < flat_configs(changed, written).len() ==> !has_config(
                changed,
                (#[trigger] flat_configs(changed, written)[k]).id,
            ),
        forall|i: int|
            0 <= i < written.len() ==> has_config(
                flat_configs(changed, written),
                (#[trigger] written[i]).id,
            ),
    decreases written.len(),
{
    if written.len() == 0 {
        assert(changed.take(changed.len() as int) =~= changed);
    } else {
        let most = written.drop_last();
        let front = flat_configs(changed, most);
        let all = flat_configs(changed, written);
        a_written_config_is_listed_once(changed, most);
        assert(all.take(changed.len() as int) =~= changed);
        assert forall|k: int| changed.len() <= k < all.len() implies !has_config(
            changed,
            (#[trigger] all[k]).id,
        ) by {
            if k < front.len() {
                assert(all[k] == front[k]);
            }
        }
        assert forall|i: int| 0 <= i < written.len() implies has_config(
            all,
            (#[trigger] written[i]).id,
        ) by {
            if i < most.len() {
                assert(has_config(front, most[i].id));
                let k = choose|k: int| 0 <= k < front.len() && (#[trigger] front[k]).id
                    == most[i].id;
                assert(all[k] == front[k]);
            } else if has_config(changed, written[i].id) {
                let k = choose|k: int| 0 <= k < changed.len() && (#[trigger] changed[k]).id
                    == written[i].id;
                assert(all.take(changed.len() as int)[k] == changed[k]);
                assert(all[k].id == written[i].id);
            } else {
                assert(all[front.len() as int].id == written[i].id);
            }
        }
    }
}

/// A request is received for the scope it names, and for everything where it names none. Its
/// token has to be for the product of that scope, or for none in particular: any other is
/// refused, whatever the body holds, and a body over the bounds is the client's mistake.
pub proof fn a_request_is_received_for_the_scope_it_names(
    claims: &Claims,
    request: &SyncRequest,
    limits: &SyncLimits,
    r: Result<SyncScope, AppError>,
)
    requires
        call_ensures(receive, (claims, request, limits), r),
    ensures
        ({
            let scope = match request.scope {
                Some(scope) => scope,
                None => SyncScope::All,
            };
            let household = scope == SyncScope::All || scope == SyncScope::Todo || scope
                == SyncScope::Grocery;
            let permitted = match claims.product {
                None => true,
                Some(Product::TeddyFyi) => household,
                Some(Product::ScribbleRoute) => !household,
            };
            match r {
                Ok(taken) => taken == scope && permitted && payload_check(*request, *limits) is Ok,
                Err(e) => if permitted {
                    payload_check(*request, *limits) == Err::<(), ErrorView>(e@)
                } else {
                    e@ is Forbidden
                },
            }
        }),
{
}

/// What each scope takes in: the household's scopes their own collections, and the drawing
/// apps' scopes configs. The two Keep scopes upload configs and the two tablet scopes drawings,
/// which only the cloud app reads back, and that one speaks for no tablet.
pub proof fn each_scope_takes_in_its_own(scope: SyncScope, plan: SyncPlan)
    requires
        call_ensures(sync_plan, (scope,), plan),
    ensures
        match scope {
            SyncScope::All => plan.todo && plan.grocery && !plan.scribble,
            SyncScope::Todo => plan.todo && !plan.grocery && !plan.scribble,
            SyncScope::Grocery => !plan.todo && plan.grocery && !plan.scribble,
            _ => !plan.todo && !plan.grocery && plan.scribble,
        },
        match scope {
            SyncScope::ScribbleBox => plan.uploads_drawings && !plan.uploads_configs
                && !plan.downloads_drawings && plan.has_device,
            SyncScope::ScribbleKeep => plan.uploads_drawings && plan.uploads_configs
                && !plan.downloads_drawings && plan.has_device,
            SyncScope::ScribbleKeepCloud => !plan.uploads_drawings && plan.uploads_configs
                && plan.downloads_drawings && !plan.has_device,
            _ => !plan.uploads_drawings && !plan.uploads_configs && !plan.downloads_drawings
                && !plan.has_device,
        },
{
}

/// Who a request writes as, which tablet it speaks for, and how far it reads: the client of its
/// token; the tablet it names, or the account's fallback, for the tablets' scopes and none for
/// any other; and a page at a time for a client that comes back for the rest.
pub proof fn a_request_speaks_for_its_own_tablet(
    claims: &Claims,
    client: String,
    scope: SyncScope,
    requested: Option<Uuid>,
    device: Option<SyncDevice>,
    request: &SyncRequest,
    limits: &SyncLimits,
    page: Option<usize>,
    settled: Option<Uuid>,
    rule: ItemDeviceRule,
)
    requires
        call_ensures(writing_client, (claims,), client),
        call_ensures(request_device, (scope, requested), device),
        call_ensures(download_page, (request, limits), page),
        call_ensures(item_rule, (settled,), rule),
    ensures
        client@ == claims.client_uuid@,
        device is Some <==> scope == SyncScope::ScribbleBox || scope == SyncScope::ScribbleKeep,
        device matches Some(d) ==> match requested {
            Some(id) => d == SyncDevice::Named(id),
            None => d is Fallback,
        },
        page is Some <==> request.supports_paging,
        page matches Some(n) ==> n == limits.download_page_size,
        match settled {
            Some(own) => rule == ItemDeviceRule::RequestDevice(own),
            None => rule is RowMustName,
        },
{
}

/// Which drawings a response lists: the cloud app gets everything that changed, a tablet what it
/// wrote, where it wrote anything, and nobody else any.
pub proof fn a_response_lists_drawings_for_those_that_have_them(
    scope: SyncScope,
    written: usize,
    what: ResponseDrawings,
)
    requires
        call_ensures(response_drawings, (scope, written), what),
    ensures
        what is Changed <==> scope == SyncScope::ScribbleKeepCloud,
        what is Written <==> (scope == SyncScope::ScribbleBox || scope == SyncScope::ScribbleKeep)
            && written > 0,
{
}

/// Whether `all` are the changes found, followed by those fetched for rows that none of the
/// found ones is about, each as it was and in order.
pub open spec fn is_merged<T>(
    all: Vec<RemoteDelta<T>>,
    found: Vec<RemoteDelta<T>>,
    fetched: Vec<RemoteDelta<T>>,
) -> bool {
    remote_views(all@) == remote_views(found@) + remote_views(fetched@).filter(
        |v: RemoteView<T>|
            forall|i: int| 0 <= i < found@.len() ==> (#[trigger] found@[i]).id@ != v.id,
    )
}

proof fn merged_is_appended<T>(found: Seq<RemoteDelta<T>>, fetched: Seq<RemoteView<T>>)
    ensures
        merged(remote_views(found), fetched) == remote_views(found) + fetched.filter(
            |v: RemoteView<T>|
                forall|i: int| 0 <= i < found.len() ==> (#[trigger] found[i]).id@ != v.id,
        ),
    decreases fetched.len(),
{
    reveal(Seq::filter);
    let p = |v: RemoteView<T>|
        forall|i: int| 0 <= i < found.len() ==> (#[trigger] found[i]).id@ != v.id;
    let head = remote_views(found);
    if fetched.len() > 0 {
        let front = fetched.drop_last();
        let last = fetched.last();
        merged_is_appended(found, front);
        assert(is_among(head, last.id) <==> !p(last)) by {
            if is_among(head, last.id) {
                let i = choose|i: int| 0 <= i < head.len() && (#[trigger] head[i]).id == last.id;
                assert(found[i].id@ == last.id);
            }
            if !p(last) {
                let i = choose|i: int|
                    0 <= i < found.len() && (#[trigger] found[i]).id@ == last.id;
                assert(head[i].id == last.id);
            }
        }
        if p(last) {
            assert(head + front.filter(p).push(last) =~= (head + front.filter(p)).push(last));
        }
    } else {
        assert(head + fetched.filter(p) =~= head);
    }
}

/// Merging keeps every change that was found, in place and as it was, and adds after them those
/// that were fetched for other rows, in order.
pub proof fn what_was_found_comes_before_what_was_fetched<T>(
    found: Vec<RemoteDelta<T>>,
    fetched: Vec<RemoteDelta<T>>,
    all: Vec<RemoteDelta<T>>,
)
    requires
        call_ensures(merge_changes, (found, fetched), all),
    ensures
        is_merged(all, found, fetched),
{
    merged_is_appended(found@, remote_views(fetched@));
}

/// The flat list of configs is what the download holds, followed by what the request wrote that
/// is not there yet, each item as it is and in order.
pub proof fn what_was_written_follows_what_changed(
    changed: Vec<ConfigSyncItem>,
    written: Vec<ConfigSyncItem>,
    all: Vec<ConfigSyncItem>,
)
    requires
        call_ensures(response_configs, (changed, written), all),
    ensures
        all@ == changed@ + written@.filter(
            |item: ConfigSyncItem|
                forall|i: int| 0 <= i < changed@.len() ==> (#[trigger] changed@[i]).id != item.id,
        ),
{
    flat_is_appended(changed@, written@);
}

proof fn flat_is_appended(changed: Seq<ConfigSyncItem>, written: Seq<ConfigSyncItem>)
    ensures
        flat_configs(changed, written) == changed + written.filter(
            |item: ConfigSyncItem|
                forall|i: int| 0 <= i < changed.len() ==> (#[trigger] changed[i]).id != item.id,
        ),
    decreases written.len(),
{
    reveal(Seq::filter);
    let p = |item: ConfigSyncItem|
        forall|i: int| 0 <= i < changed.len() ==> (#[trigger] changed[i]).id != item.id;
    if written.len() > 0 {
        let front = written.drop_last();
        let last = written.last();
        flat_is_appended(changed, front);
        assert(has_config(changed, last.id) <==> !p(last)) by {
            if has_config(changed, last.id) {
                let i = choose|i: int| 0 <= i < changed.len() && (#[trigger] changed[i]).id == last.id;
                assert(changed[i].id == last.id);
            }
        }
        if p(last) {
            assert(changed + front.filter(p).push(last) =~= (changed + front.filter(p)).push(last));
        }
    } else {
        assert(changed + written.filter(p) =~= changed);
    }
}

/// Whether a list of ids and statuses is those of several reports, one report after the other.
pub open spec fn is_of(r: UploadReport, one: UploadReport, other: UploadReport) -> bool {
    &&& r.success_ids@.len() == one.success_ids@.len() + other.success_ids@.len()
    &&& forall|k: int|
        0 <= k < one.success_ids@.len() ==> (#[trigger] r.success_ids@[k])@
            == one.success_ids@[k]@
    &&& forall|k: int|
        0 <= k < other.success_ids@.len() ==> (#[trigger] other.success_ids@[k])@
            == r.success_ids@[one.success_ids@.len() + k]@
    &&& r.upload_status@.len() == one.upload_status@.len() + other.upload_status@.len()
    &&& forall|k: int|
        0 <= k < one.upload_status@.len() ==> (#[trigger] r.upload_status@[k])@
            == one.upload_status@[k]@
    &&& forall|k: int|
        0 <= k < other.upload_status@.len() ==> (#[trigger] other.upload_status@[k])@
            == r.upload_status@[one.upload_status@.len() + k]@
}

proof fn concatenated_reports(r: UploadReport, one: UploadReport, other: UploadReport)
    requires
        r.acked() == one.acked() + other.acked(),
        r.reported() == one.reported() + other.reported(),
    ensures
        is_of(r, one, other),
{
    assert(r.acked().len() == r.success_ids@.len());
    assert(r.reported().len() == r.upload_status@.len());
    assert forall|k: int| 0 <= k < one.success_ids@.len() implies (#[trigger] r.success_ids@[k])@
        == one.success_ids@[k]@ by {
        assert(r.acked()[k] == one.acked()[k]);
    }
    assert forall|k: int| 0 <= k < other.success_ids@.len() implies (
    #[trigger] other.success_ids@[k])@ == r.success_ids@[one.success_ids@.len() + k]@ by {
        assert(r.acked()[one.acked().len() + k] == other.acked()[k]);
    }
    assert forall|k: int| 0 <= k < one.upload_status@.len() implies (
    #[trigger] r.upload_status@[k])@ == one.upload_status@[k]@ by {
        assert(r.reported()[k] == one.reported()[k]);
    }
    assert forall|k: int| 0 <= k < other.upload_status@.len() implies (
    #[trigger] other.upload_status@[k])@ == r.upload_status@[one.upload_status@.len() + k]@ by {
        assert(r.reported()[one.reported().len() + k] == other.reported()[k]);
    }
}

/// Reports are brought together by putting one after the other: nothing is dropped, changed or
/// moved. A report of changes holds their ids and statuses, and one of a flat list the texts of
/// the ids of the rows it landed on.
pub proof fn a_report_after_another_keeps_both(
    one: UploadReport,
    other: UploadReport,
    both: UploadReport,
    success_ids: Vec<String>,
    landed: Vec<Uuid>,
    upload_status: Vec<SuccessResult>,
    of_changes: UploadReport,
    of_items: UploadReport,
)
    requires
        call_ensures(UploadReport::and, (one, other), both),
        call_ensures(UploadReport::of_changes, (success_ids, upload_status), of_changes),
        call_ensures(UploadReport::of_items, (&landed, upload_status), of_items),
    ensures
        is_of(both, one, other),
        of_changes.success_ids@.len() == success_ids@.len(),
        forall|k: int|
            0 <= k < success_ids@.len() ==> (#[trigger] of_changes.success_ids@[k])@
                == success_ids@[k]@,
        of_items.success_ids@.len() == landed@.len(),
        forall|k: int|
            0 <= k < landed@.len() ==> (#[trigger] of_items.success_ids@[k])@ == hyphenated(
                landed@[k].bits,
            ),
        forall|r: UploadReport|
            r == of_changes || r == of_items ==> (#[trigger] r.upload_status)@.len()
                == upload_status@.len() && forall|k: int|
                0 <= k < upload_status@.len() ==> (#[trigger] r.upload_status@[k])@
                    == upload_status@[k]@,
{
    concatenated_reports(both, one, other);
    assert(of_changes.acked().len() == success_ids@.len());
    assert(texts(success_ids@).len() == success_ids@.len());
    assert forall|k: int| 0 <= k < success_ids@.len() implies (
    #[trigger] of_changes.success_ids@[k])@ == success_ids@[k]@ by {
        assert(of_changes.acked()[k] == texts(success_ids@)[k]);
    }
    assert(of_items.acked().len() == landed@.len());
    assert forall|k: int| 0 <= k < landed@.len() implies (#[trigger] of_items.success_ids@[k])@
        == hyphenated(landed@[k].bits) by {
        assert(of_items.acked()[k] == id_texts(landed@)[k]);
    }
    assert forall|r: UploadReport| r == of_changes || r == of_items implies (
    #[trigger] r.upload_status)@.len() == upload_status@.len() && forall|k: int|
        0 <= k < upload_status@.len() ==> (#[trigger] r.upload_status@[k])@
            == upload_status@[k]@ by {
        assert(r.reported() == status_views(upload_status@));
        assert(r.reported().len() == r.upload_status@.len());
        assert forall|k: int| 0 <= k < upload_status@.len() implies (
        #[trigger] r.upload_status@[k])@ == upload_status@[k]@ by {
            assert(r.reported()[k] == status_views(upload_status@)[k]);
        }
    }
}

/// Consolidating the reports of a request's uploads puts them one after the other: with one more
/// upload, the consolidated report is the one without it followed by that upload's own; and of
/// no uploads there is nothing to report.
pub proof fn reports_are_consolidated_one_after_the_other(
    parts: Vec<UploadReport>,
    more: Vec<UploadReport>,
    last: UploadReport,
    before: UploadReport,
    after: UploadReport,
)
    requires
        call_ensures(consolidate, (parts,), before),
        call_ensures(consolidate, (more,), after),
        more@ == parts@.push(last),
    ensures
        is_of(after, before, last),
        parts@.len() == 0 ==> before.success_ids@.len() == 0 && before.upload_status@.len() == 0,
{
    assert(more@.drop_last() =~= parts@);
    concatenated_reports(after, before, last);
    if parts@.len() == 0 {
        assert(before.acked().len() == before.success_ids@.len());
        assert(before.reported().len() == before.upload_status@.len());
    }
}

/// A response says what its parts came to: the reports of the tasks, the groceries and the
/// drawing apps in this order; of each collection the changes its uploads found and then those
/// fetched for other rows; the flat lists as they are; and where the client resumes.
pub proof fn a_response_says_what_its_parts_came_to(
    todo: SyncPart<RemoteTodo>,
    grocery: SyncPart<RemoteGrocery>,
    scribble: SyncPart<RemoteScribble>,
    configs: Vec<ConfigSyncItem>,
    drawings: Vec<StoredDrawing>,
    cursor: ReplyCursor,
    r: SyncResponse,
)
    requires
        call_ensures(sync_response, (todo, grocery, scribble, configs, drawings, cursor), r),
    ensures
        is_merged(r.remote_todo_list_changes, todo.found.lists, todo.fetched.lists),
        is_merged(r.remote_todo_changes, todo.found.items, todo.fetched.items),
        is_merged(r.remote_grocery_list_changes, grocery.found.lists, grocery.fetched.lists),
        is_merged(r.remote_grocery_list_member_changes, grocery.found.members, grocery.fetched.members),
        is_merged(r.remote_store_changes, grocery.found.stores, grocery.fetched.stores),
        is_merged(r.remote_category_changes, grocery.found.categories, grocery.fetched.categories),
        is_merged(r.remote_grocery_changes, grocery.found.items, grocery.fetched.items),
        is_merged(r.remote_grocery_item_store_info_changes, grocery.found.store_infos, grocery.fetched.store_infos),
        is_merged(r.remote_config_changes, scribble.found.configs, scribble.fetched.configs),
        is_merged(r.remote_drawing_changes, scribble.found.drawings, scribble.fetched.drawings),
        r.configs == configs,
        r.drawings == drawings,
        r.server_timestamp == cursor.server_timestamp,
        r.has_more == cursor.has_more,
        ({
            let a = todo.report.success_ids@;
            let b = grocery.report.success_ids@;
            let c = scribble.report.success_ids@;
            &&& r.success_ids@.len() == a.len() + b.len() + c.len()
            &&& forall|k: int| 0 <= k < a.len() ==> (#[trigger] a[k])@ == r.success_ids@[k]@
            &&& forall|k: int|
                0 <= k < b.len() ==> (#[trigger] b[k])@ == r.success_ids@[a.len() + k]@
            &&& forall|k: int|
                0 <= k < c.len() ==> (#[trigger] c[k])@ == r.success_ids@[a.len() + b.len() + k]@
        }),
        ({
            let a = todo.report.upload_status@;
            let b = grocery.report.upload_status@;
            let c = scribble.report.upload_status@;
            &&& r.upload_status@.len() == a.len() + b.len() + c.len()
            &&& forall|k: int| 0 <= k < a.len() ==> (#[trigger] a[k])@ == r.upload_status@[k]@
            &&& forall|k: int|
                0 <= k < b.len() ==> (#[trigger] b[k])@ == r.upload_status@[a.len() + k]@
            &&& forall|k: int|
                0 <= k < c.len() ==> (#[trigger] c[k])@ == r.upload_status@[a.len() + b.len() + k]@
        }),
{
    merged_is_appended(todo.found.lists@, remote_views(todo.fetched.lists@));
    merged_is_appended(todo.found.items@, remote_views(todo.fetched.items@));
    merged_is_appended(grocery.found.lists@, remote_views(grocery.fetched.lists@));
    merged_is_appended(grocery.found.members@, remote_views(grocery.fetched.members@));
    merged_is_appended(grocery.found.stores@, remote_views(grocery.fetched.stores@));
    merged_is_appended(grocery.found.categories@, remote_views(grocery.fetched.categories@));
    merged_is_appended(grocery.found.items@, remote_views(grocery.fetched.items@));
    merged_is_appended(grocery.found.store_infos@, remote_views(grocery.fetched.store_infos@));
    merged_is_appended(scribble.found.configs@, remote_views(scribble.fetched.configs@));
    merged_is_appended(scribble.found.drawings@, remote_views(scribble.fetched.drawings@));
    let ids = texts(r.success_ids@);
    let a = todo.report.acked();
    let b = grocery.report.acked();
    let c = scribble.report.acked();
    assert(ids.len() == a.len() + b.len() + c.len());
    assert forall|k: int| 0 <= k < todo.report.success_ids@.len() implies (
    #[trigger] todo.report.success_ids@[k])@ == r.success_ids@[k]@ by {
        assert(ids[k] == a[k]);
    }
    assert forall|k: int| 0 <= k < grocery.report.success_ids@.len() implies (
    #[trigger] grocery.report.success_ids@[k])@ == r.success_ids@[a.len() + k]@ by {
        assert(ids[a.len() + k] == b[k]);
    }
    assert forall|k: int| 0 <= k < scribble.report.success_ids@.len() implies (
    #[trigger] scribble.report.success_ids@[k])@ == r.success_ids@[a.len() + b.len() + k]@ by {
        assert(ids[a.len() + b.len() + k] == c[k]);
    }
    let statuses = status_views(r.upload_status@);
    let x = todo.report.reported();
    let y = grocery.report.reported();
    let z = scribble.report.reported();
    assert(statuses.len() == x.len() + y.len() + z.len());
    assert forall|k: int| 0 <= k < todo.report.upload_status@.len() implies (
    #[trigger] todo.report.upload_status@[k])@ == r.upload_status@[k]@ by {
        assert(statuses[k] == x[k]);
    }
    assert forall|k: int| 0 <= k < grocery.report.upload_status@.len() implies (
    #[trigger] grocery.report.upload_status@[k])@ == r.upload_status@[x.len() + k]@ by {
        assert(statuses[x.len() + k] == y[k]);
    }
    assert forall|k: int| 0 <= k < scribble.report.upload_status@.len() implies (
    #[trigger] scribble.report.upload_status@[k])@ == r.upload_status@[x.len() + y.len() + k]@ by {
        assert(statuses[x.len() + y.len() + k] == z[k]);
    }
}

/// Whether a request moves a user's cache of a scope: the caller's overall cache where it
/// carries anything, the two grocery caches of everybody its grocery changes reach, and the
/// caller's caches of the scopes whose status looks at the tasks, drawings or configs it
/// carries.
pub open spec fn moves(
    r: SyncRequest,
    caller: Seq<char>,
    affected: Seq<String>,
    user: Seq<char>,
    scope: SyncScope,
) -> bool {
    let groceries = r.grocery_list_changes@.len() + r.grocery_list_member_changes@.len()
        + r.store_changes@.len() + r.category_changes@.len() + r.grocery_changes@.len()
        + r.grocery_item_store_info_changes@.len() > 0;
    let tasks = r.todo_list_changes@.len() + r.todo_changes@.len() > 0;
    let pictures = r.drawing_changes@.len() + r.drawings@.len() > 0;
    let settings = r.config_changes@.len() + r.configs@.len() > 0;
    let reached = user == caller || exists|i: int|
        0 <= i < affected.len() && (#[trigger] affected[i])@ == user;
    match scope {
        SyncScope::All => (user == caller && (groceries || tasks || pictures || settings)) || (
        groceries && reached),
        SyncScope::Grocery => groceries && reached,
        SyncScope::Todo => tasks && user == caller,
        SyncScope::ScribbleBox => pictures && user == caller,
        SyncScope::ScribbleKeep => settings && user == caller,
        SyncScope::ScribbleKeepCloud => (pictures || settings) && user == caller,
    }
}

proof fn grocery_keys_are_of_users(users: Seq<Seq<char>>, key: Seq<char>)
    requires
        grocery_keys(users).contains(key),
    ensures
        exists|i: int|
            0 <= i < users.len() && (key == cache_key(#[trigger] users[i], SyncScope::Grocery)
                || key == cache_key(users[i], SyncScope::All)),
    decreases users.len(),
{
    let keys = grocery_keys(users);
    let k = choose|k: int| 0 <= k < keys.len() && keys[k] == key;
    let front = users.drop_last();
    let before = grocery_keys(front);
    if k < before.len() {
        assert(before[k] == key);
        grocery_keys_are_of_users(front, key);
        let i = choose|i: int|
            0 <= i < front.len() && (key == cache_key(#[trigger] front[i], SyncScope::Grocery)
                || key == cache_key(front[i], SyncScope::All));
        assert(users[i] == front[i]);
    } else {
        assert(users[users.len() - 1] == users.last());
    }
}

/// Exactly the caches that a request concerns move: the key of each of them is among those that
/// do, and each key that moves is one of theirs.
pub proof fn exactly_the_caches_concerned_move(
    r: &SyncRequest,
    caller: &str,
    affected: &Vec<String>,
    keys: Vec<String>,
    user: Seq<char>,
    scope: SyncScope,
    k: int,
)
    requires
        call_ensures(caches_to_move, (r, caller, affected), keys),
    ensures
        moves(*r, caller@, affected@, user, scope) ==> exists|j: int|
            0 <= j < keys@.len() && (#[trigger] keys@[j])@ == cache_key(user, scope),
        0 <= k < keys@.len() ==> exists|u: Seq<char>, s: SyncScope| #[trigger]
            moves(*r, caller@, affected@, u, s) && keys@[k]@ == cache_key(u, s),
{
    let all = texts(affected@);
    let moved = moved_keys(*r, caller@, all);
    let users = with_caller(all, caller@);
    let one = seq![cache_key(caller@, SyncScope::All)];
    let two = if has_grocery(*r) {
        grocery_keys(users)
    } else {
        seq![]
    };
    let three = if has_todo(*r) {
        seq![cache_key(caller@, SyncScope::Todo)]
    } else {
        seq![]
    };
    let four = if has_drawings(*r) {
        seq![
            cache_key(caller@, SyncScope::ScribbleBox),
            cache_key(caller@, SyncScope::ScribbleKeepCloud),
        ]
    } else {
        seq![]
    };
    let five = if has_configs(*r) {
        seq![
            cache_key(caller@, SyncScope::ScribbleKeep),
            cache_key(caller@, SyncScope::ScribbleKeepCloud),
        ]
    } else {
        seq![]
    };
    if has_mutations(*r) {
        assert(moved == one + two + three + four + five);
    }
    assert(texts(keys@) == moved);
    if moves(*r, caller@, affected@, user, scope) {
        if scope == SyncScope::Grocery || (scope == SyncScope::All && user != caller@) {
            if user != caller@ {
                let i = choose|i: int| 0 <= i < affected@.len() && (#[trigger] affected@[i])@ == user;
                assert(all[i] == user);
            }
            everybody_reached_hears_of_it(*r, caller@, all, user);
        } else {
            let at: int = match scope {
                SyncScope::All => 0,
                SyncScope::Todo => 1 + two.len() as int,
                SyncScope::ScribbleBox => 1 + two.len() + three.len() as int,
                SyncScope::ScribbleKeep => 1 + two.len() + three.len() + four.len() as int,
                _ => if has_drawings(*r) {
                    1 + two.len() + three.len() + 1 as int
                } else {
                    1 + two.len() + three.len() + four.len() + 1 as int
                },
            };
            assert(moved[at] == cache_key(user, scope));
        }
        assert(moved.contains(cache_key(user, scope)));
        let j = choose|j: int| 0 <= j < moved.len() && moved[j] == cache_key(user, scope);
        assert(keys@[j]@ == moved[j]);
    }
    if 0 <= k < keys@.len() {
        let key = moved[k];
        assert(keys@[k]@ == key);
        let n2 = 1 + two.len() as int;
        let n3 = n2 + three.len() as int;
        let n4 = n3 + four.len() as int;
        if k == 0 {
            assert(moves(*r, caller@, affected@, caller@, SyncScope::All));
        } else if k < n2 {
            assert(two[k - 1] == key);
            grocery_keys_are_of_users(users, key);
            let i = choose|i: int|
                0 <= i < users.len() && (key == cache_key(#[trigger] users[i], SyncScope::Grocery)
                    || key == cache_key(users[i], SyncScope::All));
            if i < all.len() {
                assert(affected@[i]@ == users[i]);
            }
            assert(moves(*r, caller@, affected@, users[i], SyncScope::Grocery));
            assert(moves(*r, caller@, affected@, users[i], SyncScope::All));
        } else if k < n3 {
            assert(three[k - n2] == key);
            assert(moves(*r, caller@, affected@, caller@, SyncScope::Todo));
        } else if k < n4 {
            assert(four[k - n3] == key);
            assert(moves(*r, caller@, affected@, caller@, SyncScope::ScribbleBox));
            assert(moves(*r, caller@, affected@, caller@, SyncScope::ScribbleKeepCloud));
        } else {
            assert(five[k - n4] == key);
            assert(moves(*r, caller@, affected@, caller@, SyncScope::ScribbleKeep));
            assert(moves(*r, caller@, affected@, caller@, SyncScope::ScribbleKeepCloud));
        }
    }
}

/// A request carries groceries exactly if one of its six grocery vectors does, and changes
/// exactly if any of the twelve does.
pub proof fn a_request_carries_what_its_vectors_hold(r: &SyncRequest, grocery: bool, any: bool)
    requires
        call_ensures(carries_grocery, (r,), grocery),
        call_ensures(carries_mutations, (r,), any),
    ensures
        !grocery <==> r.grocery_list_changes@.len() == 0 && r.grocery_list_member_changes@.len()
            == 0 && r.store_changes@.len() == 0 && r.category_changes@.len() == 0
            && r.grocery_changes@.len() == 0 && r.grocery_item_store_info_changes@.len() == 0,
        !any <==> !grocery && r.todo_list_changes@.len() == 0 && r.todo_changes@.len() == 0
            && r.config_changes@.len() == 0 && r.configs@.len() == 0 && r.drawing_changes@.len()
            == 0 && r.drawings@.len() == 0,
{
}

} // verus!
