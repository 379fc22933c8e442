//! What a client is owed of the groceries its account can see.
//!
//! A first sync is owed everything; a later one what other clients wrote after its cursor.

use crate::instant::{initial_sync, is_initial_sync, Instant};
use crate::sync::download::page_bound;
use crate::sync::grocery::categories::CategoryData;
use crate::sync::grocery::grocery_item_store_info::{
    entry_id, entry_text, GroceryItemStoreInfoData,
};
use crate::sync::grocery::grocery_items::GroceryItemData;
use crate::sync::grocery::grocery_list_members::GroceryListMemberData;
use crate::sync::grocery::grocery_lists::GroceryListData;
use crate::sync::grocery::stores::StoreData;
use crate::sync::paging::{reported_instant, trim_page_at, trim_size, PageAt};
use crate::sync::types::{
    download_operation, operation_of, remote_views, OperationType, RemoteDelta, RemoteView,
};
use crate::text::{is_text, opt_text};
use vstd::prelude::*;

verus! {

/// A row a download can carry.
pub trait Downloaded: Sized {
    /// The id clients know the row by.
    spec fn client_id(&self) -> Seq<char>;

    spec fn row_version(&self) -> i32;

    spec fn is_tombstone(&self) -> bool;

    /// The id clients know the row by.
    fn client_id_of(&self) -> (id: String)
        ensures
            id@ == self.client_id(),
    ;

    fn version_of(&self) -> (version: i32)
        ensures
            version == self.row_version(),
    ;

    fn tombstone(&self) -> (b: bool)
        ensures
            b == self.is_tombstone(),
    ;
}

/// A row as a change the server sends.
pub open spec fn row_change<T: Downloaded>(row: T) -> RemoteView<T> {
    RemoteView {
        id: row.client_id(),
        operation_type: download_operation(row.is_tombstone()),
        version: row.row_version(),
        data: row,
    }
}

/// A row with when it was last written, and by which client.
#[derive(Debug)]
pub struct Changed<T> {
    pub row: T,
    pub updated_at: Instant,
    pub updated_by_client: Option<String>,
}

/// Whether a client is owed a row: on its first sync in any case, and later where the row was
/// written after its cursor and not by the client itself.
pub open spec fn owed<T>(c: Changed<T>, since: Option<Instant>, client: Seq<char>) -> bool {
    initial_sync(since) || (c.updated_at.is_after(since->0) && opt_text(c.updated_by_client)
        != Some(client))
}

/// The rows a client is owed, as the changes the server sends, in order.
pub open spec fn owed_changes<T: Downloaded>(
    rows: Seq<Changed<T>>,
    since: Option<Instant>,
    client: Seq<char>,
) -> Seq<RemoteView<T>>
    decreases rows.len(),
{
    if rows.len() == 0 {
        seq![]
    } else {
        let front = owed_changes(rows.drop_last(), since, client);
        if owed(rows.last(), since, client) {
            front.push(row_change(rows.last().row))
        } else {
            front
        }
    }
}

/// The rows a client is owed, as the changes the server sends.
pub fn row_changes<T: Downloaded>(
    rows: Vec<Changed<T>>,
    since: Option<Instant>,
    client_id: &str,
) -> (changes: Vec<RemoteDelta<T>>)
    ensures
        remote_views(changes@) == owed_changes(rows@, since, client_id@),
{
    let ghost all = rows@;
    let first = is_initial_sync(since);
    let mut changes: Vec<RemoteDelta<T>> = Vec::new();
    assert(all.take(0) =~= seq![]);
    assert(remote_views(changes@) =~= seq![]);
    for changed in it: rows.into_iter()
        invariant
            it.seq() == all,
            first == initial_sync(since),
            remote_views(changes@) == owed_changes(
                all.take(it.index() as int),
                since,
                client_id@,
            ),
    {
        let ghost at = it.index() as int;
        let ghost before = changes@;
        let theirs = match since {
            Some(cursor) => changed.updated_at.after(cursor) && !is_text(
                &changed.updated_by_client,
                client_id,
            ),
            None => true,
        };
        proof {
            assert(changed == all[at]);
            assert(all.take(at + 1).drop_last() =~= all.take(at));
            assert(all.take(at + 1).last() == all[at]);
        }
        if first || theirs {
            let row = changed.row;
            let id = row.client_id_of();
            let operation_type = operation_of(row.tombstone());
            let version: i32 = row.version_of();
            let change = RemoteDelta { id, operation_type, version, data: row };
            let ghost sent = change@;
            changes.push(change);
            assert(remote_views(changes@) =~= remote_views(before).push(sent));
        }
    }
    assert(all.take(all.len() as int) =~= all);
    changes
}

impl Downloaded for GroceryListData {
    open spec fn client_id(&self) -> Seq<char> {
        self.id@
    }

    open spec fn row_version(&self) -> i32 {
        self.version
    }

    open spec fn is_tombstone(&self) -> bool {
        self.is_deleted
    }

    fn client_id_of(&self) -> (id: String) {
        self.id.clone()
    }

    fn version_of(&self) -> (version: i32) {
        self.version
    }

    fn tombstone(&self) -> (b: bool) {
        self.is_deleted
    }
}

impl Downloaded for GroceryListMemberData {
    open spec fn client_id(&self) -> Seq<char> {
        self.id@
    }

    open spec fn row_version(&self) -> i32 {
        self.version
    }

    open spec fn is_tombstone(&self) -> bool {
        self.is_deleted
    }

    fn client_id_of(&self) -> (id: String) {
        self.id.clone()
    }

    fn version_of(&self) -> (version: i32) {
        self.version
    }

    fn tombstone(&self) -> (b: bool) {
        self.is_deleted
    }
}

impl Downloaded for StoreData {
    open spec fn client_id(&self) -> Seq<char> {
        self.id@
    }

    open spec fn row_version(&self) -> i32 {
        self.version
    }

    open spec fn is_tombstone(&self) -> bool {
        self.is_deleted
    }

    fn client_id_of(&self) -> (id: String) {
        self.id.clone()
    }

    fn version_of(&self) -> (version: i32) {
        self.version
    }

    fn tombstone(&self) -> (b: bool) {
        self.is_deleted
    }
}

impl Downloaded for CategoryData {
    open spec fn client_id(&self) -> Seq<char> {
        self.id@
    }

    open spec fn row_version(&self) -> i32 {
        self.version
    }

    open spec fn is_tombstone(&self) -> bool {
        self.is_deleted
    }

    fn client_id_of(&self) -> (id: String) {
        self.id.clone()
    }

    fn version_of(&self) -> (version: i32) {
        self.version
    }

    fn tombstone(&self) -> (b: bool) {
        self.is_deleted
    }
}

impl Downloaded for GroceryItemData {
    open spec fn client_id(&self) -> Seq<char> {
        self.id@
    }

    open spec fn row_version(&self) -> i32 {
        self.version
    }

    open spec fn is_tombstone(&self) -> bool {
        self.is_deleted
    }

    fn client_id_of(&self) -> (id: String) {
        self.id.clone()
    }

    fn version_of(&self) -> (version: i32) {
        self.version
    }

    fn tombstone(&self) -> (b: bool) {
        self.is_deleted
    }
}

impl Downloaded for GroceryItemStoreInfoData {
    open spec fn client_id(&self) -> Seq<char> {
        entry_id(self.grocery_item_id@, self.store_id@)
    }

    open spec fn row_version(&self) -> i32 {
        self.version
    }

    open spec fn is_tombstone(&self) -> bool {
        self.is_deleted
    }

    fn client_id_of(&self) -> (id: String) {
        entry_text(self.grocery_item_id.as_str(), self.store_id.as_str())
    }

    fn version_of(&self) -> (version: i32) {
        self.version
    }

    fn tombstone(&self) -> (b: bool) {
        self.is_deleted
    }
}

/// Rows of the grocery tables that an account can see.
pub struct GroceryRows {
    pub lists: Vec<Changed<GroceryListData>>,
    pub members: Vec<Changed<GroceryListMemberData>>,
    pub stores: Vec<Changed<StoreData>>,
    pub categories: Vec<Changed<CategoryData>>,
    pub items: Vec<Changed<GroceryItemData>>,
    pub store_infos: Vec<Changed<GroceryItemStoreInfoData>>,
}

/// Changes to the grocery tables that the server sends.
pub struct RemoteGrocery {
    pub lists: Vec<RemoteDelta<GroceryListData>>,
    pub members: Vec<RemoteDelta<GroceryListMemberData>>,
    pub stores: Vec<RemoteDelta<StoreData>>,
    pub categories: Vec<RemoteDelta<CategoryData>>,
    pub items: Vec<RemoteDelta<GroceryItemData>>,
    pub store_infos: Vec<RemoteDelta<GroceryItemStoreInfoData>>,
}

/// Whether `changes` are what a download out of `rows` sends.
pub open spec fn carries<T: Downloaded>(
    changes: Vec<RemoteDelta<T>>,
    rows: Seq<Changed<T>>,
    since: Option<Instant>,
    client: Seq<char>,
) -> bool {
    remote_views(changes@) == owed_changes(rows, since, client)
}

/// What a client is owed, out of the rows its account can see.
pub fn fetch_remote_grocery_mutations(
    last_synced_at: Option<Instant>,
    client_id: &str,
    rows: GroceryRows,
) -> (r: RemoteGrocery)
    ensures
        carries(r.lists, rows.lists@, last_synced_at, client_id@),
        carries(r.members, rows.members@, last_synced_at, client_id@),
        carries(r.stores, rows.stores@, last_synced_at, client_id@),
        carries(r.categories, rows.categories@, last_synced_at, client_id@),
        carries(r.items, rows.items@, last_synced_at, client_id@),
        carries(r.store_infos, rows.store_infos@, last_synced_at, client_id@),
{
    RemoteGrocery {
        lists: row_changes(rows.lists, last_synced_at, client_id),
        members: row_changes(rows.members, last_synced_at, client_id),
        stores: row_changes(rows.stores, last_synced_at, client_id),
        categories: row_changes(rows.categories, last_synced_at, client_id),
        items: row_changes(rows.items, last_synced_at, client_id),
        store_infos: row_changes(rows.store_infos, last_synced_at, client_id),
    }
}

/// What a page of rows turned out to be.
#[derive(Debug)]
pub enum ChangedPage<T> {
    /// The page to serve, and the client's next cursor where it was cut short.
    Serve { rows: Vec<Changed<T>>, next_cursor: Option<Instant> },
    /// More than a page shares one instant, which is read whole and served instead.
    Reread { at: Instant },
}

/// What a page cut from `rows` serves and hands back.
pub open spec fn is_changed_page_of<T>(
    rows: Seq<Changed<T>>,
    page_size: Option<usize>,
    now: Instant,
    page: ChangedPage<T>,
) -> bool {
    let size = page_bound(page_size) as int;
    match page {
        ChangedPage::Serve { rows: kept, next_cursor: None } => {
            rows.len() <= size && kept@ == rows
        },
        ChangedPage::Serve { rows: kept, next_cursor: Some(at) } => {
            &&& rows.len() > size
            &&& 0 < kept@.len() <= size
            &&& kept@ == rows.take(kept@.len() as int)
            &&& at == reported_instant(
                kept@.last().updated_at.spec_micros(),
                kept@.last().updated_at,
            )
            &&& kept@.last().updated_at.spec_micros() < rows[size].updated_at.spec_micros()
            &&& forall|i: int|
                kept@.len() <= i < size ==> (#[trigger] rows[i]).updated_at.spec_micros()
                    >= rows[size].updated_at.spec_micros()
        },
        ChangedPage::Reread { at } => {
            &&& rows.len() > size
            &&& at == reported_instant(rows[size].updated_at.spec_micros(), now)
            &&& forall|i: int|
                0 <= i < size ==> (#[trigger] rows[i]).updated_at.spec_micros()
                    >= rows[size].updated_at.spec_micros()
        },
    }
}

/// Cuts a page of rows so that it ends on a whole instant. `rows` are in ascending order of
/// their instants and were read with one row past the page; `now` is reported in place of an
/// instant outside the calendar.
pub fn cut_changed<T>(rows: Vec<Changed<T>>, page_size: Option<usize>, now: Instant) -> (page:
    ChangedPage<T>)
    requires
        forall|i: int| 0 <= i < rows@.len() ==> (#[trigger] rows@[i]).updated_at.wf(),
    ensures
        is_changed_page_of(rows@, page_size, now, page),
{
    let written = |c: &Changed<T>| -> (at: Instant)
        ensures
            at == c.updated_at,
        { c.updated_at };
    let mut kept = rows;
    let size = trim_size(page_size);
    match trim_page_at(&mut kept, size, written, now) {
        PageAt::Complete => ChangedPage::Serve { rows: kept, next_cursor: None },
        PageAt::Truncated { next_cursor } => ChangedPage::Serve {
            rows: kept,
            next_cursor: Some(next_cursor),
        },
        PageAt::WholeInstant { at } => ChangedPage::Reread { at },
    }
}

/// Whether a change stands for a row that a client is owed.
pub open spec fn comes_from<T: Downloaded>(
    change: RemoteView<T>,
    rows: Seq<Changed<T>>,
    since: Option<Instant>,
    client: Seq<char>,
) -> bool {
    exists|i: int|
        0 <= i < rows.len() && owed(#[trigger] rows[i], since, client) && change == row_change(
            rows[i].row,
        )
}

/// What is sent is what is owed, and nothing else: on a first sync every row, and later what
/// somebody else wrote after the cursor, so that no client is sent its own writes back.
pub proof fn no_client_hears_its_own_echo<T: Downloaded>(
    rows: Seq<Changed<T>>,
    since: Option<Instant>,
    client: Seq<char>,
    change: RemoteView<T>,
)
    ensures
        owed_changes(rows, since, client).contains(change) <==> comes_from(
            change,
            rows,
            since,
            client,
        ),
    decreases rows.len(),
{
    if rows.len() > 0 {
        let front = rows.drop_last();
        no_client_hears_its_own_echo(front, since, client, change);
        let all = owed_changes(rows, since, client);
        let most = owed_changes(front, since, client);
        if all.contains(change) {
            let k = choose|k: int| 0 <= k < all.len() && all[k] == change;
            if k < most.len() {
                assert(most[k] == change);
                let i = choose|i: int|
                    0 <= i < front.len() && owed(#[trigger] front[i], since, client) && change
                        == row_change(front[i].row);
                assert(rows[i] == front[i]);
            } else {
                assert(owed(rows[rows.len() - 1], since, client));
            }
            assert(comes_from(change, rows, since, client));
        }
        if comes_from(change, rows, since, client) {
            let i = choose|i: int|
                0 <= i < rows.len() && owed(#[trigger] rows[i], since, client) && change
                    == row_change(rows[i].row);
            if i < front.len() {
                assert(front[i] == rows[i]);
                let k = choose|k: int| 0 <= k < most.len() && most[k] == change;
                assert(all[k] == change);
            } else {
                assert(all[most.len() as int] == change);
            }
        }
    }
}

/// Whether a row is due to a client: every row to one that has no cursor, or one in the first
/// second of the epoch or before, and to any other what was written later than its cursor and
/// not by itself.
pub open spec fn is_due<T>(c: Changed<T>, since: Option<Instant>, client: Seq<char>) -> bool {
    match since {
        None => true,
        Some(cursor) => cursor.secs <= 0 || {
            &&& c.updated_at.secs > cursor.secs || (c.updated_at.secs == cursor.secs
                && c.updated_at.nanos > cursor.nanos)
            &&& c.updated_by_client matches Some(writer) ==> writer@ != client
        },
    }
}

/// A download sends the rows that are due to the client, all of them and in the order they were
/// read in, and no others.
pub proof fn what_is_due_is_sent_in_order<T: Downloaded>(
    sent: Vec<RemoteDelta<T>>,
    rows: Seq<Changed<T>>,
    since: Option<Instant>,
    client: Seq<char>,
)
    requires
        carries(sent, rows, since, client),
    ensures
        ({
            let due = rows.filter(|c: Changed<T>| is_due(c, since, client));
            &&& sent@.len() == due.len()
            &&& forall|k: int| 0 <= k < due.len() ==> (#[trigger] sent@[k]).data == due[k].row
        }),
{
    owed_are_due(rows, since, client);
    let due = rows.filter(|c: Changed<T>| is_due(c, since, client));
    assert(remote_views(sent@).len() == due.len());
    assert forall|k: int| 0 <= k < due.len() implies (#[trigger] sent@[k]).data == due[k].row by {
        assert(remote_views(sent@)[k] == sent@[k]@);
    }
}

proof fn owed_are_due<T: Downloaded>(
    rows: Seq<Changed<T>>,
    since: Option<Instant>,
    client: Seq<char>,
)
    ensures
        ({
            let due = rows.filter(|c: Changed<T>| is_due(c, since, client));
            &&& owed_changes(rows, since, client).len() == due.len()
            &&& forall|k: int|
                0 <= k < due.len() ==> (#[trigger] owed_changes(rows, since, client)[k])
                    == row_change(due[k].row)
        }),
    decreases rows.len(),
{
    reveal(Seq::filter);
    if rows.len() > 0 {
        owed_are_due(rows.drop_last(), since, client);
        assert(owed(rows.last(), since, client) == is_due(rows.last(), since, client));
    }
}

proof fn sent_rows_are_due<T: Downloaded>(
    sent: Vec<RemoteDelta<T>>,
    rows: Seq<Changed<T>>,
    since: Option<Instant>,
    client: Seq<char>,
    k: int,
)
    requires
        carries(sent, rows, since, client),
        0 <= k < sent@.len(),
    ensures
        sent@[k]@ == row_change(sent@[k].data),
        exists|i: int|
            0 <= i < rows.len() && (#[trigger] rows[i]).row == sent@[k].data && is_due(
                rows[i],
                since,
                client,
            ),
{
    let change = remote_views(sent@)[k];
    assert(change == sent@[k]@);
    assert(owed_changes(rows, since, client).contains(change));
    no_client_hears_its_own_echo(rows, since, client, change);
    let i = choose|i: int|
        0 <= i < rows.len() && owed(#[trigger] rows[i], since, client) && change == row_change(
            rows[i].row,
        );
    assert(rows[i].row == sent@[k].data);
}

/// In each of the six tables, a sent change is a deletion exactly if the row it carries is
/// marked deleted, and an update otherwise. It goes by the row's own id, or by item and store
/// where the row is an entry of an item at a store, has the row's version, and carries a row
/// that is stored and due to the client.
pub proof fn a_sent_change_says_what_became_of_its_row(
    sent: RemoteGrocery,
    rows: GroceryRows,
    since: Option<Instant>,
    client: Seq<char>,
    k: int,
)
    requires
        carries(sent.lists, rows.lists@, since, client),
        carries(sent.members, rows.members@, since, client),
        carries(sent.stores, rows.stores@, since, client),
        carries(sent.categories, rows.categories@, since, client),
        carries(sent.items, rows.items@, since, client),
        carries(sent.store_infos, rows.store_infos@, since, client),
    ensures
        0 <= k < sent.lists@.len() ==> {
            let change = sent.lists@[k];
            &&& change.operation_type == (if change.data.is_deleted {
                OperationType::Delete
            } else {
                OperationType::Update
            })
            &&& change.id@ == change.data.id@
            &&& change.version == change.data.version
            &&& exists|i: int|
                0 <= i < rows.lists@.len() && (#[trigger] rows.lists@[i]).row == change.data
                    && is_due(rows.lists@[i], since, client)
        },
        0 <= k < sent.members@.len() ==> {
            let change = sent.members@[k];
            &&& change.operation_type == (if change.data.is_deleted {
                OperationType::Delete
            } else {
                OperationType::Update
            })
            &&& change.id@ == change.data.id@
            &&& change.version == change.data.version
            &&& exists|i: int|
                0 <= i < rows.members@.len() && (#[trigger] rows.members@[i]).row == change.data
                    && is_due(rows.members@[i], since, client)
        },
        0 <= k < sent.stores@.len() ==> {
            let change = sent.stores@[k];
            &&& change.operation_type == (if change.data.is_deleted {
                OperationType::Delete
            } else {
                OperationType::Update
            })
            &&& change.id@ == change.data.id@
            &&& change.version == change.data.version
            &&& exists|i: int|
                0 <= i < rows.stores@.len() && (#[trigger] rows.stores@[i]).row == change.data
                    && is_due(rows.stores@[i], since, client)
        },
        0 <= k < sent.categories@.len() ==> {
            let change = sent.categories@[k];
            &&& change.operation_type == (if change.data.is_deleted {
                OperationType::Delete
            } else {
                OperationType::Update
            })
            &&& change.id@ == change.data.id@
            &&& change.version == change.data.version
            &&& exists|i: int|
                0 <= i < rows.categories@.len() && (#[trigger] rows.categories@[i]).row == change.data
                    && is_due(rows.categories@[i], since, client)
        },
        0 <= k < sent.items@.len() ==> {
            let change = sent.items@[k];
            &&& change.operation_type == (if change.data.is_deleted {
                OperationType::Delete
            } else {
                OperationType::Update
            })
            &&& change.id@ == change.data.id@
            &&& change.version == change.data.version
            &&& exists|i: int|
                0 <= i < rows.items@.len() && (#[trigger] rows.items@[i]).row == change.data
                    && is_due(rows.items@[i], since, client)
        },
        0 <= k < sent.store_infos@.len() ==> {
            let change = sent.store_infos@[k];
            &&& change.operation_type == (if change.data.is_deleted {
                OperationType::Delete
            } else {
                OperationType::Update
            })
            &&& change.id@ == change.data.grocery_item_id@ + "-"@ + change.data.store_id@
            &&& change.version == change.data.version
            &&& exists|i: int|
                0 <= i < rows.store_infos@.len() && (#[trigger] rows.store_infos@[i]).row == change.data
                    && is_due(rows.store_infos@[i], since, client)
        },
{
    if 0 <= k < sent.lists@.len() {
        sent_rows_are_due(sent.lists, rows.lists@, since, client, k);
    }
    if 0 <= k < sent.members@.len() {
        sent_rows_are_due(sent.members, rows.members@, since, client, k);
    }
    if 0 <= k < sent.stores@.len() {
        sent_rows_are_due(sent.stores, rows.stores@, since, client, k);
    }
    if 0 <= k < sent.categories@.len() {
        sent_rows_are_due(sent.categories, rows.categories@, since, client, k);
    }
    if 0 <= k < sent.items@.len() {
        sent_rows_are_due(sent.items, rows.items@, since, client, k);
    }
    if 0 <= k < sent.store_infos@.len() {
        sent_rows_are_due(sent.store_infos, rows.store_infos@, since, client, k);
    }
}

/// A page of changed rows serves what was read, in order: all of it where it fits, and otherwise
/// the rows in front of the instant that does not fit whole, to the microsecond, with the last
/// instant served as the cursor; where there is none in front, that one instant is read whole.
pub proof fn changed_rows_are_served_in_the_order_they_were_written<T>(
    rows: Vec<Changed<T>>,
    size: usize,
    now: Instant,
    page: ChangedPage<T>,
)
    requires
        forall|i: int| 0 <= i < rows@.len() ==> (#[trigger] rows@[i]).updated_at.wf(),
        call_ensures(cut_changed::<T>, (rows, Some(size), now), page),
    ensures
        match page {
            ChangedPage::Serve { rows: kept, next_cursor: None } => {
                rows@.len() <= size && kept@ == rows@
            },
            ChangedPage::Serve { rows: kept, next_cursor: Some(at) } => {
                let last = rows@[kept@.len() - 1].updated_at;
                &&& rows@.len() > size && 0 < kept@.len() <= size
                &&& forall|i: int| 0 <= i < kept@.len() ==> #[trigger] kept@[i] == rows@[i]
                &&& at == reported_instant(last.spec_micros(), last)
                &&& last.spec_micros() < rows@[size as int].updated_at.spec_micros()
                &&& forall|i: int|
                    kept@.len() <= i < size ==> (#[trigger] rows@[i]).updated_at.spec_micros()
                        >= rows@[size as int].updated_at.spec_micros()
            },
            ChangedPage::Reread { at } => {
                let edge = rows@[size as int].updated_at;
                &&& rows@.len() > size
                &&& at == reported_instant(edge.spec_micros(), now)
                &&& forall|i: int|
                    0 <= i < size ==> (#[trigger] rows@[i]).updated_at.spec_micros()
                        >= edge.spec_micros()
            },
        },
{
    if let ChangedPage::Serve { rows: kept, next_cursor } = page {
        if next_cursor is Some {
            assert(kept@.last() == rows@[kept@.len() - 1]);
            assert forall|i: int| 0 <= i < kept@.len() implies #[trigger] kept@[i] == rows@[i] by {
                assert(rows@.take(kept@.len() as int)[i] == rows@[i]);
            }
        }
    }
}

} // verus!
