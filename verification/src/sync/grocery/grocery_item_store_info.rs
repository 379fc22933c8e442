//! What a store charges for a grocery item and whether it has it.

use crate::error::{AppError, ErrorView};
use crate::sync::batching::{BatchWrite, WriteKind};
use crate::sync::grocery::access::{can_touch, may_touch, Listed};
use crate::sync::lookup::{
    a_lookup_finds_the_last_of_its_name, is_last_of, row_named, Keyed, RowIndex,
};
use crate::sync::rejections::{payload_refusal, payload_rejection};
use crate::sync::tally::{refusal_stands, settles, Count, Tally, Verdict, VerdictView};
use crate::sync::types::{
    forbidden, OperationType, Payload, RemoteDelta, RemoteView, SyncState,
};
use crate::sync::versioning::{assign_version, next_version, VersionBounds};
use crate::text::{copy_opt, opt_text, pair_text, paired, paired_injective, text_set, texts};
use vstd::hash_set::StringHashSet;
use vstd::prelude::*;

verus! {

/// An entry, as a client sends it and as it is sent back. Its own id is the id of the change
/// that carries it.
#[derive(Debug)]
pub struct GroceryItemStoreInfoData {
    pub grocery_item_id: String,
    pub store_id: String,
    pub list_id: Option<String>,
    /// The bits of the price, where there is one.
    pub price: Option<u64>,
    pub is_available: bool,
    pub user_id: Option<String>,
    pub version: i32,
    pub is_deleted: bool,
    pub sync_state: SyncState,
}

/// One uploaded change to one entry. The entry is named by its item and store; the id is
/// the client's and may be empty.
#[derive(Debug)]
pub struct GroceryItemStoreInfoChangeDelta {
    pub id: String,
    pub grocery_item_id: String,
    pub store_id: String,
    pub operation_type: OperationType,
    pub version: i32,
    pub data: Payload<GroceryItemStoreInfoData>,
}

/// A stored entry.
#[derive(Debug)]
pub struct StoreInfoRow {
    pub grocery_item_id: String,
    pub store_id: String,
    pub price: Option<u64>,
    pub is_available: bool,
    pub user_id: Option<String>,
    pub version: i32,
    pub is_deleted: bool,
    pub sync_state: SyncState,
}

impl Keyed for StoreInfoRow {
    open spec fn key(&self) -> Seq<char> {
        paired(self.grocery_item_id@, self.store_id@)
    }

    fn key_text(&self) -> (s: String) {
        pair_text(self.grocery_item_id.as_str(), self.store_id.as_str())
    }
}

/// What decides who may touch an entry: the item it belongs to.
#[derive(Debug)]
pub struct ParentItem {
    pub id: String,
    pub user_id: Option<String>,
    pub list_id: Option<String>,
    pub is_deleted: bool,
}

impl Keyed for ParentItem {
    open spec fn key(&self) -> Seq<char> {
        self.id@
    }

    fn key_text(&self) -> (s: String) {
        self.id.clone()
    }
}

impl Listed for ParentItem {
    open spec fn list(&self) -> Option<Seq<char>> {
        opt_text(self.list_id)
    }

    fn list_of(&self) -> (l: Option<String>) {
        copy_opt(&self.list_id)
    }
}

/// The kinds of write entries take.
#[derive(Debug, Clone, Copy, PartialEq, Eq, Structural)]
pub enum StoreInfoKind {
    Upsert,
    Delete,
}

impl WriteKind for StoreInfoKind {
    fn same(&self, other: &Self) -> (s: bool) {
        *self == *other
    }

    fn copied(&self) -> (k: Self) {
        *self
    }
}

/// One write to the entries.
#[derive(Debug)]
pub enum StoreInfoWrite {
    /// Stores the entry. The owner is the authenticated user, whatever the client sent.
    Upsert {
        item_id: String,
        store_id: String,
        price: Option<u64>,
        is_available: bool,
        version: i32,
        is_deleted: bool,
    },
    /// Marks the entry deleted and advances its stored version.
    Delete { item_id: String, store_id: String },
}

/// The row an entry is kept under within a run: its item and store with a unit separator
/// between.
pub open spec fn row_name(item: Seq<char>, store: Seq<char>) -> Seq<char> {
    item + seq!['\u{1f}'] + store
}

/// The row an entry is kept under within a run.
pub fn row_key(grocery_item_id: &str, store_id: &str) -> (key: String)
    ensures
        key@ == row_name(grocery_item_id@, store_id@),
{
    let mut s = grocery_item_id.to_owned();
    s.push('\u{1f}');
    s.append(store_id);
    assert(s@ =~= row_name(grocery_item_id@, store_id@));
    s
}

impl BatchWrite for StoreInfoWrite {
    type Kind = StoreInfoKind;

    open spec fn kind(&self) -> StoreInfoKind {
        match *self {
            StoreInfoWrite::Upsert { .. } => StoreInfoKind::Upsert,
            StoreInfoWrite::Delete { .. } => StoreInfoKind::Delete,
        }
    }

    open spec fn rows(&self) -> Seq<Seq<char>> {
        match *self {
            StoreInfoWrite::Upsert { item_id, store_id, .. } => seq![row_name(item_id@, store_id@)],
            StoreInfoWrite::Delete { item_id, store_id } => seq![row_name(item_id@, store_id@)],
        }
    }

    fn kind_of(&self) -> (k: StoreInfoKind) {
        match self {
            StoreInfoWrite::Upsert { .. } => StoreInfoKind::Upsert,
            StoreInfoWrite::Delete { .. } => StoreInfoKind::Delete,
        }
    }

    fn rows_of(&self) -> (rows: Vec<String>) {
        let key = match self {
            StoreInfoWrite::Upsert { item_id, store_id, .. } => row_key(
                item_id.as_str(),
                store_id.as_str(),
            ),
            StoreInfoWrite::Delete { item_id, store_id } => row_key(
                item_id.as_str(),
                store_id.as_str(),
            ),
        };
        let rows = vec![key];
        assert(texts(rows@) =~= self.rows());
        rows
    }
}

/// The id an entry is reported under: the client's, or item and store where it sent none.
pub open spec fn report_id(change: GroceryItemStoreInfoChangeDelta) -> Seq<char> {
    if change.id@.len() > 0 {
        change.id@
    } else {
        entry_id(change.grocery_item_id@, change.store_id@)
    }
}

/// The id of an entry made of its item and store.
pub open spec fn entry_id(item: Seq<char>, store: Seq<char>) -> Seq<char> {
    item + "-"@ + store
}

/// The id of an entry made of its item and store.
pub fn entry_text(grocery_item_id: &str, store_id: &str) -> (s: String)
    ensures
        s@ == entry_id(grocery_item_id@, store_id@),
{
    let mut s = grocery_item_id.to_owned();
    s.append("-");
    s.append(store_id);
    s
}

fn reported_id(change: &GroceryItemStoreInfoChangeDelta) -> (s: String)
    ensures
        s@ == report_id(*change),
{
    if !change.id.as_str().is_empty() {
        change.id.clone()
    } else {
        entry_text(change.grocery_item_id.as_str(), change.store_id.as_str())
    }
}

impl GroceryItemStoreInfoChangeDelta {
    /// Whether the client asks for the server's copy of the entry.
    pub open spec fn asks_for_copy(self) -> bool {
        self.operation_type == OperationType::Update && (self.data is Missing || self.data is Null)
    }

    fn needs_copy(&self) -> (b: bool)
        ensures
            b == self.asks_for_copy(),
    {
        match self.operation_type {
            OperationType::Update => match self.data {
                Payload::Missing => true,
                Payload::Null(_) => true,
                _ => false,
            },
            _ => false,
        }
    }
}

/// The refusal to `verb` an entry that is not the caller's to touch.
pub open spec fn entry_refusal(verb: Seq<char>, item: Seq<char>, store: Seq<char>) -> ErrorView {
    ErrorView::Forbidden(
        "User is not authorized to "@ + verb + " store info for item "@ + item + " store "@ + store,
    )
}

fn refuse_entry(verb: &str, item: &str, store: &str) -> (e: AppError)
    ensures
        e@ == entry_refusal(verb@, item@, store@),
{
    let mut s = "User is not authorized to ".to_owned();
    s.append(verb);
    s.append(" store info for item ");
    s.append(item);
    s.append(" store ");
    s.append(store);
    AppError::Forbidden(s)
}

/// Why the caller may not write an entry of `item` at `store`: there is no such item, or it
/// is not theirs to touch.
pub open spec fn entry_barrier(
    user: Seq<char>,
    lists: Seq<Seq<char>>,
    parents: Seq<ParentItem>,
    item: Seq<char>,
    store: Seq<char>,
) -> Option<ErrorView> {
    match row_named(parents, item) {
        None => Some(ErrorView::Forbidden("Parent grocery item not found: "@ + item)),
        Some(parent) => if may_touch(parent.user_id, parent.list_id, user, lists) {
            None
        } else {
            Some(entry_refusal("update"@, item, store))
        },
    }
}

fn barred_entry(
    user: &str,
    lists: &StringHashSet,
    parents: &Vec<ParentItem>,
    items: &RowIndex,
    item: &str,
    store: &str,
    Ghost(all): Ghost<Seq<Seq<char>>>,
) -> (e: Option<AppError>)
    requires
        items.indexes(parents@),
        forall|s: Seq<char>| #[trigger] lists@.contains(s) <==> all.contains(s),
    ensures
        (match e {
            Some(e) => Some(e@),
            None => None,
        }) == entry_barrier(user@, all, parents@, item@, store@),
{
    match items.find(parents, item) {
        None => Some(forbidden("Parent grocery item not found: ", item)),
        Some(parent) => {
            if can_touch(&parent.user_id, &parent.list_id, user, lists, Ghost(all)) {
                None
            } else {
                Some(refuse_entry("update", item, store))
            }
        },
    }
}

/// The stored entry as it is sent back.
pub open spec fn entry_copy(
    change: GroceryItemStoreInfoChangeDelta,
    row: StoreInfoRow,
    parent: Option<ParentItem>,
) -> RemoteView<GroceryItemStoreInfoData> {
    RemoteView {
        id: report_id(change),
        operation_type: OperationType::Update,
        version: row.version,
        data: GroceryItemStoreInfoData {
            grocery_item_id: change.grocery_item_id,
            store_id: change.store_id,
            list_id: match parent {
                Some(parent) => parent.list_id,
                None => None,
            },
            price: row.price,
            is_available: row.is_available,
            user_id: row.user_id,
            version: row.version,
            is_deleted: row.is_deleted,
            sync_state: row.sync_state,
        },
    }
}

/// What storing `item` comes to.
pub open spec fn entry_store(
    user: Seq<char>,
    lists: Seq<Seq<char>>,
    bounds: VersionBounds,
    change: GroceryItemStoreInfoChangeDelta,
    item: GroceryItemStoreInfoData,
    parents: Seq<ParentItem>,
    rows: Seq<StoreInfoRow>,
) -> VerdictView<StoreInfoWrite, GroceryItemStoreInfoData> {
    let row = row_named(rows, paired(item.grocery_item_id@, item.store_id@));
    let barrier = entry_barrier(user, lists, parents, item.grocery_item_id@, item.store_id@);
    if barrier is Some {
        VerdictView::Refuse(barrier->0)
    } else {
        let stored = match row {
            Some(row) => Some(row.version),
            None => None,
        };
        match next_version(bounds, "Store info"@, change.id@, stored, item.version) {
            Ok(version) => VerdictView::Write {
                report: report_id(change),
                write: StoreInfoWrite::Upsert {
                    item_id: item.grocery_item_id,
                    store_id: item.store_id,
                    price: item.price,
                    is_available: item.is_available,
                    version,
                    is_deleted: item.is_deleted,
                },
                number: Some(version),
                correction: None,
            },
            Err(e) => VerdictView::Refuse(e),
        }
    }
}

/// What deleting an entry comes to. An item the server does not have bars nothing: it cannot
/// have entries, so the delete is acknowledged.
pub open spec fn entry_removal(
    user: Seq<char>,
    lists: Seq<Seq<char>>,
    change: GroceryItemStoreInfoChangeDelta,
    parents: Seq<ParentItem>,
    rows: Seq<StoreInfoRow>,
) -> VerdictView<StoreInfoWrite, GroceryItemStoreInfoData> {
    let row = row_named(rows, paired(change.grocery_item_id@, change.store_id@));
    let parent = row_named(parents, change.grocery_item_id@);
    if row is Some && row->0.is_deleted {
        VerdictView::Settle { report: report_id(change), version: row->0.version }
    } else if parent is Some && !parent->0.is_deleted && !may_touch(
        parent->0.user_id,
        parent->0.list_id,
        user,
        lists,
    ) {
        VerdictView::Refuse(
            entry_refusal("delete"@, change.grocery_item_id@, change.store_id@),
        )
    } else {
        VerdictView::Write {
            report: report_id(change),
            write: StoreInfoWrite::Delete {
                item_id: change.grocery_item_id,
                store_id: change.store_id,
            },
            number: None,
            correction: None,
        }
    }
}

/// What one change comes to, given the stored items and entries.
pub open spec fn entry_verdict(
    user: Seq<char>,
    lists: Seq<Seq<char>>,
    bounds: VersionBounds,
    change: GroceryItemStoreInfoChangeDelta,
    parents: Seq<ParentItem>,
    rows: Seq<StoreInfoRow>,
) -> VerdictView<StoreInfoWrite, GroceryItemStoreInfoData> {
    if change.operation_type == OperationType::Delete {
        entry_removal(user, lists, change, parents, rows)
    } else if change.asks_for_copy() {
        let barrier = entry_barrier(
            user,
            lists,
            parents,
            change.grocery_item_id@,
            change.store_id@,
        );
        if barrier is Some {
            VerdictView::Refuse(barrier->0)
        } else {
            match row_named(rows, paired(change.grocery_item_id@, change.store_id@)) {
                None => VerdictView::Skip,
                Some(row) => VerdictView::Echo {
                    report: report_id(change),
                    remote: entry_copy(change, row, row_named(parents, change.grocery_item_id@)),
                },
            }
        }
    } else {
        match change.data {
            Payload::Missing => VerdictView::Skip,
            Payload::Null(reason) => VerdictView::Refuse(
                payload_rejection("grocery item store info"@, change.id@, reason@),
            ),
            Payload::Unreadable(reason) => VerdictView::Refuse(
                payload_rejection("grocery item store info"@, change.id@, reason@),
            ),
            Payload::Item(item) => entry_store(user, lists, bounds, change, item, parents, rows),
        }
    }
}

/// What the changes of a batch come to.
pub open spec fn entry_verdicts(
    user: Seq<char>,
    lists: Seq<Seq<char>>,
    bounds: VersionBounds,
    changes: Seq<GroceryItemStoreInfoChangeDelta>,
    parents: Seq<ParentItem>,
    rows: Seq<StoreInfoRow>,
) -> Seq<VerdictView<StoreInfoWrite, GroceryItemStoreInfoData>> {
    Seq::new(
        changes.len(),
        |i: int| entry_verdict(user, lists, bounds, changes[i], parents, rows),
    )
}

fn store_entry(
    user: &str,
    lists: &StringHashSet,
    bounds: VersionBounds,
    change: &GroceryItemStoreInfoChangeDelta,
    item: &GroceryItemStoreInfoData,
    parents: &Vec<ParentItem>,
    items: &RowIndex,
    rows: &Vec<StoreInfoRow>,
    entries: &RowIndex,
    Ghost(all): Ghost<Seq<Seq<char>>>,
) -> (v: Verdict<StoreInfoWrite, GroceryItemStoreInfoData>)
    requires
        items.indexes(parents@),
        entries.indexes(rows@),
        forall|s: Seq<char>| #[trigger] lists@.contains(s) <==> all.contains(s),
    ensures
        v@ == entry_store(user@, all, bounds, *change, *item, parents@, rows@),
{
    if let Some(e) = barred_entry(
        user,
        lists,
        parents,
        items,
        item.grocery_item_id.as_str(),
        item.store_id.as_str(),
        Ghost(all),
    ) {
        return Verdict::Refuse(e);
    }
    let key = pair_text(item.grocery_item_id.as_str(), item.store_id.as_str());
    let stored: Option<i32> = match entries.find(rows, key.as_str()) {
        Some(row) => Some(row.version),
        None => None,
    };
    match assign_version(bounds, "Store info", change.id.as_str(), stored, item.version) {
        Ok(version) => Verdict::Write {
            report: reported_id(change),
            write: StoreInfoWrite::Upsert {
                item_id: item.grocery_item_id.clone(),
                store_id: item.store_id.clone(),
                price: item.price,
                is_available: item.is_available,
                version,
                is_deleted: item.is_deleted,
            },
            number: Some(version),
            correction: None,
        },
        Err(e) => Verdict::Refuse(e),
    }
}

fn remove_entry(
    user: &str,
    lists: &StringHashSet,
    change: &GroceryItemStoreInfoChangeDelta,
    parents: &Vec<ParentItem>,
    items: &RowIndex,
    rows: &Vec<StoreInfoRow>,
    entries: &RowIndex,
    Ghost(all): Ghost<Seq<Seq<char>>>,
) -> (v: Verdict<StoreInfoWrite, GroceryItemStoreInfoData>)
    requires
        items.indexes(parents@),
        entries.indexes(rows@),
        forall|s: Seq<char>| #[trigger] lists@.contains(s) <==> all.contains(s),
    ensures
        v@ == entry_removal(user@, all, *change, parents@, rows@),
{
    let key = pair_text(change.grocery_item_id.as_str(), change.store_id.as_str());
    if let Some(row) = entries.find(rows, key.as_str()) {
        if row.is_deleted {
            return Verdict::Settle { report: reported_id(change), version: row.version };
        }
    }
    if let Some(parent) = items.find(parents, change.grocery_item_id.as_str()) {
        if !parent.is_deleted && !can_touch(
            &parent.user_id,
            &parent.list_id,
            user,
            lists,
            Ghost(all),
        ) {
            return Verdict::Refuse(
                refuse_entry("delete", change.grocery_item_id.as_str(), change.store_id.as_str()),
            );
        }
    }
    Verdict::Write {
        report: reported_id(change),
        write: StoreInfoWrite::Delete {
            item_id: change.grocery_item_id.clone(),
            store_id: change.store_id.clone(),
        },
        number: None,
        correction: None,
    }
}

fn judge_entry(
    user: &str,
    lists: &StringHashSet,
    bounds: VersionBounds,
    change: &GroceryItemStoreInfoChangeDelta,
    parents: &Vec<ParentItem>,
    items: &RowIndex,
    rows: &Vec<StoreInfoRow>,
    entries: &RowIndex,
    Ghost(all): Ghost<Seq<Seq<char>>>,
) -> (v: Verdict<StoreInfoWrite, GroceryItemStoreInfoData>)
    requires
        items.indexes(parents@),
        entries.indexes(rows@),
        forall|s: Seq<char>| #[trigger] lists@.contains(s) <==> all.contains(s),
    ensures
        v@ == entry_verdict(user@, all, bounds, *change, parents@, rows@),
{
    if change.operation_type == OperationType::Delete {
        return remove_entry(user, lists, change, parents, items, rows, entries, Ghost(all));
    }
    if change.needs_copy() {
        if let Some(e) = barred_entry(
            user,
            lists,
            parents,
            items,
            change.grocery_item_id.as_str(),
            change.store_id.as_str(),
            Ghost(all),
        ) {
            return Verdict::Refuse(e);
        }
        let key = pair_text(change.grocery_item_id.as_str(), change.store_id.as_str());
        return match entries.find(rows, key.as_str()) {
            None => Verdict::Skip,
            Some(row) => {
                let list_id = match items.find(parents, change.grocery_item_id.as_str()) {
                    Some(parent) => copy_opt(&parent.list_id),
                    None => None,
                };
                Verdict::Echo {
                    report: reported_id(change),
                    remote: RemoteDelta {
                        id: reported_id(change),
                        operation_type: OperationType::Update,
                        version: row.version,
                        data: GroceryItemStoreInfoData {
                            grocery_item_id: change.grocery_item_id.clone(),
                            store_id: change.store_id.clone(),
                            list_id,
                            price: row.price,
                            is_available: row.is_available,
                            user_id: copy_opt(&row.user_id),
                            version: row.version,
                            is_deleted: row.is_deleted,
                            sync_state: row.sync_state.copy(),
                        },
                    },
                }
            },
        };
    }
    match &change.data {
        Payload::Missing => Verdict::Skip,
        Payload::Null(reason) => Verdict::Refuse(
            payload_refusal("grocery item store info", change.id.as_str(), reason.as_str()),
        ),
        Payload::Unreadable(reason) => Verdict::Refuse(
            payload_refusal("grocery item store info", change.id.as_str(), reason.as_str()),
        ),
        Payload::Item(item) => store_entry(
            user,
            lists,
            bounds,
            change,
            item,
            parents,
            items,
            rows,
            entries,
            Ghost(all),
        ),
    }
}

/// Applies a batch of changes to store entries: decides each against the items they belong
/// to, the stored entries and the lists the user is a live member of, and collects what to
/// write and what to answer.
pub fn process_grocery_item_store_info_changes(
    user_id: &str,
    changes: &Vec<GroceryItemStoreInfoChangeDelta>,
    parents: &Vec<ParentItem>,
    existing: &Vec<StoreInfoRow>,
    member_lists: &Vec<String>,
    bounds: VersionBounds,
) -> (r: Result<Tally<StoreInfoWrite, GroceryItemStoreInfoData>, AppError>)
    ensures
        settles(
            r,
            entry_verdicts(
                user_id@,
                texts(member_lists@),
                bounds,
                changes@,
                parents@,
                existing@,
            ),
        ),
{
    let ghost lists = texts(member_lists@);
    let ghost vs = entry_verdicts(user_id@, lists, bounds, changes@, parents@, existing@);
    let items = RowIndex::of(parents);
    let entries = RowIndex::of(existing);
    let set = text_set(member_lists);
    let mut count: Count<StoreInfoWrite, GroceryItemStoreInfoData> = Count::new();
    assert(vs.take(0) =~= seq![]);
    let mut i: usize = 0;
    while i < changes.len()
        invariant
            i <= changes.len(),
            lists == texts(member_lists@),
            vs == entry_verdicts(user_id@, lists, bounds, changes@, parents@, existing@),
            items.indexes(parents@),
            entries.indexes(existing@),
            forall|s: Seq<char>| #[trigger] set@.contains(s) <==> lists.contains(s),
            count.wf(),
            count.counts(vs.take(i as int)),
        decreases changes.len() - i,
    {
        let v = judge_entry(
            user_id,
            &set,
            bounds,
            &changes[i],
            parents,
            &items,
            existing,
            &entries,
            Ghost(lists),
        );
        proof {
            assert(v@ == vs[i as int]);
            assert(vs.take(i as int).push(v@) =~= vs.take(i + 1));
        }
        match count.absorb(v) {
            Ok(_) => {},
            Err(e) => {
                proof {
                    refusal_stands(vs, i + 1);
                }
                return Err(e);
            },
        }
        i = i + 1;
    }
    assert(vs.take(vs.len() as int) =~= vs);
    Ok(count.finish())
}

/// The lists whose membership decides a batch of entries: those of the items they belong to,
/// each once.
pub fn parent_lists(parents: &Vec<ParentItem>) -> (lists: Vec<String>)
    ensures
        texts(lists@).no_duplicates(),
        forall|list: Seq<char>| #[trigger]
            texts(lists@).contains(list) <==> exists|i: int|
                0 <= i < parents@.len() && opt_text((#[trigger] parents@[i]).list_id) == Some(list),
{
    let mut lists: Vec<String> = Vec::new();
    let mut seen = StringHashSet::new();
    assert(texts(lists@) =~= Seq::<Seq<char>>::empty());
    let mut i: usize = 0;
    while i < parents.len()
        invariant
            i <= parents.len(),
            texts(lists@).no_duplicates(),
            forall|s: Seq<char>| #[trigger] seen@.contains(s) <==> texts(lists@).contains(s),
            forall|s: Seq<char>| #[trigger]
                seen@.contains(s) <==> exists|k: int|
                    0 <= k < i && opt_text((#[trigger] parents@[k]).list_id) == Some(s),
        decreases parents.len() - i,
    {
        let ghost seen0 = seen@;
        let ghost lists0 = texts(lists@);
        if let Some(list) = &parents[i].list_id {
            if !seen.contains(list.as_str()) {
                seen.insert(list.clone());
                lists.push(list.clone());
                proof {
                    let after = texts(lists@);
                    assert(after =~= lists0.push(list@));
                    assert forall|s: Seq<char>| #[trigger] seen@.contains(s) <==> after.contains(
                        s,
                    ) by {
                        if after.contains(s) {
                            let k = choose|k: int| 0 <= k < after.len() && after[k] == s;
                            if k < lists0.len() {
                                assert(lists0[k] == s);
                            }
                        }
                        if lists0.contains(s) {
                            let k = choose|k: int| 0 <= k < lists0.len() && lists0[k] == s;
                            assert(after[k] == s);
                        }
                        if s == list@ {
                            assert(after[lists0.len() as int] == s);
                        }
                    }
                    assert(!lists0.contains(list@));
                }
            }
        }
        proof {
            assert forall|s: Seq<char>| #[trigger] seen@.contains(s) <==> exists|k: int|
                0 <= k < i + 1 && opt_text((#[trigger] parents@[k]).list_id) == Some(s) by {
                assert(seen@.contains(s) <==> seen0.contains(s) || opt_text(
                    parents@[i as int].list_id,
                ) == Some(s));
                if seen0.contains(s) {
                    let k = choose|k: int|
                        0 <= k < i && opt_text((#[trigger] parents@[k]).list_id) == Some(s);
                    assert(opt_text(parents@[k].list_id) == Some(s));
                }
            }
        }
        i = i + 1;
    }
    proof {
        assert forall|list: Seq<char>| #[trigger]
            texts(lists@).contains(list) <==> exists|i: int|
            0 <= i < parents@.len() && opt_text((#[trigger] parents@[i]).list_id) == Some(list) by {
            assert(seen@.contains(list) <==> texts(lists@).contains(list));
        }
    }
    lists
}

/// The items a batch of entries is about: each change's own, and the one its document names.
pub open spec fn named_items(changes: Seq<GroceryItemStoreInfoChangeDelta>) -> Seq<Seq<char>>
    decreases changes.len(),
{
    if changes.len() == 0 {
        seq![]
    } else {
        let named = named_items(changes.drop_last()).push(changes.last().grocery_item_id@);
        match changes.last().data {
            Payload::Item(item) => named.push(item.grocery_item_id@),
            _ => named,
        }
    }
}

/// The items a batch of entries is about, which are the items to read before it is decided.
pub fn items_to_read(changes: &Vec<GroceryItemStoreInfoChangeDelta>) -> (ids: Vec<String>)
    ensures
        texts(ids@) == named_items(changes@),
{
    let mut ids: Vec<String> = Vec::new();
    let mut i: usize = 0;
    assert(texts(ids@) =~= named_items(changes@.take(0)));
    while i < changes.len()
        invariant
            i <= changes.len(),
            texts(ids@) == named_items(changes@.take(i as int)),
        decreases changes.len() - i,
    {
        let ghost before = texts(ids@);
        let change = &changes[i];
        proof {
            assert(changes@.take(i + 1).drop_last() =~= changes@.take(i as int));
            assert(changes@.take(i + 1).last() == *change);
        }
        ids.push(change.grocery_item_id.clone());
        assert(texts(ids@) =~= before.push(change.grocery_item_id@));
        if let Payload::Item(item) = &change.data {
            let ghost named = texts(ids@);
            ids.push(item.grocery_item_id.clone());
            assert(texts(ids@) =~= named.push(item.grocery_item_id@));
        }
        i = i + 1;
    }
    assert(changes@.take(changes.len() as int) =~= changes@);
    ids
}

/// An entry is written only by a user who may touch its item, whether or not an entry stands
/// there already, and one that does moves exactly one version on.
pub proof fn an_entry_write_is_authorised(
    user: Seq<char>,
    lists: Seq<Seq<char>>,
    bounds: VersionBounds,
    change: GroceryItemStoreInfoChangeDelta,
    parents: Seq<ParentItem>,
    rows: Seq<StoreInfoRow>,
)
    ensures
        entry_verdict(user, lists, bounds, change, parents, rows) matches VerdictView::Write {
            write: StoreInfoWrite::Upsert { item_id, store_id, version, .. },
            number,
            ..
        } ==> entry_barrier(user, lists, parents, item_id@, store_id@) is None && number == Some(
            version,
        ) && (row_named(rows, paired(item_id@, store_id@)) matches Some(row) ==> version
            == row.version + 1),
{
}

/// Whether an item is the user's to price: their own, or on a list they are a live member of.
pub open spec fn is_within_reach(user: Seq<char>, lists: Seq<Seq<char>>, item: ParentItem) -> bool {
    ||| item.user_id matches Some(owner) && owner@ == user
    ||| item.list_id matches Some(list) && lists.contains(list@)
}

/// Whether an entry is that of an item at a store.
pub open spec fn is_for(row: StoreInfoRow, item: Seq<char>, store: Seq<char>) -> bool {
    row.grocery_item_id@ == item && row.store_id@ == store
}

/// Whether `row` is the last entry of an item at a store, and none where it has none there.
pub open spec fn is_last_entry(
    rows: Seq<StoreInfoRow>,
    item: Seq<char>,
    store: Seq<char>,
    row: Option<StoreInfoRow>,
) -> bool {
    match row {
        Some(row) => exists|k: int|
            0 <= k < rows.len() && #[trigger] rows[k] == row && is_for(row, item, store)
                && forall|j: int|
                k < j < rows.len() ==> !is_for(#[trigger] rows[j], item, store),
        None => forall|j: int| 0 <= j < rows.len() ==> !is_for(#[trigger] rows[j], item, store),
    }
}

/// An entry is found by its item and store together.
pub proof fn an_entry_is_found_by_item_and_store(
    rows: Seq<StoreInfoRow>,
    item: Seq<char>,
    store: Seq<char>,
    row: Option<StoreInfoRow>,
)
    requires
        is_last_entry(rows, item, store, row),
    ensures
        row_named(rows, paired(item, store)) == row,
{
    let names = |r: StoreInfoRow| paired(r.grocery_item_id@, r.store_id@);
    let key = paired(item, store);
    assert forall|r: StoreInfoRow| (#[trigger] names(r) == key) <==> is_for(r, item, store) by {
        if names(r) == key {
            paired_injective(r.grocery_item_id@, r.store_id@, item, store);
        }
    }
    if let Some(found) = row {
        let k = choose|k: int|
            0 <= k < rows.len() && #[trigger] rows[k] == found && is_for(found, item, store)
                && forall|j: int|
                k < j < rows.len() ==> !is_for(#[trigger] rows[j], item, store);
        assert(names(found) == key);
        assert forall|j: int| k < j < rows.len() implies names(#[trigger] rows[j]) != key by {
            assert(!is_for(rows[j], item, store));
        }
        assert(rows[k] == found);
    } else {
        assert forall|j: int| 0 <= j < rows.len() implies names(#[trigger] rows[j]) != key by {
            assert(!is_for(rows[j], item, store));
        }
    }
    a_lookup_finds_the_last_of_its_name(rows, names, key, row);
}

/// An entry is stored as the client sent it, for the item and store its document names, whether
/// or not they have one already. A stored one moves one version on and a new one starts at the
/// client's number. The write is owed whenever there is such an item, it is within the user's
/// reach and the version allows it, and only then.
pub proof fn an_entry_is_stored_as_it_was_sent(
    user: Seq<char>,
    lists: Seq<Seq<char>>,
    bounds: VersionBounds,
    change: GroceryItemStoreInfoChangeDelta,
    parents: Seq<ParentItem>,
    rows: Seq<StoreInfoRow>,
    item: GroceryItemStoreInfoData,
    parent: Option<ParentItem>,
    target: Option<StoreInfoRow>,
)
    requires
        change.operation_type != OperationType::Delete,
        change.data == Payload::Item(item),
        is_last_of(parents, |r: ParentItem| r.id@, item.grocery_item_id@, parent),
        is_last_entry(rows, item.grocery_item_id@, item.store_id@, target),
    ensures
        match entry_verdict(user, lists, bounds, change, parents, rows) {
            VerdictView::Write { report, write, number, correction } => {
                &&& report == (if change.id@.len() > 0 {
                    change.id@
                } else {
                    change.grocery_item_id@ + "-"@ + change.store_id@
                })
                &&& correction is None
                &&& match write {
                    StoreInfoWrite::Upsert {
                        item_id,
                        store_id,
                        price,
                        is_available,
                        version,
                        is_deleted,
                    } => {
                        &&& item_id == item.grocery_item_id
                        &&& store_id == item.store_id
                        &&& price == item.price
                        &&& is_available == item.is_available
                        &&& is_deleted == item.is_deleted
                        &&& number == Some(version)
                        &&& match target {
                            Some(row) => version == row.version + 1,
                            None => version == item.version,
                        }
                    },
                    StoreInfoWrite::Delete { .. } => false,
                }
            },
            VerdictView::Refuse(_) => true,
            _ => false,
        },
        entry_verdict(user, lists, bounds, change, parents, rows) is Write <==> {
            &&& parent matches Some(p) && is_within_reach(user, lists, p)
            &&& target matches Some(row) ==> row.version < i32::MAX
            &&& target is None ==> 0 <= item.version && item.version <= bounds.max_seed
        },
{
    a_lookup_finds_the_last_of_its_name(
        parents,
        |r: ParentItem| r.id@,
        item.grocery_item_id@,
        parent,
    );
    an_entry_is_found_by_item_and_store(rows, item.grocery_item_id@, item.store_id@, target);
}

/// Deleting an entry marks the entry of the item and store it names deleted, and touches no
/// other. One that is deleted already is settled at the version it has, whoever asks; one of a
/// live item that is out of the user's reach is refused; and one whose item is gone is deleted
/// all the same.
pub proof fn deleting_an_entry_is_for_those_its_item_is_within_reach_of(
    user: Seq<char>,
    lists: Seq<Seq<char>>,
    bounds: VersionBounds,
    change: GroceryItemStoreInfoChangeDelta,
    parents: Seq<ParentItem>,
    rows: Seq<StoreInfoRow>,
    parent: Option<ParentItem>,
    row: Option<StoreInfoRow>,
)
    requires
        change.operation_type == OperationType::Delete,
        is_last_of(parents, |r: ParentItem| r.id@, change.grocery_item_id@, parent),
        is_last_entry(rows, change.grocery_item_id@, change.store_id@, row),
    ensures
        ({
            let barred = parent matches Some(p) && !p.is_deleted && !is_within_reach(user, lists, p);
            let gone = row matches Some(r) && r.is_deleted;
            match entry_verdict(user, lists, bounds, change, parents, rows) {
                VerdictView::Settle { report, version } => {
                    &&& report == (if change.id@.len() > 0 {
                        change.id@
                    } else {
                        change.grocery_item_id@ + "-"@ + change.store_id@
                    })
                    &&& row matches Some(r) && r.is_deleted && version == r.version
                },
                VerdictView::Refuse(e) => e is Forbidden && barred && !gone,
                VerdictView::Write { report, write, number, correction } => {
                    &&& report == (if change.id@.len() > 0 {
                        change.id@
                    } else {
                        change.grocery_item_id@ + "-"@ + change.store_id@
                    })
                    &&& !barred && !gone
                    &&& number is None && correction is None
                    &&& write matches StoreInfoWrite::Delete { item_id, store_id } && item_id
                        == change.grocery_item_id && store_id == change.store_id
                },
                _ => false,
            }
        }),
{
    a_lookup_finds_the_last_of_its_name(
        parents,
        |r: ParentItem| r.id@,
        change.grocery_item_id@,
        parent,
    );
    an_entry_is_found_by_item_and_store(rows, change.grocery_item_id@, change.store_id@, row);
}

/// An update without a document gets the stored entry as it stands, on the list of its item,
/// and nothing is written. Where there is no such item, or it is out of the user's reach, the
/// change is refused; and where there is no entry there is nothing to answer.
pub proof fn an_entry_is_sent_back_as_it_stands(
    user: Seq<char>,
    lists: Seq<Seq<char>>,
    bounds: VersionBounds,
    change: GroceryItemStoreInfoChangeDelta,
    parents: Seq<ParentItem>,
    rows: Seq<StoreInfoRow>,
    parent: Option<ParentItem>,
    row: Option<StoreInfoRow>,
)
    requires
        change.operation_type == OperationType::Update,
        change.data is Missing || change.data is Null,
        is_last_of(parents, |r: ParentItem| r.id@, change.grocery_item_id@, parent),
        is_last_entry(rows, change.grocery_item_id@, change.store_id@, row),
    ensures
        ({
            let open = parent matches Some(p) && is_within_reach(user, lists, p);
            match entry_verdict(user, lists, bounds, change, parents, rows) {
                VerdictView::Skip => open && row is None,
                VerdictView::Echo { report, remote } => open && (row matches Some(row) && {
                    &&& report == (if change.id@.len() > 0 {
                        change.id@
                    } else {
                        change.grocery_item_id@ + "-"@ + change.store_id@
                    })
                    &&& remote.id == report
                    &&& remote.operation_type == OperationType::Update
                    &&& remote.version == row.version
                    &&& remote.data.grocery_item_id@ == row.grocery_item_id@
                    &&& remote.data.store_id@ == row.store_id@
                    &&& remote.data.list_id == parent->0.list_id
                    &&& remote.data.price == row.price
                    &&& remote.data.is_available == row.is_available
                    &&& remote.data.user_id == row.user_id
                    &&& remote.data.version == row.version
                    &&& remote.data.is_deleted == row.is_deleted
                    &&& remote.data.sync_state == row.sync_state
                }),
                VerdictView::Refuse(e) => e is Forbidden && !open,
                _ => false,
            }
        }),
{
    a_lookup_finds_the_last_of_its_name(
        parents,
        |r: ParentItem| r.id@,
        change.grocery_item_id@,
        parent,
    );
    an_entry_is_found_by_item_and_store(rows, change.grocery_item_id@, change.store_id@, row);
}

/// A change that carries nothing readable writes nothing: an insert without a document is
/// passed over, and a document that is no entry is the client's mistake.
pub proof fn an_unreadable_entry_is_never_stored(
    user: Seq<char>,
    lists: Seq<Seq<char>>,
    bounds: VersionBounds,
    change: GroceryItemStoreInfoChangeDelta,
    parents: Seq<ParentItem>,
    rows: Seq<StoreInfoRow>,
)
    requires
        change.operation_type != OperationType::Delete,
        !(change.data is Item),
    ensures
        !(entry_verdict(user, lists, bounds, change, parents, rows) is Write),
        change.operation_type == OperationType::Insert && change.data is Missing ==> entry_verdict(
            user,
            lists,
            bounds,
            change,
            parents,
            rows,
        ) is Skip,
        change.data is Unreadable || (change.operation_type == OperationType::Insert
            && change.data is Null) ==> (entry_verdict(user, lists, bounds, change, parents, rows)
            matches VerdictView::Refuse(e) && e is BadRequest),
{
}

/// Each change of a batch is judged as it would be alone, against the items and entries as they
/// were stored before the batch.
pub proof fn an_entry_is_judged_on_its_own(
    user: Seq<char>,
    lists: Seq<Seq<char>>,
    bounds: VersionBounds,
    changes: Seq<GroceryItemStoreInfoChangeDelta>,
    parents: Seq<ParentItem>,
    rows: Seq<StoreInfoRow>,
    i: int,
)
    requires
        0 <= i < changes.len(),
    ensures
        entry_verdicts(user, lists, bounds, changes, parents, rows).len() == changes.len(),
        entry_verdicts(user, lists, bounds, changes, parents, rows)[i] == entry_verdict(
            user,
            lists,
            bounds,
            changes[i],
            parents,
            rows,
        ),
{
}

/// An entry is reported under the id the client gave it, and under its item and store, in this
/// order and with one hyphen between, where the client gave it none.
pub proof fn an_entry_is_reported_under_a_name_the_client_knows(
    change: GroceryItemStoreInfoChangeDelta,
)
    ensures
        change.id@.len() > 0 ==> report_id(change) == change.id@,
        change.id@.len() == 0 ==> {
            let item = change.grocery_item_id@;
            let store = change.store_id@;
            &&& report_id(change).len() == item.len() + 1 + store.len()
            &&& report_id(change).take(item.len() as int) == item
            &&& report_id(change)[item.len() as int] == '-'
            &&& report_id(change).skip(item.len() as int + 1) == store
        },
{
    reveal_strlit("-");
    let item = change.grocery_item_id@;
    let store = change.store_id@;
    assert(entry_id(item, store).take(item.len() as int) =~= item);
    assert(entry_id(item, store).skip(item.len() as int + 1) =~= store);
}

/// Entries are stored together and deleted together, but not both in one statement, and a
/// statement takes an entry once: each is known by its item and its store together, with a mark
/// between them.
pub proof fn a_write_is_about_its_own_entry(one: StoreInfoWrite, other: StoreInfoWrite)
    ensures
        one.kind() == other.kind() <==> (one is Upsert <==> other is Upsert),
        one matches StoreInfoWrite::Upsert { item_id, store_id, .. } ==> one.rows() == seq![
            item_id@ + seq!['\u{1f}'] + store_id@,
        ],
        one matches StoreInfoWrite::Delete { item_id, store_id } ==> one.rows() == seq![
            item_id@ + seq!['\u{1f}'] + store_id@,
        ],
{
}

/// An item is on the list it says.
pub proof fn a_parent_is_on_the_list_it_says(item: ParentItem)
    ensures
        item.list_id matches Some(list) ==> item.list() == Some(list@),
        item.list_id is None ==> item.list() is None,
{
}

/// A batch of entries is judged change by change, each for the user who sent it, by the lists
/// they are a member of, the items the entries belong to and the entries that are stored.
pub proof fn a_batch_of_entries_is_judged_change_by_change(
    user_id: &str,
    changes: &Vec<GroceryItemStoreInfoChangeDelta>,
    parents: &Vec<ParentItem>,
    existing: &Vec<StoreInfoRow>,
    member_lists: &Vec<String>,
    bounds: VersionBounds,
    r: Result<Tally<StoreInfoWrite, GroceryItemStoreInfoData>, AppError>,
)
    requires
        call_ensures(process_grocery_item_store_info_changes, (user_id, changes, parents, existing, member_lists, bounds), r),
    ensures
        settles(
            r,
            Seq::new(changes@.len(), |i: int| entry_verdict(
                user_id@,
                texts(member_lists@),
                bounds,
                changes@[i],
                parents@,
                existing@,
            )),
        ),
{
}

/// The items a batch of entries has to be decided by are those its changes name and those their
/// documents name, and the lists that decide it are those the items are on, each once.
pub proof fn entries_are_decided_by_their_items(
    changes: &Vec<GroceryItemStoreInfoChangeDelta>,
    ids: Vec<String>,
    id: Seq<char>,
    parents: &Vec<ParentItem>,
    lists: Vec<String>,
    list: Seq<char>,
)
    requires
        call_ensures(items_to_read, (changes,), ids),
        call_ensures(parent_lists, (parents,), lists),
    ensures
        texts(ids@).contains(id) <==> exists|i: int|
            0 <= i < changes@.len() && ((#[trigger] changes@[i]).grocery_item_id@ == id || (
            changes@[i].data matches Payload::Item(item) && item.grocery_item_id@ == id)),
        texts(lists@).contains(list) <==> exists|i: int|
            0 <= i < parents@.len() && ((#[trigger] parents@[i]).list_id matches Some(l) && l@
                == list),
        texts(lists@).no_duplicates(),
{
    named_items_are_named(changes@, id);
    if exists|i: int|
        0 <= i < parents@.len() && ((#[trigger] parents@[i]).list_id matches Some(l) && l@ == list) {
        let i = choose|i: int|
            0 <= i < parents@.len() && ((#[trigger] parents@[i]).list_id matches Some(l) && l@
                == list);
        assert(opt_text(parents@[i].list_id) == Some(list));
    }
    if texts(lists@).contains(list) {
        let i = choose|i: int|
            0 <= i < parents@.len() && opt_text((#[trigger] parents@[i]).list_id) == Some(list);
        assert(parents@[i].list_id matches Some(l) && l@ == list);
    }
}

proof fn named_items_are_named(changes: Seq<GroceryItemStoreInfoChangeDelta>, id: Seq<char>)
    ensures
        named_items(changes).contains(id) <==> exists|i: int|
            0 <= i < changes.len() && ((#[trigger] changes[i]).grocery_item_id@ == id || (
            changes[i].data matches Payload::Item(item) && item.grocery_item_id@ == id)),
    decreases changes.len(),
{
    if changes.len() > 0 {
        let front = changes.drop_last();
        let last = changes.last();
        named_items_are_named(front, id);
        let before = named_items(front);
        let named = before.push(last.grocery_item_id@);
        let all = named_items(changes);
        let own = last.grocery_item_id@ == id || (last.data matches Payload::Item(item)
            && item.grocery_item_id@ == id);
        assert(changes[changes.len() - 1] == last);
        if before.contains(id) {
            let k = choose|k: int| 0 <= k < before.len() && before[k] == id;
            assert(named[k] == id);
            assert(all[k] == id);
            let i = choose|i: int|
                0 <= i < front.len() && ((#[trigger] front[i]).grocery_item_id@ == id || (
                front[i].data matches Payload::Item(item) && item.grocery_item_id@ == id));
            assert(changes[i] == front[i]);
        }
        if own {
            if last.grocery_item_id@ == id {
                assert(named[before.len() as int] == id);
                assert(all[before.len() as int] == id);
            } else {
                assert(all[named.len() as int] == id);
            }
        }
        if all.contains(id) && !own {
            let k = choose|k: int| 0 <= k < all.len() && all[k] == id;
            assert(k < before.len());
            assert(before[k] == id);
        }
        if (exists|i: int|
            0 <= i < changes.len() && ((#[trigger] changes[i]).grocery_item_id@ == id || (
            changes[i].data matches Payload::Item(item) && item.grocery_item_id@ == id))) && !own {
            let i = choose|i: int|
                0 <= i < changes.len() && ((#[trigger] changes[i]).grocery_item_id@ == id || (
                changes[i].data matches Payload::Item(item) && item.grocery_item_id@ == id));
            assert(front[i] == changes[i]);
        }
    }
}

} // verus!
