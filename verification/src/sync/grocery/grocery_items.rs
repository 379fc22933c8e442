//! Grocery items, and the store prices a new item inherits from the household's other items
//! of the same name.

use crate::error::{AppError, ErrorView};
use crate::sync::batching::{BatchWrite, WriteKind};
use crate::sync::grocery::access::{is_on_list, lists_named, names_list, on_list, Listed};
use crate::sync::lookup::{
    a_lookup_finds_the_last_of_its_name, deref_opt, is_last_of, position_is_of_the_list, row_named,
    Keyed, RowIndex,
};
use crate::sync::rejections::{payload_refusal, payload_rejection};
use crate::sync::tally::{
    a_batch_is_all_or_nothing, a_batch_writes_what_its_changes_do, issues, refusal_stands, settles,
    Count, Tally, Verdict, VerdictView,
};
use crate::sync::types::{
    forbidden, ChangeDelta, OperationType, Payload, RemoteDelta, RemoteView, SyncState,
};
use crate::sync::versioning::{assign_version, next_version, VersionBounds};
use crate::text::{
    copy_opt, is_text, opt_text, pair_text, paired, paired_injective, same_text, text_set, texts,
};
use vstd::hash_set::StringHashSet;
use vstd::prelude::*;

verus! {

/// A grocery item, as a client sends it and as the server stores it.
#[derive(Debug)]
pub struct GroceryItemData {
    pub id: String,
    pub name: String,
    pub quantity: String,
    pub is_bought: bool,
    pub created_at: i64,
    pub position: i32,
    pub category_id: Option<String>,
    pub times_bought: i32,
    pub user_id: Option<String>,
    pub is_active: bool,
    pub list_id: Option<String>,
    pub unit: Option<String>,
    pub notes: Option<String>,
    pub version: i32,
    pub is_deleted: bool,
    pub sync_state: SyncState,
}

pub type GroceryChangeDelta = ChangeDelta<GroceryItemData>;

impl GroceryItemData {
    /// A copy of this item.
    pub fn copy(&self) -> (c: GroceryItemData)
        ensures
            c == *self,
    {
        GroceryItemData {
            id: self.id.clone(),
            name: self.name.clone(),
            quantity: self.quantity.clone(),
            is_bought: self.is_bought,
            created_at: self.created_at,
            position: self.position,
            category_id: copy_opt(&self.category_id),
            times_bought: self.times_bought,
            user_id: copy_opt(&self.user_id),
            is_active: self.is_active,
            list_id: copy_opt(&self.list_id),
            unit: copy_opt(&self.unit),
            notes: copy_opt(&self.notes),
            version: self.version,
            is_deleted: self.is_deleted,
            sync_state: self.sync_state.copy(),
        }
    }
}

impl Keyed for GroceryItemData {
    open spec fn key(&self) -> Seq<char> {
        self.id@
    }

    fn key_text(&self) -> (s: String) {
        self.id.clone()
    }
}

impl Listed for GroceryItemData {
    open spec fn list(&self) -> Option<Seq<char>> {
        opt_text(self.list_id)
    }

    fn list_of(&self) -> (l: Option<String>) {
        copy_opt(&self.list_id)
    }
}

/// The kinds of write items take.
#[derive(Debug, Clone, Copy, PartialEq, Eq, Structural)]
pub enum ItemKind {
    Upsert,
    Delete,
}

impl WriteKind for ItemKind {
    fn same(&self, other: &Self) -> (s: bool) {
        *self == *other
    }

    fn copied(&self) -> (k: Self) {
        *self
    }
}

/// One write to the items.
#[derive(Debug)]
pub enum ItemWrite {
    /// Stores the item under its own id at `version`. The owner is the authenticated user,
    /// whatever the client sent.
    Upsert { item: GroceryItemData, version: i32 },
    /// Marks the item deleted and advances its stored version.
    Delete { id: String },
}

impl BatchWrite for ItemWrite {
    type Kind = ItemKind;

    open spec fn kind(&self) -> ItemKind {
        match *self {
            ItemWrite::Upsert { .. } => ItemKind::Upsert,
            ItemWrite::Delete { .. } => ItemKind::Delete,
        }
    }

    open spec fn rows(&self) -> Seq<Seq<char>> {
        match *self {
            ItemWrite::Upsert { item, .. } => seq![item.id@],
            ItemWrite::Delete { id } => seq![id@],
        }
    }

    fn kind_of(&self) -> (k: ItemKind) {
        match self {
            ItemWrite::Upsert { .. } => ItemKind::Upsert,
            ItemWrite::Delete { .. } => ItemKind::Delete,
        }
    }

    fn rows_of(&self) -> (rows: Vec<String>) {
        let id = match self {
            ItemWrite::Upsert { item, .. } => item.id.clone(),
            ItemWrite::Delete { id } => id.clone(),
        };
        let rows = vec![id];
        assert(texts(rows@) =~= self.rows());
        rows
    }
}

/// Why `user` may not touch a stored item: it is on a list they are no live member of, or on
/// none and somebody else's. The refusal starts with `verb`.
pub open spec fn item_barrier(
    user: Seq<char>,
    lists: Seq<Seq<char>>,
    row: GroceryItemData,
    id: Seq<char>,
    verb: Seq<char>,
) -> Option<ErrorView> {
    match row.list_id {
        Some(list) => if lists.contains(list@) {
            None
        } else {
            Some(ErrorView::Forbidden(verb + " grocery item in list "@ + list@))
        },
        None => if opt_text(row.user_id) == Some(user) {
            None
        } else {
            Some(ErrorView::Forbidden(verb + " grocery item "@ + id))
        },
    }
}

fn barred(
    user: &str,
    lists: &StringHashSet,
    row: &GroceryItemData,
    id: &str,
    verb: &str,
    Ghost(all): Ghost<Seq<Seq<char>>>,
) -> (e: Option<AppError>)
    requires
        forall|s: Seq<char>| #[trigger] lists@.contains(s) <==> all.contains(s),
    ensures
        (match e {
            Some(e) => Some(e@),
            None => None,
        }) == item_barrier(user@, all, *row, id@, verb@),
{
    let mut s = verb.to_owned();
    match &row.list_id {
        Some(list) => {
            if lists.contains(list.as_str()) {
                None
            } else {
                s.append(" grocery item in list ");
                s.append(list.as_str());
                Some(AppError::Forbidden(s))
            }
        },
        None => {
            if is_text(&row.user_id, user) {
                None
            } else {
                s.append(" grocery item ");
                s.append(id);
                Some(AppError::Forbidden(s))
            }
        },
    }
}

/// Why `user` may not write over a stored item, where there is one.
pub open spec fn write_barrier(
    user: Seq<char>,
    lists: Seq<Seq<char>>,
    row: Option<GroceryItemData>,
    id: Seq<char>,
) -> Option<ErrorView> {
    match row {
        Some(row) => item_barrier(user, lists, row, id, "User is not authorized to update"@),
        None => None,
    }
}

/// What storing `item` comes to, given the stored item the change names and the one its
/// document is written over. The two are one unless the change and its document disagree.
pub open spec fn item_store(
    user: Seq<char>,
    lists: Seq<Seq<char>>,
    bounds: VersionBounds,
    change: GroceryChangeDelta,
    item: GroceryItemData,
    named: Option<GroceryItemData>,
    target: Option<GroceryItemData>,
) -> VerdictView<ItemWrite, GroceryItemData> {
    let named_barrier = write_barrier(user, lists, named, change.id@);
    let target_barrier = write_barrier(user, lists, target, item.id@);
    if item.list_id is Some && !on_list(item.list_id, lists) {
        VerdictView::Refuse(
            ErrorView::Forbidden("User is not a member of list "@ + item.list_id->0@),
        )
    } else if named_barrier is Some {
        VerdictView::Refuse(named_barrier->0)
    } else if target_barrier is Some {
        VerdictView::Refuse(target_barrier->0)
    } else {
        let stored = match target {
            Some(row) => Some(row.version),
            None => None,
        };
        match next_version(bounds, "Grocery"@, change.id@, stored, item.version) {
            Ok(version) => VerdictView::Write {
                report: change.id@,
                write: ItemWrite::Upsert { item, version },
                number: Some(version),
                correction: None,
            },
            Err(e) => VerdictView::Refuse(e),
        }
    }
}

/// What one change comes to, given the stored items.
pub open spec fn item_verdict(
    user: Seq<char>,
    lists: Seq<Seq<char>>,
    bounds: VersionBounds,
    change: GroceryChangeDelta,
    rows: Seq<GroceryItemData>,
) -> VerdictView<ItemWrite, GroceryItemData> {
    let row = row_named(rows, change.id@);
    if change.operation_type == OperationType::Delete {
        let barrier = match row {
            Some(row) => item_barrier(
                user,
                lists,
                row,
                change.id@,
                "User is not authorized to delete"@,
            ),
            None => None,
        };
        if row is Some && row->0.is_deleted {
            VerdictView::Settle { report: change.id@, version: row->0.version }
        } else if barrier is Some {
            VerdictView::Refuse(barrier->0)
        } else {
            VerdictView::Write {
                report: change.id@,
                write: ItemWrite::Delete { id: change.id },
                number: None,
                correction: None,
            }
        }
    } else if change.asks_for_copy() {
        match row {
            None => VerdictView::Skip,
            Some(row) => if item_barrier(user, lists, row, change.id@, ""@) is None {
                VerdictView::Echo {
                    report: change.id@,
                    remote: RemoteView {
                        id: change.id@,
                        operation_type: OperationType::Update,
                        version: row.version,
                        data: GroceryItemData { id: change.id, ..row },
                    },
                }
            } else {
                VerdictView::Refuse(
                    ErrorView::Forbidden(
                        "User is not authorized to update grocery item "@ + change.id@,
                    ),
                )
            },
        }
    } else {
        match change.data {
            Payload::Missing => VerdictView::Skip,
            Payload::Null(reason) => VerdictView::Refuse(
                payload_rejection("grocery item"@, change.id@, reason@),
            ),
            Payload::Unreadable(reason) => VerdictView::Refuse(
                payload_rejection("grocery item"@, change.id@, reason@),
            ),
            Payload::Item(item) => item_store(
                user,
                lists,
                bounds,
                change,
                item,
                row,
                row_named(rows, item.id@),
            ),
        }
    }
}

/// What the changes of a batch come to.
pub open spec fn item_verdicts(
    user: Seq<char>,
    lists: Seq<Seq<char>>,
    bounds: VersionBounds,
    changes: Seq<GroceryChangeDelta>,
    rows: Seq<GroceryItemData>,
) -> Seq<VerdictView<ItemWrite, GroceryItemData>> {
    Seq::new(
        changes.len(),
        |i: int| item_verdict(user, lists, bounds, changes[i], rows),
    )
}

fn store_item(
    user: &str,
    lists: &StringHashSet,
    bounds: VersionBounds,
    change: &GroceryChangeDelta,
    item: &GroceryItemData,
    named: Option<&GroceryItemData>,
    target: Option<&GroceryItemData>,
    Ghost(all): Ghost<Seq<Seq<char>>>,
) -> (v: Verdict<ItemWrite, GroceryItemData>)
    requires
        forall|s: Seq<char>| #[trigger] lists@.contains(s) <==> all.contains(s),
    ensures
        v@ == item_store(
            user@,
            all,
            bounds,
            *change,
            *item,
            deref_opt(named),
            deref_opt(target),
        ),
{
    if let Some(list) = &item.list_id {
        if !is_on_list(&item.list_id, lists, Ghost(all)) {
            return Verdict::Refuse(forbidden("User is not a member of list ", list.as_str()));
        }
    }
    let verb = "User is not authorized to update";
    if let Some(row) = named {
        if let Some(e) = barred(user, lists, row, change.id.as_str(), verb, Ghost(all)) {
            return Verdict::Refuse(e);
        }
    }
    let stored: Option<i32> = match target {
        Some(row) => {
            if let Some(e) = barred(user, lists, row, item.id.as_str(), verb, Ghost(all)) {
                return Verdict::Refuse(e);
            }
            Some(row.version)
        },
        None => None,
    };
    match assign_version(bounds, "Grocery", change.id.as_str(), stored, item.version) {
        Ok(version) => Verdict::Write {
            report: change.id.clone(),
            write: ItemWrite::Upsert { item: item.copy(), version },
            number: Some(version),
            correction: None,
        },
        Err(e) => Verdict::Refuse(e),
    }
}

fn judge_item(
    user: &str,
    lists: &StringHashSet,
    bounds: VersionBounds,
    change: &GroceryChangeDelta,
    rows: &Vec<GroceryItemData>,
    index: &RowIndex,
    Ghost(all): Ghost<Seq<Seq<char>>>,
) -> (v: Verdict<ItemWrite, GroceryItemData>)
    requires
        index.indexes(rows@),
        forall|s: Seq<char>| #[trigger] lists@.contains(s) <==> all.contains(s),
    ensures
        v@ == item_verdict(user@, all, bounds, *change, rows@),
{
    let row = index.find(rows, change.id.as_str());
    if change.operation_type == OperationType::Delete {
        if let Some(row) = row {
            if row.is_deleted {
                return Verdict::Settle { report: change.id.clone(), version: row.version };
            }
            if let Some(e) = barred(
                user,
                lists,
                row,
                change.id.as_str(),
                "User is not authorized to delete",
                Ghost(all),
            ) {
                return Verdict::Refuse(e);
            }
        }
        return Verdict::Write {
            report: change.id.clone(),
            write: ItemWrite::Delete { id: change.id.clone() },
            number: None,
            correction: None,
        };
    }
    if change.needs_copy() {
        return match row {
            None => Verdict::Skip,
            Some(row) => {
                if barred(user, lists, row, change.id.as_str(), "", Ghost(all)).is_none() {
                    let mut data = row.copy();
                    data.id = change.id.clone();
                    Verdict::Echo {
                        report: change.id.clone(),
                        remote: RemoteDelta {
                            id: change.id.clone(),
                            operation_type: OperationType::Update,
                            version: row.version,
                            data,
                        },
                    }
                } else {
                    Verdict::Refuse(
                        forbidden(
                            "User is not authorized to update grocery item ",
                            change.id.as_str(),
                        ),
                    )
                }
            },
        };
    }
    match &change.data {
        Payload::Missing => Verdict::Skip,
        Payload::Null(reason) => Verdict::Refuse(
            payload_refusal("grocery item", change.id.as_str(), reason.as_str()),
        ),
        Payload::Unreadable(reason) => Verdict::Refuse(
            payload_refusal("grocery item", change.id.as_str(), reason.as_str()),
        ),
        Payload::Item(item) => {
            let target = index.find(rows, item.id.as_str());
            store_item(user, lists, bounds, change, item, row, target, Ghost(all))
        },
    }
}

/// What `str::to_lowercase` makes of a text.
pub uninterp spec fn lowercased(s: Seq<char>) -> Seq<char>;

/// `str::to_lowercase`. Unicode's case mapping is left to the standard library; what is
/// claimed is that the result depends on the text alone.
#[verifier::external_body]
fn lowercase(s: &str) -> (t: String)
    ensures
        t@ == lowercased(s@),
{
    s.to_lowercase()
}

/// The item a change brings that the server has never seen, where it brings one.
pub open spec fn new_item(change: GroceryChangeDelta, rows: Seq<GroceryItemData>) -> Option<
    GroceryItemData,
> {
    match change.data {
        Payload::Item(item) if change.operation_type != OperationType::Delete && row_named(
            rows,
            item.id@,
        ) is None => Some(item),
        _ => None,
    }
}

fn brought<'a>(
    change: &'a GroceryChangeDelta,
    rows: &Vec<GroceryItemData>,
    index: &RowIndex,
) -> (item: Option<&'a GroceryItemData>)
    requires
        index.indexes(rows@),
    ensures
        deref_opt(item) == new_item(*change, rows@),
{
    if change.operation_type == OperationType::Delete {
        return None;
    }
    match &change.data {
        Payload::Item(item) => {
            if index.find(rows, item.id.as_str()).is_none() {
                Some(item)
            } else {
                None
            }
        },
        _ => None,
    }
}

/// The lower-case names of the items a batch brings that the server has never seen, each
/// once: those whose store prices are worth looking up.
pub fn names_to_look_up(changes: &Vec<GroceryChangeDelta>, existing: &Vec<GroceryItemData>) -> (names:
    Vec<String>)
    ensures
        texts(names@).no_duplicates(),
        forall|name: Seq<char>| #[trigger]
            texts(names@).contains(name) <==> exists|i: int|
                0 <= i < changes@.len() && is_new_name(#[trigger] changes@[i], existing@, name),
{
    let index = RowIndex::of(existing);
    let mut names: Vec<String> = Vec::new();
    let mut seen = StringHashSet::new();
    assert(texts(names@) =~= Seq::<Seq<char>>::empty());
    let mut i: usize = 0;
    while i < changes.len()
        invariant
            i <= changes.len(),
            index.indexes(existing@),
            texts(names@).no_duplicates(),
            forall|s: Seq<char>| #[trigger] seen@.contains(s) <==> texts(names@).contains(s),
            forall|s: Seq<char>| #[trigger]
                seen@.contains(s) <==> exists|k: int|
                    0 <= k < i && is_new_name(#[trigger] changes@[k], existing@, s),
        decreases changes.len() - i,
    {
        let ghost seen0 = seen@;
        let ghost names0 = texts(names@);
        if let Some(item) = brought(&changes[i], existing, &index) {
            let name = lowercase(item.name.as_str());
            if !seen.contains(name.as_str()) {
                let ghost n = name@;
                seen.insert(name.clone());
                names.push(name);
                proof {
                    let after = texts(names@);
                    assert(after =~= names0.push(n));
                    assert forall|s: Seq<char>| #[trigger] seen@.contains(s) <==> after.contains(
                        s,
                    ) by {
                        if after.contains(s) {
                            let k = choose|k: int| 0 <= k < after.len() && after[k] == s;
                            if k < names0.len() {
                                assert(names0[k] == s);
                            }
                        }
                        if names0.contains(s) {
                            let k = choose|k: int| 0 <= k < names0.len() && names0[k] == s;
                            assert(after[k] == s);
                        }
                        if s == n {
                            assert(after[names0.len() as int] == s);
                        }
                    }
                    assert(!names0.contains(n));
                }
            }
        }
        proof {
            assert forall|s: Seq<char>| #[trigger] seen@.contains(s) <==> exists|k: int|
                0 <= k < i + 1 && is_new_name(#[trigger] changes@[k], existing@, s) by {
                assert(seen@.contains(s) <==> seen0.contains(s) || is_new_name(
                    changes@[i as int],
                    existing@,
                    s,
                ));
                if seen0.contains(s) {
                    let k = choose|k: int|
                        0 <= k < i && is_new_name(#[trigger] changes@[k], existing@, s);
                    assert(is_new_name(changes@[k], existing@, s));
                }
            }
        }
        i = i + 1;
    }
    proof {
        assert forall|name: Seq<char>| #[trigger]
            texts(names@).contains(name) <==> exists|i: int|
            0 <= i < changes@.len() && is_new_name(#[trigger] changes@[i], existing@, name) by {
            assert(seen@.contains(name) <==> texts(names@).contains(name));
        }
    }
    names
}

/// Whether a change brings an unseen item with this lower-case name.
pub open spec fn is_new_name(
    change: GroceryChangeDelta,
    rows: Seq<GroceryItemData>,
    name: Seq<char>,
) -> bool {
    new_item(change, rows) matches Some(item) && lowercased(item.name@) == name
}

/// What a store charges for the household's items of one lower-case name.
#[derive(Debug)]
pub struct StoreMapping {
    pub name_key: String,
    pub store_id: String,
    /// The bits of the price, where there is one.
    pub price: Option<u64>,
    pub is_available: bool,
}

/// The entry an unseen item gets for one store.
#[derive(Debug)]
pub struct StoreInfoSeed {
    pub grocery_item_id: String,
    pub store_id: String,
    pub price: Option<u64>,
    pub is_available: bool,
}

/// An item and a store it already has an entry for.
#[derive(Debug)]
pub struct ItemStore {
    pub grocery_item_id: String,
    pub store_id: String,
}

/// The entry a mapping gives an item.
pub open spec fn seed_of(item: GroceryItemData, m: StoreMapping) -> StoreInfoSeed {
    StoreInfoSeed {
        grocery_item_id: item.id,
        store_id: m.store_id,
        price: m.price,
        is_available: m.is_available,
    }
}

/// The entries an unseen item's name suggests, in the order of the mappings.
pub open spec fn suggested(item: GroceryItemData, mappings: Seq<StoreMapping>) -> Seq<StoreInfoSeed>
    decreases mappings.len(),
{
    if mappings.len() == 0 {
        seq![]
    } else {
        let front = suggested(item, mappings.drop_last());
        if mappings.last().name_key@ == lowercased(item.name@) {
            front.push(seed_of(item, mappings.last()))
        } else {
            front
        }
    }
}

/// The entries a batch suggests, in the order of its changes.
pub open spec fn all_suggested(
    changes: Seq<GroceryChangeDelta>,
    rows: Seq<GroceryItemData>,
    mappings: Seq<StoreMapping>,
) -> Seq<StoreInfoSeed>
    decreases changes.len(),
{
    if changes.len() == 0 {
        seq![]
    } else {
        all_suggested(changes.drop_last(), rows, mappings) + (match new_item(changes.last(), rows) {
            Some(item) => suggested(item, mappings),
            None => seq![],
        })
    }
}

/// The item and store of an entry.
pub open spec fn pair_of(seed: StoreInfoSeed) -> (Seq<char>, Seq<char>) {
    (seed.grocery_item_id@, seed.store_id@)
}

/// Whether an item already has an entry for a store.
pub open spec fn has_entry(existing: Seq<ItemStore>, pair: (Seq<char>, Seq<char>)) -> bool {
    exists|k: int|
        0 <= k < existing.len() && (#[trigger] existing[k]).grocery_item_id@ == pair.0
            && existing[k].store_id@ == pair.1
}

/// Whether an entry for the item and store is among `kept`.
pub open spec fn has_seed(kept: Seq<StoreInfoSeed>, pair: (Seq<char>, Seq<char>)) -> bool {
    exists|k: int| 0 <= k < kept.len() && pair_of(#[trigger] kept[k]) == pair
}

/// The entries to insert: of the suggested ones those for a pair of item and store that has
/// none yet, the first of each pair.
pub open spec fn kept_seeds(suggestions: Seq<StoreInfoSeed>, existing: Seq<ItemStore>) -> Seq<
    StoreInfoSeed,
>
    decreases suggestions.len(),
{
    if suggestions.len() == 0 {
        seq![]
    } else {
        let kept = kept_seeds(suggestions.drop_last(), existing);
        let seed = suggestions.last();
        if has_entry(existing, pair_of(seed)) || has_seed(kept, pair_of(seed)) {
            kept
        } else {
            kept.push(seed)
        }
    }
}

/// Whether `pairs` holds exactly the pairs that have an entry or a kept seed.
spec fn knows_pairs(
    pairs: Set<Seq<char>>,
    existing: Seq<ItemStore>,
    kept: Seq<StoreInfoSeed>,
) -> bool {
    forall|a: Seq<char>, b: Seq<char>| #[trigger]
        pairs.contains(paired(a, b)) <==> has_entry(existing, (a, b)) || has_seed(kept, (a, b))
}

proof fn pairs_grow(
    pairs: Set<Seq<char>>,
    existing: Seq<ItemStore>,
    kept: Seq<StoreInfoSeed>,
    seed: StoreInfoSeed,
)
    requires
        knows_pairs(pairs, existing, kept),
    ensures
        knows_pairs(
            pairs.insert(paired(seed.grocery_item_id@, seed.store_id@)),
            existing,
            kept.push(seed),
        ),
{
    let p = seed.grocery_item_id@;
    let q = seed.store_id@;
    let after = kept.push(seed);
    assert forall|a: Seq<char>, b: Seq<char>| #[trigger]
        pairs.insert(paired(p, q)).contains(paired(a, b)) <==> has_entry(existing, (a, b))
        || has_seed(after, (a, b)) by {
        if paired(a, b) == paired(p, q) {
            paired_injective(a, b, p, q);
            assert(pair_of(after[kept.len() as int]) == (a, b));
        }
        if has_seed(kept, (a, b)) {
            let k = choose|k: int| 0 <= k < kept.len() && pair_of(#[trigger] kept[k]) == (a, b);
            assert(pair_of(after[k]) == (a, b));
        }
        if has_seed(after, (a, b)) {
            let k = choose|k: int| 0 <= k < after.len() && pair_of(#[trigger] after[k]) == (a, b);
            if k < kept.len() {
                assert(pair_of(kept[k]) == (a, b));
            }
        }
    }
}

fn known_pairs(existing: &Vec<ItemStore>) -> (pairs: StringHashSet)
    ensures
        knows_pairs(pairs@, existing@, seq![]),
{
    let mut pairs = StringHashSet::new();
    let mut i: usize = 0;
    while i < existing.len()
        invariant
            i <= existing.len(),
            knows_pairs(pairs@, existing@.take(i as int), seq![]),
        decreases existing.len() - i,
    {
        let e = &existing[i];
        let ghost before = pairs@;
        pairs.insert(pair_text(e.grocery_item_id.as_str(), e.store_id.as_str()));
        proof {
            let front = existing@.take(i as int);
            let all = existing@.take(i + 1);
            let p = e.grocery_item_id@;
            let q = e.store_id@;
            let none = Seq::<StoreInfoSeed>::empty();
            assert forall|a: Seq<char>, b: Seq<char>| #[trigger]
                pairs@.contains(paired(a, b)) <==> has_entry(all, (a, b)) || has_seed(
                none,
                (a, b),
            ) by {
                assert(before.contains(paired(a, b)) <==> has_entry(front, (a, b)) || has_seed(
                    none,
                    (a, b),
                ));
                if paired(a, b) == paired(p, q) {
                    paired_injective(a, b, p, q);
                    assert(all[i as int].grocery_item_id@ == a);
                }
                if has_entry(front, (a, b)) {
                    let k = choose|k: int|
                        0 <= k < front.len() && (#[trigger] front[k]).grocery_item_id@ == a
                            && front[k].store_id@ == b;
                    assert(all[k] == front[k]);
                }
                if has_entry(all, (a, b)) {
                    let k = choose|k: int|
                        0 <= k < all.len() && (#[trigger] all[k]).grocery_item_id@ == a
                            && all[k].store_id@ == b;
                    if k < i {
                        assert(front[k] == all[k]);
                    }
                }
            }
        }
        i = i + 1;
    }
    assert(existing@.take(existing.len() as int) =~= existing@);
    pairs
}

proof fn kept_extends(suggestions: Seq<StoreInfoSeed>, more: Seq<StoreInfoSeed>, existing: Seq<
    ItemStore,
>, seed: StoreInfoSeed)
    ensures
        suggestions + more.push(seed) == (suggestions + more).push(seed),
        (suggestions + more).push(seed).drop_last() == suggestions + more,
{
    assert(suggestions + more.push(seed) =~= (suggestions + more).push(seed));
    assert((suggestions + more).push(seed).drop_last() =~= suggestions + more);
}

/// The store entries the unseen items of a batch inherit.
pub fn backfill_store_info(
    changes: &Vec<GroceryChangeDelta>,
    existing: &Vec<GroceryItemData>,
    mappings: &Vec<StoreMapping>,
    entries: &Vec<ItemStore>,
) -> (seeds: Vec<StoreInfoSeed>)
    ensures
        seeds@ == kept_seeds(all_suggested(changes@, existing@, mappings@), entries@),
{
    let index = RowIndex::of(existing);
    let mut pairs = known_pairs(entries);
    let mut seeds: Vec<StoreInfoSeed> = Vec::new();
    assert(seeds@ =~= seq![]);
    let mut i: usize = 0;
    while i < changes.len()
        invariant
            i <= changes.len(),
            index.indexes(existing@),
            seeds@ == kept_seeds(
                all_suggested(changes@.take(i as int), existing@, mappings@),
                entries@,
            ),
            knows_pairs(pairs@, entries@, seeds@),
        decreases changes.len() - i,
    {
        let ghost before = all_suggested(changes@.take(i as int), existing@, mappings@);
        assert(changes@.take(i + 1).drop_last() =~= changes@.take(i as int));
        assert(changes@.take(i + 1).last() == changes@[i as int]);
        if let Some(item) = brought(&changes[i], existing, &index) {
            let name = lowercase(item.name.as_str());
            let mut j: usize = 0;
            assert(before + suggested(*item, mappings@.take(0)) =~= before);
            while j < mappings.len()
                invariant
                    j <= mappings.len(),
                    name@ == lowercased(item.name@),
                    seeds@ == kept_seeds(
                        before + suggested(*item, mappings@.take(j as int)),
                        entries@,
                    ),
                    knows_pairs(pairs@, entries@, seeds@),
                decreases mappings.len() - j,
            {
                let m = &mappings[j];
                assert(mappings@.take(j + 1).drop_last() =~= mappings@.take(j as int));
                assert(mappings@.take(j + 1).last() == mappings@[j as int]);
                if same_text(m.name_key.as_str(), name.as_str()) {
                    proof {
                        kept_extends(
                            before,
                            suggested(*item, mappings@.take(j as int)),
                            entries@,
                            seed_of(*item, *m),
                        );
                    }
                    let key = pair_text(item.id.as_str(), m.store_id.as_str());
                    assert(pairs@.contains(paired(item.id@, m.store_id@)) <==> has_entry(
                        entries@,
                        (item.id@, m.store_id@),
                    ) || has_seed(seeds@, (item.id@, m.store_id@)));
                    if !pairs.contains(key.as_str()) {
                        let seed = StoreInfoSeed {
                            grocery_item_id: item.id.clone(),
                            store_id: m.store_id.clone(),
                            price: m.price,
                            is_available: m.is_available,
                        };
                        proof {
                            pairs_grow(pairs@, entries@, seeds@, seed);
                        }
                        pairs.insert(key);
                        seeds.push(seed);
                    }
                }
                j = j + 1;
            }
            assert(mappings@.take(mappings.len() as int) =~= mappings@);
        } else {
            assert(before + seq![] =~= before);
        }
        i = i + 1;
    }
    assert(changes@.take(changes.len() as int) =~= changes@);
    seeds
}

/// Applies a batch of item changes: decides each against the stored items and the lists the
/// user is a live member of, and collects what to write and what to answer.
pub fn process_grocery_changes(
    user_id: &str,
    changes: &Vec<GroceryChangeDelta>,
    existing: &Vec<GroceryItemData>,
    member_lists: &Vec<String>,
    bounds: VersionBounds,
) -> (r: Result<Tally<ItemWrite, GroceryItemData>, AppError>)
    ensures
        settles(r, item_verdicts(user_id@, texts(member_lists@), bounds, changes@, existing@)),
{
    let ghost lists = texts(member_lists@);
    let ghost vs = item_verdicts(user_id@, lists, bounds, changes@, existing@);
    let index = RowIndex::of(existing);
    let set = text_set(member_lists);
    let mut count: Count<ItemWrite, GroceryItemData> = Count::new();
    assert(vs.take(0) =~= seq![]);
    let mut i: usize = 0;
    while i < changes.len()
        invariant
            i <= changes.len(),
            lists == texts(member_lists@),
            vs == item_verdicts(user_id@, lists, bounds, changes@, existing@),
            index.indexes(existing@),
            forall|s: Seq<char>| #[trigger] set@.contains(s) <==> lists.contains(s),
            count.wf(),
            count.counts(vs.take(i as int)),
        decreases changes.len() - i,
    {
        let v = judge_item(user_id, &set, bounds, &changes[i], existing, &index, Ghost(lists));
        proof {
            assert(v@ == vs[i as int]);
            assert(vs.take(i as int).push(v@) =~= vs.take(i + 1));
        }
        match count.absorb(v) {
            Ok(_) => {},
            Err(e) => {
                proof {
                    refusal_stands(vs, i + 1);
                }
                return Err(e);
            },
        }
        i = i + 1;
    }
    assert(vs.take(vs.len() as int) =~= vs);
    Ok(count.finish())
}

proof fn kept_are_new(suggestions: Seq<StoreInfoSeed>, existing: Seq<ItemStore>)
    ensures
        forall|i: int|
            0 <= i < kept_seeds(suggestions, existing).len() ==> !has_entry(
                existing,
                pair_of(#[trigger] kept_seeds(suggestions, existing)[i]),
            ),
        forall|i: int, j: int|
            0 <= i < j < kept_seeds(suggestions, existing).len() ==> pair_of(
                #[trigger] kept_seeds(suggestions, existing)[i],
            ) != pair_of(#[trigger] kept_seeds(suggestions, existing)[j]),
    decreases suggestions.len(),
{
    if suggestions.len() > 0 {
        kept_are_new(suggestions.drop_last(), existing);
        let kept = kept_seeds(suggestions.drop_last(), existing);
        let all = kept_seeds(suggestions, existing);
        assert forall|i: int, j: int| 0 <= i < j < all.len() implies pair_of(#[trigger] all[i])
            != pair_of(#[trigger] all[j]) by {
            if j == kept.len() {
                assert(all[i] == kept[i]);
            }
        }
    }
}

/// Backfilling is for what is not there yet: no entry is inserted for a pair of item and
/// store that has one, and none twice.
pub proof fn backfill_never_repeats_an_entry(
    changes: Seq<GroceryChangeDelta>,
    rows: Seq<GroceryItemData>,
    mappings: Seq<StoreMapping>,
    entries: Seq<ItemStore>,
)
    ensures
        ({
            let seeds = kept_seeds(all_suggested(changes, rows, mappings), entries);
            &&& forall|i: int|
                0 <= i < seeds.len() ==> !has_entry(entries, pair_of(#[trigger] seeds[i]))
            &&& forall|i: int, j: int|
                0 <= i < j < seeds.len() ==> pair_of(#[trigger] seeds[i]) != pair_of(
                    #[trigger] seeds[j],
                )
        }),
{
    kept_are_new(all_suggested(changes, rows, mappings), entries);
}

/// A stored item is written or deleted only by a user it is not barred to, however the change
/// calls itself and whatever id it goes by, and a write moves it exactly one version on.
pub proof fn an_item_write_is_authorised(
    user: Seq<char>,
    lists: Seq<Seq<char>>,
    bounds: VersionBounds,
    change: GroceryChangeDelta,
    rows: Seq<GroceryItemData>,
)
    ensures
        item_verdict(user, lists, bounds, change, rows) matches VerdictView::Write {
            write,
            number,
            ..
        } ==> {
            &&& (row_named(rows, change.id@) matches Some(row) ==> item_barrier(
                user,
                lists,
                row,
                change.id@,
                ""@,
            ) is None)
            &&& (row_named(rows, written_item(write)) matches Some(row) ==> item_barrier(
                user,
                lists,
                row,
                written_item(write),
                ""@,
            ) is None && (number is Some ==> number->0 == row.version + 1))
        },
{
}

/// The item a write lands on.
pub open spec fn written_item(write: ItemWrite) -> Seq<char> {
    match write {
        ItemWrite::Upsert { item, .. } => item.id@,
        ItemWrite::Delete { id } => id@,
    }
}

/// Whether an item is the user's to touch: on a list they are a live member of, or on no list
/// and their own.
pub open spec fn is_within_reach(user: Seq<char>, lists: Seq<Seq<char>>, row: GroceryItemData) -> bool {
    match row.list_id {
        Some(list) => lists.contains(list@),
        None => row.user_id matches Some(owner) && owner@ == user,
    }
}

/// An item is stored as the client sent it, whether or not one is stored under its id already:
/// every field the document carries reaches the write. A stored item moves one version on and a
/// new one starts at the client's number. The write is owed whenever the item's list and the
/// stored items it touches are the user's and the version allows it, and only then.
pub proof fn an_item_is_stored_as_it_was_sent(
    user: Seq<char>,
    lists: Seq<Seq<char>>,
    bounds: VersionBounds,
    change: GroceryChangeDelta,
    rows: Seq<GroceryItemData>,
    item: GroceryItemData,
    named: Option<GroceryItemData>,
    target: Option<GroceryItemData>,
)
    requires
        change.operation_type != OperationType::Delete,
        change.data == Payload::Item(item),
        is_last_of(rows, |r: GroceryItemData| r.id@, change.id@, named),
        is_last_of(rows, |r: GroceryItemData| r.id@, item.id@, target),
    ensures
        match item_verdict(user, lists, bounds, change, rows) {
            VerdictView::Write { report, write, number, correction } => {
                &&& report == change.id@
                &&& correction is None
                &&& match write {
                    ItemWrite::Upsert { item: stored, version } => {
                        &&& stored.id == item.id
                        &&& stored.name == item.name
                        &&& stored.quantity == item.quantity
                        &&& stored.is_bought == item.is_bought
                        &&& stored.created_at == item.created_at
                        &&& stored.position == item.position
                        &&& stored.category_id == item.category_id
                        &&& stored.times_bought == item.times_bought
                        &&& stored.user_id == item.user_id
                        &&& stored.is_active == item.is_active
                        &&& stored.list_id == item.list_id
                        &&& stored.unit == item.unit
                        &&& stored.notes == item.notes
                        &&& stored.version == item.version
                        &&& stored.is_deleted == item.is_deleted
                        &&& stored.sync_state == item.sync_state
                        &&& number == Some(version)
                        &&& match target {
                            Some(row) => version == row.version + 1,
                            None => version == item.version,
                        }
                    },
                    ItemWrite::Delete { .. } => false,
                }
            },
            VerdictView::Refuse(_) => true,
            _ => false,
        },
        item_verdict(user, lists, bounds, change, rows) is Write <==> {
            &&& item.list_id matches Some(list) ==> lists.contains(list@)
            &&& named matches Some(row) ==> is_within_reach(user, lists, row)
            &&& target matches Some(row) ==> is_within_reach(user, lists, row) && row.version
                < i32::MAX
            &&& target is None ==> 0 <= item.version && item.version <= bounds.max_seed
        },
{
    a_lookup_finds_the_last_of_its_name(rows, |r: GroceryItemData| r.id@, change.id@, named);
    a_lookup_finds_the_last_of_its_name(rows, |r: GroceryItemData| r.id@, item.id@, target);
}

/// Deleting an item marks that item deleted and touches no other. One that is deleted already
/// is settled at the version it has, whoever asks; one that is out of the user's reach is
/// refused; and one the server has never seen is deleted all the same.
pub proof fn deleting_an_item_is_for_those_it_is_within_reach_of(
    user: Seq<char>,
    lists: Seq<Seq<char>>,
    bounds: VersionBounds,
    change: GroceryChangeDelta,
    rows: Seq<GroceryItemData>,
    row: Option<GroceryItemData>,
)
    requires
        change.operation_type == OperationType::Delete,
        is_last_of(rows, |r: GroceryItemData| r.id@, change.id@, row),
    ensures
        match item_verdict(user, lists, bounds, change, rows) {
            VerdictView::Settle { report, version } => report == change.id@ && (row matches Some(
                row,
            ) && row.is_deleted && version == row.version),
            VerdictView::Refuse(e) => e is Forbidden && (row matches Some(row) && !row.is_deleted
                && !is_within_reach(user, lists, row)),
            VerdictView::Write { report, write, number, correction } => {
                &&& report == change.id@
                &&& write matches ItemWrite::Delete { id } && id == change.id
                &&& number is None && correction is None
                &&& row matches Some(row) ==> !row.is_deleted && is_within_reach(user, lists, row)
            },
            _ => false,
        },
{
    a_lookup_finds_the_last_of_its_name(rows, |r: GroceryItemData| r.id@, change.id@, row);
}

/// An update without a document asks for the server's copy, and gets the stored item as it
/// stands, under the id it was asked for, and nothing is written. A user it is out of reach of
/// is refused, and where there is no such item there is nothing to answer.
pub proof fn an_item_is_sent_back_as_it_stands(
    user: Seq<char>,
    lists: Seq<Seq<char>>,
    bounds: VersionBounds,
    change: GroceryChangeDelta,
    rows: Seq<GroceryItemData>,
    row: Option<GroceryItemData>,
)
    requires
        change.operation_type == OperationType::Update,
        change.data is Missing || change.data is Null,
        is_last_of(rows, |r: GroceryItemData| r.id@, change.id@, row),
    ensures
        match item_verdict(user, lists, bounds, change, rows) {
            VerdictView::Skip => row is None,
            VerdictView::Echo { report, remote } => row matches Some(row) && {
                &&& is_within_reach(user, lists, row)
                &&& report == change.id@
                &&& remote.id == change.id@
                &&& remote.operation_type == OperationType::Update
                &&& remote.version == row.version
                &&& remote.data.id@ == row.id@
                &&& remote.data.name == row.name
                &&& remote.data.quantity == row.quantity
                &&& remote.data.is_bought == row.is_bought
                &&& remote.data.created_at == row.created_at
                &&& remote.data.position == row.position
                &&& remote.data.category_id == row.category_id
                &&& remote.data.times_bought == row.times_bought
                &&& remote.data.user_id == row.user_id
                &&& remote.data.is_active == row.is_active
                &&& remote.data.list_id == row.list_id
                &&& remote.data.unit == row.unit
                &&& remote.data.notes == row.notes
                &&& remote.data.version == row.version
                &&& remote.data.is_deleted == row.is_deleted
                &&& remote.data.sync_state == row.sync_state
            },
            VerdictView::Refuse(e) => e is Forbidden && (row matches Some(row) && !is_within_reach(
                user,
                lists,
                row,
            )),
            _ => false,
        },
{
    a_lookup_finds_the_last_of_its_name(rows, |r: GroceryItemData| r.id@, change.id@, row);
}

/// A change that carries nothing readable writes nothing: an insert without a document is
/// passed over, and a document that is no item is the client's mistake.
pub proof fn an_unreadable_item_is_never_stored(
    user: Seq<char>,
    lists: Seq<Seq<char>>,
    bounds: VersionBounds,
    change: GroceryChangeDelta,
    rows: Seq<GroceryItemData>,
)
    requires
        change.operation_type != OperationType::Delete,
        !(change.data is Item),
    ensures
        !(item_verdict(user, lists, bounds, change, rows) is Write),
        change.operation_type == OperationType::Insert && change.data is Missing ==> item_verdict(
            user,
            lists,
            bounds,
            change,
            rows,
        ) is Skip,
        change.data is Unreadable || (change.operation_type == OperationType::Insert
            && change.data is Null) ==> (item_verdict(user, lists, bounds, change, rows)
            matches VerdictView::Refuse(e) && e is BadRequest),
{
}

/// A batch of items issues what its changes carry: an item is stored only where a change that
/// is no delete carries exactly that item, and each such change has its item stored; and an
/// item is deleted only by a delete that names it.
pub proof fn a_batch_stores_the_items_it_carries(
    user: Seq<char>,
    lists: Seq<Seq<char>>,
    bounds: VersionBounds,
    changes: Seq<GroceryChangeDelta>,
    rows: Seq<GroceryItemData>,
    t: Tally<ItemWrite, GroceryItemData>,
    i: int,
    w: ItemWrite,
)
    requires
        settles(Ok(t), item_verdicts(user, lists, bounds, changes, rows)),
    ensures
        issues(t, w) ==> match w {
            ItemWrite::Upsert { item, .. } => exists|k: int|
                0 <= k < changes.len() && (#[trigger] changes[k]).operation_type
                    != OperationType::Delete && changes[k].data == Payload::Item(item),
            ItemWrite::Delete { id } => exists|k: int|
                0 <= k < changes.len() && (#[trigger] changes[k]).operation_type
                    == OperationType::Delete && changes[k].id == id,
        },
        0 <= i < changes.len() && changes[i].operation_type != OperationType::Delete ==> (
        changes[i].data matches Payload::Item(item) ==> exists|version: i32| #[trigger]
            issues(t, ItemWrite::Upsert { item, version })),
{
    let vs = item_verdicts(user, lists, bounds, changes, rows);
    a_batch_writes_what_its_changes_do(t, vs, w);
    if issues(t, w) {
        let k = choose|k: int| 0 <= k < vs.len() && (#[trigger] vs[k]) is Write && vs[k]->write == w;
        assert(vs[k] == item_verdict(user, lists, bounds, changes[k], rows));
        match w {
            ItemWrite::Upsert { item, .. } => {
                assert(changes[k].operation_type != OperationType::Delete);
                assert(changes[k].data == Payload::Item(item));
            },
            ItemWrite::Delete { id } => {
                assert(changes[k].operation_type == OperationType::Delete && changes[k].id == id);
            },
        }
    }
    if 0 <= i < changes.len() && changes[i].operation_type != OperationType::Delete {
        if let Payload::Item(item) = changes[i].data {
            a_batch_is_all_or_nothing(vs);
            assert(vs[i] == item_verdict(user, lists, bounds, changes[i], rows));
            assert(!(vs[i] is Refuse));
            if let VerdictView::Write { write, .. } = vs[i] {
                a_batch_writes_what_its_changes_do(t, vs, write);
                if let ItemWrite::Upsert { item: stored, version } = write {
                    assert(stored == item);
                    assert(issues(t, ItemWrite::Upsert { item, version }));
                }
            }
        }
    }
}

/// Each change of a batch is judged as it would be alone, against the items as they were stored
/// before the batch.
pub proof fn an_item_is_judged_on_its_own(
    user: Seq<char>,
    lists: Seq<Seq<char>>,
    bounds: VersionBounds,
    changes: Seq<GroceryChangeDelta>,
    rows: Seq<GroceryItemData>,
    i: int,
)
    requires
        0 <= i < changes.len(),
    ensures
        item_verdicts(user, lists, bounds, changes, rows).len() == changes.len(),
        item_verdicts(user, lists, bounds, changes, rows)[i] == item_verdict(
            user,
            lists,
            bounds,
            changes[i],
            rows,
        ),
{
}

/// Whether a change brings an item the server has never seen: it is no delete, carries an item,
/// and no stored item has the item's id.
pub open spec fn brings(
    change: GroceryChangeDelta,
    rows: Seq<GroceryItemData>,
    item: GroceryItemData,
) -> bool {
    &&& change.operation_type != OperationType::Delete
    &&& change.data == Payload::Item(item)
    &&& forall|j: int| 0 <= j < rows.len() ==> (#[trigger] rows[j]).id@ != item.id@
}

/// The names that are looked up are the lower-case names of the items the server has never
/// seen.
pub proof fn only_unseen_items_are_looked_up(
    change: GroceryChangeDelta,
    rows: Seq<GroceryItemData>,
    name: Seq<char>,
)
    ensures
        is_new_name(change, rows, name) <==> (change.data matches Payload::Item(item) && brings(
            change,
            rows,
            item,
        ) && lowercased(item.name@) == name),
{
    if let Payload::Item(item) = change.data {
        unseen_is_not_found(change, rows, item);
    }
}

proof fn unseen_is_not_found(
    change: GroceryChangeDelta,
    rows: Seq<GroceryItemData>,
    item: GroceryItemData,
)
    requires
        change.data == Payload::Item(item),
    ensures
        new_item(change, rows) == (if brings(change, rows, item) {
            Some(item)
        } else {
            None
        }),
{
    let names = |r: GroceryItemData| r.id@;
    if brings(change, rows, item) {
        a_lookup_finds_the_last_of_its_name(rows, names, item.id@, None);
    } else if row_named(rows, item.id@) is None {
        position_is_of_the_list(rows, item.id@);
    }
}

proof fn suggestions_come_from_mappings(
    item: GroceryItemData,
    mappings: Seq<StoreMapping>,
    seed: StoreInfoSeed,
)
    ensures
        suggested(item, mappings).contains(seed) <==> exists|m: int|
            0 <= m < mappings.len() && (#[trigger] mappings[m]).name_key@ == lowercased(item.name@)
                && seed == seed_of(item, mappings[m]),
    decreases mappings.len(),
{
    if mappings.len() > 0 {
        let front = mappings.drop_last();
        let most = suggested(item, front);
        let all = suggested(item, mappings);
        suggestions_come_from_mappings(item, front, seed);
        if all.contains(seed) {
            let k = choose|k: int| 0 <= k < all.len() && all[k] == seed;
            if k < most.len() {
                assert(most[k] == seed);
                let m = choose|m: int|
                    0 <= m < front.len() && (#[trigger] front[m]).name_key@ == lowercased(
                        item.name@,
                    ) && seed == seed_of(item, front[m]);
                assert(mappings[m] == front[m]);
            } else {
                assert(mappings[mappings.len() - 1] == mappings.last());
            }
        }
        if exists|m: int|
            0 <= m < mappings.len() && (#[trigger] mappings[m]).name_key@ == lowercased(item.name@)
                && seed == seed_of(item, mappings[m]) {
            let m = choose|m: int|
                0 <= m < mappings.len() && (#[trigger] mappings[m]).name_key@ == lowercased(
                    item.name@,
                ) && seed == seed_of(item, mappings[m]);
            if m < front.len() {
                assert(front[m] == mappings[m]);
                let k = choose|k: int| 0 <= k < most.len() && most[k] == seed;
                assert(all[k] == seed);
            } else {
                assert(all[most.len() as int] == seed);
            }
        }
    }
}

proof fn batch_suggestions_come_from_changes(
    changes: Seq<GroceryChangeDelta>,
    rows: Seq<GroceryItemData>,
    mappings: Seq<StoreMapping>,
    seed: StoreInfoSeed,
)
    ensures
        all_suggested(changes, rows, mappings).contains(seed) <==> exists|i: int|
            0 <= i < changes.len() && new_item(#[trigger] changes[i], rows) is Some && suggested(
                new_item(changes[i], rows)->0,
                mappings,
            ).contains(seed),
    decreases changes.len(),
{
    if changes.len() > 0 {
        let front = changes.drop_last();
        let most = all_suggested(front, rows, mappings);
        let all = all_suggested(changes, rows, mappings);
        let last = changes.last();
        batch_suggestions_come_from_changes(front, rows, mappings, seed);
        if all.contains(seed) {
            let k = choose|k: int| 0 <= k < all.len() && all[k] == seed;
            if k < most.len() {
                assert(most[k] == seed);
                let i = choose|i: int|
                    0 <= i < front.len() && new_item(#[trigger] front[i], rows) is Some
                        && suggested(new_item(front[i], rows)->0, mappings).contains(seed);
                assert(changes[i] == front[i]);
            } else {
                let own = suggested(new_item(last, rows)->0, mappings);
                assert(own[k - most.len()] == seed);
                assert(changes[changes.len() - 1] == last);
            }
        }
        if exists|i: int|
            0 <= i < changes.len() && new_item(#[trigger] changes[i], rows) is Some && suggested(
                new_item(changes[i], rows)->0,
                mappings,
            ).contains(seed) {
            let i = choose|i: int|
                0 <= i < changes.len() && new_item(#[trigger] changes[i], rows) is Some
                    && suggested(new_item(changes[i], rows)->0, mappings).contains(seed);
            if i < front.len() {
                assert(front[i] == changes[i]);
                let k = choose|k: int| 0 <= k < most.len() && most[k] == seed;
                assert(all[k] == seed);
            } else {
                let own = suggested(new_item(last, rows)->0, mappings);
                let k = choose|k: int| 0 <= k < own.len() && own[k] == seed;
                assert(all[most.len() + k] == seed);
            }
        }
    }
}

proof fn kept_are_suggested(suggestions: Seq<StoreInfoSeed>, existing: Seq<ItemStore>)
    ensures
        forall|k: int|
            0 <= k < kept_seeds(suggestions, existing).len() ==> suggestions.contains(
                #[trigger] kept_seeds(suggestions, existing)[k],
            ),
        forall|k: int|
            0 <= k < suggestions.len() ==> has_entry(existing, pair_of(#[trigger] suggestions[k]))
                || has_seed(kept_seeds(suggestions, existing), pair_of(suggestions[k])),
    decreases suggestions.len(),
{
    if suggestions.len() > 0 {
        let front = suggestions.drop_last();
        let last = suggestions.last();
        let most = kept_seeds(front, existing);
        let all = kept_seeds(suggestions, existing);
        kept_are_suggested(front, existing);
        assert forall|k: int| 0 <= k < all.len() implies suggestions.contains(#[trigger] all[k]) by {
            if k < most.len() {
                assert(all[k] == most[k]);
                let j = choose|j: int| 0 <= j < front.len() && front[j] == most[k];
                assert(suggestions[j] == all[k]);
            } else {
                assert(suggestions[suggestions.len() - 1] == last);
            }
        }
        assert forall|k: int| 0 <= k < suggestions.len() implies has_entry(
            existing,
            pair_of(#[trigger] suggestions[k]),
        ) || has_seed(all, pair_of(suggestions[k])) by {
            if k < front.len() {
                assert(front[k] == suggestions[k]);
                if has_seed(most, pair_of(front[k])) {
                    let j = choose|j: int|
                        0 <= j < most.len() && pair_of(#[trigger] most[j]) == pair_of(front[k]);
                    assert(all[j] == most[j]);
                }
            } else if !has_entry(existing, pair_of(last)) {
                if has_seed(most, pair_of(last)) {
                    let j = choose|j: int|
                        0 <= j < most.len() && pair_of(#[trigger] most[j]) == pair_of(last);
                    assert(all[j] == most[j]);
                } else {
                    assert(all[most.len() as int] == last);
                }
            }
        }
    }
}

/// An unseen item inherits what the household's stores charge for items of its name: every
/// entry that is inserted is that of an item the batch brings at a store that has its name,
/// with that store's price and availability; and each such pair of item and store ends up with
/// an entry.
pub proof fn an_unseen_item_inherits_the_prices_of_its_name(
    changes: Seq<GroceryChangeDelta>,
    rows: Seq<GroceryItemData>,
    mappings: Seq<StoreMapping>,
    entries: Seq<ItemStore>,
    k: int,
    i: int,
    m: int,
    item: GroceryItemData,
)
    ensures
        ({
            let seeds = kept_seeds(all_suggested(changes, rows, mappings), entries);
            &&& 0 <= k < seeds.len() ==> exists|a: int, b: int|
                0 <= a < changes.len() && 0 <= b < mappings.len() && inherits(
                    #[trigger] changes[a],
                    rows,
                    #[trigger] mappings[b],
                    seeds[k],
                )
            &&& 0 <= i < changes.len() && 0 <= m < mappings.len() && brings(changes[i], rows, item)
                && mappings[m].name_key@ == lowercased(item.name@) ==> {
                ||| exists|e: int|
                    0 <= e < entries.len() && (#[trigger] entries[e]).grocery_item_id@ == item.id@
                        && entries[e].store_id@ == mappings[m].store_id@
                ||| exists|s: int|
                    0 <= s < seeds.len() && (#[trigger] seeds[s]).grocery_item_id@ == item.id@
                        && seeds[s].store_id@ == mappings[m].store_id@
            }
        }),
{
    let suggestions = all_suggested(changes, rows, mappings);
    let seeds = kept_seeds(suggestions, entries);
    kept_are_suggested(suggestions, entries);
    if 0 <= k < seeds.len() {
        let seed = seeds[k];
        batch_suggestions_come_from_changes(changes, rows, mappings, seed);
        let a = choose|a: int|
            0 <= a < changes.len() && new_item(#[trigger] changes[a], rows) is Some && suggested(
                new_item(changes[a], rows)->0,
                mappings,
            ).contains(seed);
        let brought = new_item(changes[a], rows)->0;
        unseen_is_not_found(changes[a], rows, brought);
        suggestions_come_from_mappings(brought, mappings, seed);
        let b = choose|b: int|
            0 <= b < mappings.len() && (#[trigger] mappings[b]).name_key@ == lowercased(
                brought.name@,
            ) && seed == seed_of(brought, mappings[b]);
        assert(inherits(changes[a], rows, mappings[b], seed));
    }
    if 0 <= i < changes.len() && 0 <= m < mappings.len() && brings(changes[i], rows, item)
        && mappings[m].name_key@ == lowercased(item.name@) {
        let seed = seed_of(item, mappings[m]);
        unseen_is_not_found(changes[i], rows, item);
        suggestions_come_from_mappings(item, mappings, seed);
        assert(new_item(changes[i], rows) is Some);
        batch_suggestions_come_from_changes(changes, rows, mappings, seed);
        let at = choose|at: int| 0 <= at < suggestions.len() && suggestions[at] == seed;
        assert(has_entry(entries, pair_of(suggestions[at])) || has_seed(
            seeds,
            pair_of(suggestions[at]),
        ));
        if has_entry(entries, pair_of(seed)) {
            let e = choose|e: int|
                0 <= e < entries.len() && (#[trigger] entries[e]).grocery_item_id@ == item.id@
                    && entries[e].store_id@ == mappings[m].store_id@;
            assert(entries[e].grocery_item_id@ == item.id@);
        } else {
            let s = choose|s: int| 0 <= s < seeds.len() && pair_of(#[trigger] seeds[s]) == pair_of(seed);
            assert(seeds[s].grocery_item_id@ == item.id@);
        }
    }
}

/// Whether an entry is what the item a change brings inherits from a store that has its name.
pub open spec fn inherits(
    change: GroceryChangeDelta,
    rows: Seq<GroceryItemData>,
    mapping: StoreMapping,
    seed: StoreInfoSeed,
) -> bool {
    change.data matches Payload::Item(item) && {
        &&& brings(change, rows, item)
        &&& mapping.name_key@ == lowercased(item.name@)
        &&& seed.grocery_item_id == item.id
        &&& seed.store_id == mapping.store_id
        &&& seed.price == mapping.price
        &&& seed.is_available == mapping.is_available
    }
}

/// Items are stored together and deleted together, but not both in one statement, and a
/// statement takes each item once: a write is about the item it stores or deletes.
pub proof fn a_write_is_about_its_own_item(one: ItemWrite, other: ItemWrite)
    ensures
        one.kind() == other.kind() <==> (one is Upsert <==> other is Upsert),
        one matches ItemWrite::Upsert { item, .. } ==> one.rows() == seq![item.id@],
        one matches ItemWrite::Delete { id } ==> one.rows() == seq![id@],
{
}

/// The lists a batch of items is about are those its documents put their items on and those the
/// stored items it names are on, each once.
pub proof fn items_are_about_the_lists_they_are_on(
    changes: &Vec<GroceryChangeDelta>,
    rows: &Vec<GroceryItemData>,
    lists: Vec<String>,
    list: Seq<char>,
    i: int,
    row: Option<GroceryItemData>,
)
    requires
        call_ensures(lists_named::<GroceryItemData, GroceryItemData>, (changes, rows), lists),
    ensures
        texts(lists@).no_duplicates(),
        0 <= i < changes@.len() ==> {
            let change = changes@[i];
            &&& change.data matches Payload::Item(item) ==> (item.list_id matches Some(l) ==> texts(
                lists@,
            ).contains(l@))
            &&& is_last_of(rows@, |r: GroceryItemData| r.id@, change.id@, row) ==> (
            row matches Some(r) ==> (r.list_id matches Some(l) ==> texts(lists@).contains(l@)))
            &&& change.data matches Payload::Item(item) ==> is_last_of(
                rows@,
                |r: GroceryItemData| r.id@,
                item.id@,
                row,
            ) ==> (row matches Some(r) ==> (r.list_id matches Some(l) ==> texts(lists@).contains(
                l@,
            )))
        },
        texts(lists@).contains(list) ==> exists|j: int|
            0 <= j < changes@.len() && puts_on(#[trigger] changes@[j], rows@, list),
{
    if 0 <= i < changes@.len() {
        let change = changes@[i];
        if is_last_of(rows@, |r: GroceryItemData| r.id@, change.id@, row) {
            a_lookup_finds_the_last_of_its_name(
                rows@,
                |r: GroceryItemData| r.id@,
                change.id@,
                row,
            );
            if row is Some && row->0.list_id is Some {
                assert(names_list(changes@[i], rows@, row->0.list_id->0@));
            }
        }
        if let Payload::Item(item) = change.data {
            if item.list_id is Some {
                assert(names_list(changes@[i], rows@, item.list_id->0@));
            }
            if is_last_of(rows@, |r: GroceryItemData| r.id@, item.id@, row) {
                a_lookup_finds_the_last_of_its_name(
                    rows@,
                    |r: GroceryItemData| r.id@,
                    item.id@,
                    row,
                );
                if row is Some && row->0.list_id is Some {
                    assert(names_list(changes@[i], rows@, row->0.list_id->0@));
                }
            }
        }
    }
    if texts(lists@).contains(list) {
        let j = choose|j: int|
            0 <= j < changes@.len() && names_list(#[trigger] changes@[j], rows@, list);
        let change = changes@[j];
        position_is_of_the_list(rows@, change.id@);
        if let Payload::Item(item) = change.data {
            position_is_of_the_list(rows@, item.id@);
        }
        assert(puts_on(changes@[j], rows@, list));
    }
}

/// Whether a change puts an item on a list, or is about a stored item on it.
pub open spec fn puts_on(
    change: GroceryChangeDelta,
    rows: Seq<GroceryItemData>,
    list: Seq<char>,
) -> bool {
    ||| (change.data matches Payload::Item(item) && item.list_id matches Some(l) && l@ == list)
    ||| (exists|k: int|
        0 <= k < rows.len() && (#[trigger] rows[k]).list_id is Some && rows[k].list_id->0@ == list
            && (rows[k].id@ == change.id@ || (change.data matches Payload::Item(item)
            && rows[k].id@ == item.id@)))
}

/// A batch of items is judged change by change, each for the user who sent it, by the lists they
/// are a member of and the items that are stored.
pub proof fn a_batch_of_items_is_judged_change_by_change(
    user_id: &str,
    changes: &Vec<GroceryChangeDelta>,
    existing: &Vec<GroceryItemData>,
    member_lists: &Vec<String>,
    bounds: VersionBounds,
    r: Result<Tally<ItemWrite, GroceryItemData>, AppError>,
)
    requires
        call_ensures(process_grocery_changes, (user_id, changes, existing, member_lists, bounds), r),
    ensures
        settles(
            r,
            Seq::new(changes@.len(), |i: int| item_verdict(
                user_id@,
                texts(member_lists@),
                bounds,
                changes@[i],
                existing@,
            )),
        ),
{
}

} // verus!
