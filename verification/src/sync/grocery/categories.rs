//! Categories: the aisles a household sorts its groceries into.

use crate::error::{AppError, ErrorView};
use crate::sync::batching::{BatchWrite, WriteKind};
use crate::sync::grocery::access::{can_touch, is_on_list, may_touch, on_list, Listed};
use crate::sync::lookup::{
    a_lookup_finds_the_last_of_its_name, deref_opt, is_last_of, row_named, Keyed, RowIndex,
};
use crate::sync::rejections::{payload_refusal, payload_rejection};
use crate::sync::tally::{refusal_stands, settles, Count, Tally, Verdict, VerdictView};
use crate::sync::types::{
    forbidden, ChangeDelta, OperationType, Payload, RemoteDelta, RemoteView, SyncState,
};
use crate::sync::versioning::{assign_version, next_version, VersionBounds};
use crate::text::{copy_opt, opt_text, text_set, texts};
use vstd::hash_set::StringHashSet;
use vstd::prelude::*;

verus! {

/// A category, as a client sends it and as the server stores it.
#[derive(Debug)]
pub struct CategoryData {
    pub id: String,
    pub name: String,
    pub position: i32,
    pub user_id: Option<String>,
    pub icon: Option<String>,
    pub version: i32,
    pub is_deleted: bool,
    pub sync_state: SyncState,
    pub list_id: Option<String>,
}

pub type CategoryChangeDelta = ChangeDelta<CategoryData>;

impl CategoryData {
    /// A copy of this category.
    pub fn copy(&self) -> (c: CategoryData)
        ensures
            c == *self,
    {
        CategoryData {
            id: self.id.clone(),
            name: self.name.clone(),
            position: self.position,
            user_id: copy_opt(&self.user_id),
            icon: copy_opt(&self.icon),
            version: self.version,
            is_deleted: self.is_deleted,
            sync_state: self.sync_state.copy(),
            list_id: copy_opt(&self.list_id),
        }
    }
}

impl Keyed for CategoryData {
    open spec fn key(&self) -> Seq<char> {
        self.id@
    }

    fn key_text(&self) -> (s: String) {
        self.id.clone()
    }
}

impl Listed for CategoryData {
    open spec fn list(&self) -> Option<Seq<char>> {
        opt_text(self.list_id)
    }

    fn list_of(&self) -> (l: Option<String>) {
        copy_opt(&self.list_id)
    }
}

/// The kinds of write categories take.
#[derive(Debug, Clone, Copy, PartialEq, Eq, Structural)]
pub enum CategoryKind {
    Upsert,
    Delete,
}

impl WriteKind for CategoryKind {
    fn same(&self, other: &Self) -> (s: bool) {
        *self == *other
    }

    fn copied(&self) -> (k: Self) {
        *self
    }
}

/// A category to store. The owner is the authenticated user, whatever the client sent.
#[derive(Debug)]
pub struct CategoryUpsert {
    pub id: String,
    pub name: String,
    pub position: i32,
    pub icon: Option<String>,
    pub list_id: Option<String>,
    pub version: i32,
    pub is_deleted: bool,
}

/// One write to the categories.
#[derive(Debug)]
pub enum CategoryWrite {
    Upsert(CategoryUpsert),
    /// Marks the category deleted and advances its stored version.
    Delete { id: String },
}

impl BatchWrite for CategoryWrite {
    type Kind = CategoryKind;

    open spec fn kind(&self) -> CategoryKind {
        match *self {
            CategoryWrite::Upsert(_) => CategoryKind::Upsert,
            CategoryWrite::Delete { .. } => CategoryKind::Delete,
        }
    }

    open spec fn rows(&self) -> Seq<Seq<char>> {
        match *self {
            CategoryWrite::Upsert(row) => seq![row.id@],
            CategoryWrite::Delete { id } => seq![id@],
        }
    }

    fn kind_of(&self) -> (k: CategoryKind) {
        match self {
            CategoryWrite::Upsert(_) => CategoryKind::Upsert,
            CategoryWrite::Delete { .. } => CategoryKind::Delete,
        }
    }

    fn rows_of(&self) -> (rows: Vec<String>) {
        let id = match self {
            CategoryWrite::Upsert(row) => row.id.clone(),
            CategoryWrite::Delete { id } => id.clone(),
        };
        let rows = vec![id];
        assert(texts(rows@) =~= self.rows());
        rows
    }
}

/// The write an item becomes at `version`.
pub open spec fn category_upsert(item: CategoryData, version: i32) -> CategoryWrite {
    CategoryWrite::Upsert(
        CategoryUpsert {
            id: item.id,
            name: item.name,
            position: item.position,
            icon: item.icon,
            list_id: item.list_id,
            version,
            is_deleted: item.is_deleted,
        },
    )
}

/// Whether there is a stored row that `user` may not touch.
pub open spec fn is_anothers(
    user: Seq<char>,
    lists: Seq<Seq<char>>,
    row: Option<CategoryData>,
) -> bool {
    row is Some && !may_touch(row->0.user_id, row->0.list_id, user, lists)
}

/// What storing `item` comes to, given the stored row the change names and the one its
/// document is written over. The two are one unless the change and its document disagree.
pub open spec fn category_store(
    user: Seq<char>,
    lists: Seq<Seq<char>>,
    bounds: VersionBounds,
    change: CategoryChangeDelta,
    item: CategoryData,
    named: Option<CategoryData>,
    target: Option<CategoryData>,
) -> VerdictView<CategoryWrite, CategoryData> {
    if item.list_id is Some && !on_list(item.list_id, lists) {
        VerdictView::Refuse(
            ErrorView::Forbidden("User is not a member of list "@ + item.list_id->0@),
        )
    } else if is_anothers(user, lists, named) || is_anothers(user, lists, target) {
        VerdictView::Refuse(
            ErrorView::Forbidden("User is not authorized to update category "@ + item.id@),
        )
    } else {
        let stored = match target {
            Some(row) => Some(row.version),
            None => None,
        };
        match next_version(bounds, "Category"@, change.id@, stored, item.version) {
            Ok(version) => VerdictView::Write {
                report: change.id@,
                write: category_upsert(item, version),
                number: Some(version),
                correction: None,
            },
            Err(e) => VerdictView::Refuse(e),
        }
    }
}

/// What one change comes to, given the stored rows.
pub open spec fn category_verdict(
    user: Seq<char>,
    lists: Seq<Seq<char>>,
    bounds: VersionBounds,
    change: CategoryChangeDelta,
    rows: Seq<CategoryData>,
) -> VerdictView<CategoryWrite, CategoryData> {
    let row = row_named(rows, change.id@);
    if change.operation_type == OperationType::Delete {
        match row {
            Some(row) if row.is_deleted => VerdictView::Settle {
                report: change.id@,
                version: row.version,
            },
            Some(row) if !may_touch(row.user_id, row.list_id, user, lists) => VerdictView::Refuse(
                ErrorView::Forbidden("User is not authorized to delete category "@ + change.id@),
            ),
            _ => VerdictView::Write {
                report: change.id@,
                write: CategoryWrite::Delete { id: change.id },
                number: None,
                correction: None,
            },
        }
    } else if change.asks_for_copy() {
        match row {
            None => VerdictView::Skip,
            Some(row) => if may_touch(row.user_id, row.list_id, user, lists) {
                VerdictView::Echo {
                    report: change.id@,
                    remote: RemoteView {
                        id: change.id@,
                        operation_type: OperationType::Update,
                        version: row.version,
                        data: CategoryData { id: change.id, ..row },
                    },
                }
            } else {
                VerdictView::Refuse(
                    ErrorView::Forbidden(
                        "User is not authorized to update category "@ + change.id@,
                    ),
                )
            },
        }
    } else {
        match change.data {
            Payload::Missing => VerdictView::Skip,
            Payload::Null(reason) => VerdictView::Refuse(
                payload_rejection("category"@, change.id@, reason@),
            ),
            Payload::Unreadable(reason) => VerdictView::Refuse(
                payload_rejection("category"@, change.id@, reason@),
            ),
            Payload::Item(item) => category_store(
                user,
                lists,
                bounds,
                change,
                item,
                row,
                row_named(rows, item.id@),
            ),
        }
    }
}

/// What the changes of a batch come to.
pub open spec fn category_verdicts(
    user: Seq<char>,
    lists: Seq<Seq<char>>,
    bounds: VersionBounds,
    changes: Seq<CategoryChangeDelta>,
    rows: Seq<CategoryData>,
) -> Seq<VerdictView<CategoryWrite, CategoryData>> {
    Seq::new(
        changes.len(),
        |i: int| category_verdict(user, lists, bounds, changes[i], rows),
    )
}

fn anothers(
    user: &str,
    lists: &StringHashSet,
    row: Option<&CategoryData>,
    Ghost(all): Ghost<Seq<Seq<char>>>,
) -> (b: bool)
    requires
        forall|s: Seq<char>| #[trigger] lists@.contains(s) <==> all.contains(s),
    ensures
        b == is_anothers(user@, all, deref_opt(row)),
{
    match row {
        Some(row) => !can_touch(&row.user_id, &row.list_id, user, lists, Ghost(all)),
        None => false,
    }
}

fn store_category(
    user: &str,
    lists: &StringHashSet,
    bounds: VersionBounds,
    change: &CategoryChangeDelta,
    item: &CategoryData,
    named: Option<&CategoryData>,
    target: Option<&CategoryData>,
    Ghost(all): Ghost<Seq<Seq<char>>>,
) -> (v: Verdict<CategoryWrite, CategoryData>)
    requires
        forall|s: Seq<char>| #[trigger] lists@.contains(s) <==> all.contains(s),
    ensures
        v@ == category_store(
            user@,
            all,
            bounds,
            *change,
            *item,
            deref_opt(named),
            deref_opt(target),
        ),
{
    if let Some(list) = &item.list_id {
        if !is_on_list(&item.list_id, lists, Ghost(all)) {
            return Verdict::Refuse(forbidden("User is not a member of list ", list.as_str()));
        }
    }
    if anothers(user, lists, named, Ghost(all)) || anothers(user, lists, target, Ghost(all)) {
        return Verdict::Refuse(
            forbidden("User is not authorized to update category ", item.id.as_str()),
        );
    }
    let stored: Option<i32> = match target {
        Some(row) => Some(row.version),
        None => None,
    };
    match assign_version(bounds, "Category", change.id.as_str(), stored, item.version) {
        Ok(version) => Verdict::Write {
            report: change.id.clone(),
            write: CategoryWrite::Upsert(
                CategoryUpsert {
                    id: item.id.clone(),
                    name: item.name.clone(),
                    position: item.position,
                    icon: copy_opt(&item.icon),
                    list_id: copy_opt(&item.list_id),
                    version,
                    is_deleted: item.is_deleted,
                },
            ),
            number: Some(version),
            correction: None,
        },
        Err(e) => Verdict::Refuse(e),
    }
}

fn judge_category(
    user: &str,
    lists: &StringHashSet,
    bounds: VersionBounds,
    change: &CategoryChangeDelta,
    rows: &Vec<CategoryData>,
    index: &RowIndex,
    Ghost(all): Ghost<Seq<Seq<char>>>,
) -> (v: Verdict<CategoryWrite, CategoryData>)
    requires
        index.indexes(rows@),
        forall|s: Seq<char>| #[trigger] lists@.contains(s) <==> all.contains(s),
    ensures
        v@ == category_verdict(user@, all, bounds, *change, rows@),
{
    let row = index.find(rows, change.id.as_str());
    if change.operation_type == OperationType::Delete {
        if let Some(row) = row {
            if row.is_deleted {
                return Verdict::Settle { report: change.id.clone(), version: row.version };
            }
            if !can_touch(&row.user_id, &row.list_id, user, lists, Ghost(all)) {
                return Verdict::Refuse(
                    forbidden("User is not authorized to delete category ", change.id.as_str()),
                );
            }
        }
        return Verdict::Write {
            report: change.id.clone(),
            write: CategoryWrite::Delete { id: change.id.clone() },
            number: None,
            correction: None,
        };
    }
    if change.needs_copy() {
        return match row {
            None => Verdict::Skip,
            Some(row) => {
                if can_touch(&row.user_id, &row.list_id, user, lists, Ghost(all)) {
                    let mut data = row.copy();
                    data.id = change.id.clone();
                    Verdict::Echo {
                        report: change.id.clone(),
                        remote: RemoteDelta {
                            id: change.id.clone(),
                            operation_type: OperationType::Update,
                            version: row.version,
                            data,
                        },
                    }
                } else {
                    Verdict::Refuse(
                        forbidden("User is not authorized to update category ", change.id.as_str()),
                    )
                }
            },
        };
    }
    match &change.data {
        Payload::Missing => Verdict::Skip,
        Payload::Null(reason) => Verdict::Refuse(
            payload_refusal("category", change.id.as_str(), reason.as_str()),
        ),
        Payload::Unreadable(reason) => Verdict::Refuse(
            payload_refusal("category", change.id.as_str(), reason.as_str()),
        ),
        Payload::Item(item) => {
            let target = index.find(rows, item.id.as_str());
            store_category(user, lists, bounds, change, item, row, target, Ghost(all))
        },
    }
}

/// Applies a batch of category changes: decides each against the stored rows and the lists
/// the user is a live member of, and collects what to write and what to answer.
pub fn process_category_changes(
    user_id: &str,
    changes: &Vec<CategoryChangeDelta>,
    existing: &Vec<CategoryData>,
    member_lists: &Vec<String>,
    bounds: VersionBounds,
) -> (r: Result<Tally<CategoryWrite, CategoryData>, AppError>)
    ensures
        settles(
            r,
            category_verdicts(user_id@, texts(member_lists@), bounds, changes@, existing@),
        ),
{
    let ghost lists = texts(member_lists@);
    let ghost vs = category_verdicts(user_id@, lists, bounds, changes@, existing@);
    let index = RowIndex::of(existing);
    let set = text_set(member_lists);
    let mut count: Count<CategoryWrite, CategoryData> = Count::new();
    assert(vs.take(0) =~= seq![]);
    let mut i: usize = 0;
    while i < changes.len()
        invariant
            i <= changes.len(),
            lists == texts(member_lists@),
            vs == category_verdicts(user_id@, lists, bounds, changes@, existing@),
            index.indexes(existing@),
            forall|s: Seq<char>| #[trigger] set@.contains(s) <==> lists.contains(s),
            count.wf(),
            count.counts(vs.take(i as int)),
        decreases changes.len() - i,
    {
        let v = judge_category(user_id, &set, bounds, &changes[i], existing, &index, Ghost(lists));
        proof {
            assert(v@ == vs[i as int]);
            assert(vs.take(i as int).push(v@) =~= vs.take(i + 1));
        }
        match count.absorb(v) {
            Ok(_) => {},
            Err(e) => {
                proof {
                    refusal_stands(vs, i + 1);
                }
                return Err(e);
            },
        }
        i = i + 1;
    }
    assert(vs.take(vs.len() as int) =~= vs);
    Ok(count.finish())
}

/// A stored category is written only by a user who may touch it, whatever id the change goes
/// by, and a write moves it exactly one version on.
pub proof fn a_category_write_is_authorised(
    user: Seq<char>,
    lists: Seq<Seq<char>>,
    bounds: VersionBounds,
    change: CategoryChangeDelta,
    rows: Seq<CategoryData>,
)
    ensures
        category_verdict(user, lists, bounds, change, rows) matches VerdictView::Write {
            write,
            number,
            ..
        } ==> {
            &&& !is_anothers(user, lists, row_named(rows, change.id@))
            &&& !is_anothers(user, lists, row_named(rows, written_category(write)))
            &&& (row_named(rows, written_category(write)) matches Some(row) ==> number is Some
                ==> number->0 == row.version + 1)
        },
{
}

/// The category a write lands on.
pub open spec fn written_category(write: CategoryWrite) -> Seq<char> {
    match write {
        CategoryWrite::Upsert(row) => row.id@,
        CategoryWrite::Delete { id } => id@,
    }
}

/// Whether a category is the user's to touch: their own, or on a list they are a live member
/// of.
pub open spec fn is_within_reach(user: Seq<char>, lists: Seq<Seq<char>>, row: CategoryData) -> bool {
    ||| row.user_id matches Some(owner) && owner@ == user
    ||| row.list_id matches Some(list) && lists.contains(list@)
}

/// A category is stored as the client sent it, whether or not one is stored under its id
/// already. A stored one moves one version on and a new one starts at the client's number. The
/// write is owed whenever the category's list and the stored ones it touches are the user's and
/// the version allows it, and only then.
pub proof fn a_category_is_stored_as_it_was_sent(
    user: Seq<char>,
    lists: Seq<Seq<char>>,
    bounds: VersionBounds,
    change: CategoryChangeDelta,
    rows: Seq<CategoryData>,
    item: CategoryData,
    named: Option<CategoryData>,
    target: Option<CategoryData>,
)
    requires
        change.operation_type != OperationType::Delete,
        change.data == Payload::Item(item),
        is_last_of(rows, |r: CategoryData| r.id@, change.id@, named),
        is_last_of(rows, |r: CategoryData| r.id@, item.id@, target),
    ensures
        match category_verdict(user, lists, bounds, change, rows) {
            VerdictView::Write { report, write, number, correction } => {
                &&& report == change.id@
                &&& correction is None
                &&& match write {
                    CategoryWrite::Upsert(stored) => {
                        &&& stored.id == item.id
                        &&& stored.name == item.name
                        &&& stored.position == item.position
                        &&& stored.icon == item.icon
                        &&& stored.list_id == item.list_id
                        &&& stored.is_deleted == item.is_deleted
                        &&& number == Some(stored.version)
                        &&& match target {
                            Some(row) => stored.version == row.version + 1,
                            None => stored.version == item.version,
                        }
                    },
                    CategoryWrite::Delete { .. } => false,
                }
            },
            VerdictView::Refuse(_) => true,
            _ => false,
        },
        category_verdict(user, lists, bounds, change, rows) is Write <==> {
            &&& item.list_id matches Some(list) ==> lists.contains(list@)
            &&& named matches Some(row) ==> is_within_reach(user, lists, row)
            &&& target matches Some(row) ==> is_within_reach(user, lists, row) && row.version
                < i32::MAX
            &&& target is None ==> 0 <= item.version && item.version <= bounds.max_seed
        },
{
    a_lookup_finds_the_last_of_its_name(rows, |r: CategoryData| r.id@, change.id@, named);
    a_lookup_finds_the_last_of_its_name(rows, |r: CategoryData| r.id@, item.id@, target);
}

/// Deleting a category marks that category deleted and touches no other. One that is deleted
/// already is settled at the version it has, whoever asks; one that is out of the user's reach
/// is refused; and one the server has never seen is deleted all the same.
pub proof fn deleting_a_category_is_for_those_it_is_within_reach_of(
    user: Seq<char>,
    lists: Seq<Seq<char>>,
    bounds: VersionBounds,
    change: CategoryChangeDelta,
    rows: Seq<CategoryData>,
    row: Option<CategoryData>,
)
    requires
        change.operation_type == OperationType::Delete,
        is_last_of(rows, |r: CategoryData| r.id@, change.id@, row),
    ensures
        match category_verdict(user, lists, bounds, change, rows) {
            VerdictView::Settle { report, version } => report == change.id@ && (row matches Some(
                row,
            ) && row.is_deleted && version == row.version),
            VerdictView::Refuse(e) => e is Forbidden && (row matches Some(row) && !row.is_deleted
                && !is_within_reach(user, lists, row)),
            VerdictView::Write { report, write, number, correction } => {
                &&& report == change.id@
                &&& write matches CategoryWrite::Delete { id } && id == change.id
                &&& number is None && correction is None
                &&& row matches Some(row) ==> !row.is_deleted && is_within_reach(user, lists, row)
            },
            _ => false,
        },
{
    a_lookup_finds_the_last_of_its_name(rows, |r: CategoryData| r.id@, change.id@, row);
}

/// An update without a document gets the stored category as it stands, under the id it was
/// asked for, and nothing is written. A user it is out of reach of is refused, and where there
/// is no such category there is nothing to answer.
pub proof fn a_category_is_sent_back_as_it_stands(
    user: Seq<char>,
    lists: Seq<Seq<char>>,
    bounds: VersionBounds,
    change: CategoryChangeDelta,
    rows: Seq<CategoryData>,
    row: Option<CategoryData>,
)
    requires
        change.operation_type == OperationType::Update,
        change.data is Missing || change.data is Null,
        is_last_of(rows, |r: CategoryData| r.id@, change.id@, row),
    ensures
        match category_verdict(user, lists, bounds, change, rows) {
            VerdictView::Skip => row is None,
            VerdictView::Echo { report, remote } => row matches Some(row) && {
                &&& is_within_reach(user, lists, row)
                &&& report == change.id@
                &&& remote.id == change.id@
                &&& remote.operation_type == OperationType::Update
                &&& remote.version == row.version
                &&& remote.data.id@ == row.id@
                &&& remote.data.name == row.name
                &&& remote.data.position == row.position
                &&& remote.data.user_id == row.user_id
                &&& remote.data.icon == row.icon
                &&& remote.data.version == row.version
                &&& remote.data.is_deleted == row.is_deleted
                &&& remote.data.sync_state == row.sync_state
                &&& remote.data.list_id == row.list_id
            },
            VerdictView::Refuse(e) => e is Forbidden && (row matches Some(row) && !is_within_reach(
                user,
                lists,
                row,
            )),
            _ => false,
        },
{
    a_lookup_finds_the_last_of_its_name(rows, |r: CategoryData| r.id@, change.id@, row);
}

/// A change that carries nothing readable writes nothing: an insert without a document is
/// passed over, and a document that is no category is the client's mistake.
pub proof fn an_unreadable_category_is_never_stored(
    user: Seq<char>,
    lists: Seq<Seq<char>>,
    bounds: VersionBounds,
    change: CategoryChangeDelta,
    rows: Seq<CategoryData>,
)
    requires
        change.operation_type != OperationType::Delete,
        !(change.data is Item),
    ensures
        !(category_verdict(user, lists, bounds, change, rows) is Write),
        change.operation_type == OperationType::Insert && change.data is Missing
            ==> category_verdict(user, lists, bounds, change, rows) is Skip,
        change.data is Unreadable || (change.operation_type == OperationType::Insert
            && change.data is Null) ==> (category_verdict(user, lists, bounds, change, rows)
            matches VerdictView::Refuse(e) && e is BadRequest),
{
}

/// Each change of a batch is judged as it would be alone, against the rows as they were stored
/// before the batch.
pub proof fn a_category_is_judged_on_its_own(
    user: Seq<char>,
    lists: Seq<Seq<char>>,
    bounds: VersionBounds,
    changes: Seq<CategoryChangeDelta>,
    rows: Seq<CategoryData>,
    i: int,
)
    requires
        0 <= i < changes.len(),
    ensures
        category_verdicts(user, lists, bounds, changes, rows).len() == changes.len(),
        category_verdicts(user, lists, bounds, changes, rows)[i] == category_verdict(
            user,
            lists,
            bounds,
            changes[i],
            rows,
        ),
{
}

/// Categories are stored together and deleted together, but not both in one statement, and a
/// statement takes each category once: a write is about the category it stores or deletes.
pub proof fn a_write_is_about_its_own_category(one: CategoryWrite, other: CategoryWrite)
    ensures
        one.kind() == other.kind() <==> (one is Upsert <==> other is Upsert),
        one matches CategoryWrite::Upsert(row) ==> one.rows() == seq![row.id@],
        one matches CategoryWrite::Delete { id } ==> one.rows() == seq![id@],
{
}

/// A category is on the list it says.
pub proof fn a_category_is_on_the_list_it_says(category: CategoryData)
    ensures
        category.list_id matches Some(list) ==> category.list() == Some(list@),
        category.list_id is None ==> category.list() is None,
{
}

/// A batch of categories is judged change by change, each for the user who sent it, by the lists
/// they are a member of and the categories that are stored.
pub proof fn a_batch_of_categories_is_judged_change_by_change(
    user_id: &str,
    changes: &Vec<CategoryChangeDelta>,
    existing: &Vec<CategoryData>,
    member_lists: &Vec<String>,
    bounds: VersionBounds,
    r: Result<Tally<CategoryWrite, CategoryData>, AppError>,
)
    requires
        call_ensures(process_category_changes, (user_id, changes, existing, member_lists, bounds), r),
    ensures
        settles(
            r,
            Seq::new(changes@.len(), |i: int| category_verdict(
                user_id@,
                texts(member_lists@),
                bounds,
                changes@[i],
                existing@,
            )),
        ),
{
}

} // verus!
