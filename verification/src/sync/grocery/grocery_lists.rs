//! Grocery lists: the collections a household shares.

use crate::error::{AppError, ErrorView};
use crate::sync::batching::{BatchWrite, WriteKind};
use crate::sync::deletes::{ack_unsynced_delete, UNSYNCED_DELETE_VERSION};
use crate::sync::lookup::{
    a_lookup_finds_the_last_of_its_name, deref_opt, is_last_of, row_named, Keyed, RowIndex,
};
use crate::sync::rejections::{payload_refusal, payload_rejection};
use crate::sync::tally::{refusal_stands, settles, Count, Tally, Verdict, VerdictView};
use crate::sync::types::{
    forbidden, ChangeDelta, OperationType, Payload, RemoteDelta, RemoteView, SyncState,
};
use crate::sync::versioning::{assign_version, next_version, VersionBounds};
use crate::text::{copy_opt, is_text, opt_text, same_text, texts};
use vstd::prelude::*;

verus! {

/// A grocery list, as a client sends it and as the server stores it.
#[derive(Debug)]
pub struct GroceryListData {
    pub id: String,
    pub name: String,
    pub owner_id: Option<String>,
    pub created_at: i64,
    pub version: i32,
    pub is_deleted: bool,
    pub sync_state: SyncState,
}

pub type GroceryListChangeDelta = ChangeDelta<GroceryListData>;

impl GroceryListData {
    /// A copy of this list.
    pub fn copy(&self) -> (c: GroceryListData)
        ensures
            c == *self,
    {
        GroceryListData {
            id: self.id.clone(),
            name: self.name.clone(),
            owner_id: copy_opt(&self.owner_id),
            created_at: self.created_at,
            version: self.version,
            is_deleted: self.is_deleted,
            sync_state: self.sync_state.copy(),
        }
    }
}

impl Keyed for GroceryListData {
    open spec fn key(&self) -> Seq<char> {
        self.id@
    }

    fn key_text(&self) -> (s: String) {
        self.id.clone()
    }
}

/// The caller's own membership of a list, live or given up.
#[derive(Debug)]
pub struct ListMembership {
    pub id: String,
    pub list_id: String,
    pub role: String,
    pub is_deleted: bool,
}

impl Keyed for ListMembership {
    open spec fn key(&self) -> Seq<char> {
        self.list_id@
    }

    fn key_text(&self) -> (s: String) {
        self.list_id.clone()
    }
}

/// The kinds of write lists take. Deleting a list and leaving one are different writes: the
/// first tears down everything on the list, the second ends one membership.
#[derive(Debug, Clone, Copy, PartialEq, Eq, Structural)]
pub enum ListKind {
    Upsert,
    OwnerDelete,
    LeaveDelete,
}

impl WriteKind for ListKind {
    fn same(&self, other: &Self) -> (s: bool) {
        *self == *other
    }

    fn copied(&self) -> (k: Self) {
        *self
    }
}

/// A list to store.
#[derive(Debug)]
pub struct ListUpsert {
    pub id: String,
    pub name: String,
    pub owner_id: Option<String>,
    pub created_at: i64,
    pub version: i32,
    pub is_deleted: bool,
    /// Whether the caller has no membership of this list yet and becomes its administrator.
    pub seeds_member: bool,
}

/// One write to the lists.
#[derive(Debug)]
pub enum ListWrite {
    Upsert(ListUpsert),
    /// Marks the list and everything on it deleted, and retires its invite.
    OwnerDelete { id: String },
    /// Ends the caller's membership and leaves the list to the others.
    Leave { member_id: String },
}

impl BatchWrite for ListWrite {
    type Kind = ListKind;

    open spec fn kind(&self) -> ListKind {
        match *self {
            ListWrite::Upsert(_) => ListKind::Upsert,
            ListWrite::OwnerDelete { .. } => ListKind::OwnerDelete,
            ListWrite::Leave { .. } => ListKind::LeaveDelete,
        }
    }

    open spec fn rows(&self) -> Seq<Seq<char>> {
        match *self {
            ListWrite::Upsert(row) => seq![row.id@],
            ListWrite::OwnerDelete { id } => seq![id@],
            ListWrite::Leave { member_id } => seq![member_id@],
        }
    }

    fn kind_of(&self) -> (k: ListKind) {
        match self {
            ListWrite::Upsert(_) => ListKind::Upsert,
            ListWrite::OwnerDelete { .. } => ListKind::OwnerDelete,
            ListWrite::Leave { .. } => ListKind::LeaveDelete,
        }
    }

    fn rows_of(&self) -> (rows: Vec<String>) {
        let id = match self {
            ListWrite::Upsert(row) => row.id.clone(),
            ListWrite::OwnerDelete { id } => id.clone(),
            ListWrite::Leave { member_id } => member_id.clone(),
        };
        let rows = vec![id];
        assert(texts(rows@) =~= self.rows());
        rows
    }
}

/// The id of a user's membership row on a list.
pub open spec fn member_id(list: Seq<char>, user: Seq<char>) -> Seq<char> {
    list + "-member-"@ + user
}

/// The id of a user's membership row on a list.
pub fn member_row_id(list_id: &str, user_id: &str) -> (id: String)
    ensures
        id@ == member_id(list_id@, user_id@),
{
    let mut s = list_id.to_owned();
    s.append("-member-");
    s.append(user_id);
    s
}

/// Whether a membership is there and live.
pub open spec fn is_live(membership: Option<ListMembership>) -> bool {
    membership is Some && !membership->0.is_deleted
}

fn live(membership: Option<&ListMembership>) -> (b: bool)
    ensures
        b == (membership is Some && !membership->0.is_deleted),
{
    match membership {
        Some(m) => !m.is_deleted,
        None => false,
    }
}

/// What deleting a list comes to.
pub open spec fn list_removal(
    user: Seq<char>,
    change: GroceryListChangeDelta,
    row: Option<GroceryListData>,
    membership: Option<ListMembership>,
) -> VerdictView<ListWrite, GroceryListData> {
    match row {
        None => VerdictView::Settle { report: change.id@, version: UNSYNCED_DELETE_VERSION },
        Some(row) => if row.is_deleted {
            VerdictView::Settle { report: change.id@, version: row.version }
        } else {
            match membership {
                None => VerdictView::Refuse(
                    ErrorView::Forbidden("User is not a member of grocery list "@ + change.id@),
                ),
                Some(m) => if m.is_deleted {
                    VerdictView::Settle { report: change.id@, version: row.version }
                } else if opt_text(row.owner_id) == Some(user) || m.role@ == "OWNER"@ {
                    VerdictView::Write {
                        report: change.id@,
                        write: ListWrite::OwnerDelete { id: change.id },
                        number: None,
                        correction: None,
                    }
                } else {
                    VerdictView::Write {
                        report: change.id@,
                        write: ListWrite::Leave { member_id: m.id },
                        number: Some(row.version),
                        correction: None,
                    }
                },
            }
        },
    }
}

/// Whether `user` may write over a stored list: an update takes a live membership, and an
/// insert over a list that is there takes one too unless the list is the user's own.
pub open spec fn may_write_list(
    user: Seq<char>,
    op: OperationType,
    row: Option<GroceryListData>,
    membership: Option<ListMembership>,
) -> bool {
    ||| row is None
    ||| is_live(membership)
    ||| op != OperationType::Update && opt_text(row->0.owner_id) == Some(user)
}

/// What storing `item` comes to, given the stored lists and the caller's memberships. The list
/// the change names and the one its document is written over are one unless the change and its
/// document disagree.
pub open spec fn list_store(
    user: Seq<char>,
    bounds: VersionBounds,
    change: GroceryListChangeDelta,
    item: GroceryListData,
    rows: Seq<GroceryListData>,
    memberships: Seq<ListMembership>,
) -> VerdictView<ListWrite, GroceryListData> {
    let op = change.operation_type;
    let target = row_named(rows, item.id@);
    if !may_write_list(
        user,
        op,
        row_named(rows, change.id@),
        row_named(memberships, change.id@),
    ) {
        VerdictView::Refuse(
            ErrorView::Forbidden("User is not a member of grocery list "@ + change.id@),
        )
    } else if !may_write_list(user, op, target, row_named(memberships, item.id@)) {
        VerdictView::Refuse(
            ErrorView::Forbidden("User is not a member of grocery list "@ + item.id@),
        )
    } else {
        let stored = match target {
            Some(row) => Some(row.version),
            None => None,
        };
        match next_version(bounds, "Grocery list"@, change.id@, stored, item.version) {
            Ok(version) => VerdictView::Write {
                report: change.id@,
                write: ListWrite::Upsert(
                    ListUpsert {
                        id: item.id,
                        name: item.name,
                        owner_id: item.owner_id,
                        created_at: item.created_at,
                        version,
                        is_deleted: item.is_deleted,
                        seeds_member: row_named(memberships, item.id@) is None,
                    },
                ),
                number: Some(version),
                correction: None,
            },
            Err(e) => VerdictView::Refuse(e),
        }
    }
}

/// What one change comes to, given the stored lists and the caller's memberships.
pub open spec fn list_verdict(
    user: Seq<char>,
    bounds: VersionBounds,
    change: GroceryListChangeDelta,
    rows: Seq<GroceryListData>,
    memberships: Seq<ListMembership>,
) -> VerdictView<ListWrite, GroceryListData> {
    let row = row_named(rows, change.id@);
    let membership = row_named(memberships, change.id@);
    if change.operation_type == OperationType::Delete {
        list_removal(user, change, row, membership)
    } else if change.asks_for_copy() {
        match row {
            None => VerdictView::Skip,
            Some(row) => if opt_text(row.owner_id) == Some(user) || is_live(membership) {
                VerdictView::Echo {
                    report: change.id@,
                    remote: RemoteView {
                        id: change.id@,
                        operation_type: OperationType::Update,
                        version: row.version,
                        data: GroceryListData { id: change.id, ..row },
                    },
                }
            } else {
                VerdictView::Refuse(
                    ErrorView::Forbidden(
                        "User is not authorized to update grocery list "@ + change.id@,
                    ),
                )
            },
        }
    } else {
        match change.data {
            Payload::Missing => VerdictView::Skip,
            Payload::Null(reason) => VerdictView::Refuse(
                payload_rejection("grocery list"@, change.id@, reason@),
            ),
            Payload::Unreadable(reason) => VerdictView::Refuse(
                payload_rejection("grocery list"@, change.id@, reason@),
            ),
            Payload::Item(item) => list_store(user, bounds, change, item, rows, memberships),
        }
    }
}

/// What the changes of a batch come to.
pub open spec fn list_verdicts(
    user: Seq<char>,
    bounds: VersionBounds,
    changes: Seq<GroceryListChangeDelta>,
    rows: Seq<GroceryListData>,
    memberships: Seq<ListMembership>,
) -> Seq<VerdictView<ListWrite, GroceryListData>> {
    Seq::new(
        changes.len(),
        |i: int| list_verdict(user, bounds, changes[i], rows, memberships),
    )
}

fn remove_list(
    user: &str,
    change: &GroceryListChangeDelta,
    row: Option<&GroceryListData>,
    membership: Option<&ListMembership>,
) -> (v: Verdict<ListWrite, GroceryListData>)
    ensures
        v@ == list_removal(user@, *change, deref_opt(row), deref_opt(membership)),
{
    let row = match row {
        None => {
            return Verdict::Settle {
                report: change.id.clone(),
                version: ack_unsynced_delete("grocery list", change.id.as_str()),
            };
        },
        Some(row) => row,
    };
    if row.is_deleted {
        return Verdict::Settle { report: change.id.clone(), version: row.version };
    }
    let m = match membership {
        None => {
            return Verdict::Refuse(
                forbidden("User is not a member of grocery list ", change.id.as_str()),
            );
        },
        Some(m) => m,
    };
    if m.is_deleted {
        return Verdict::Settle { report: change.id.clone(), version: row.version };
    }
    if is_text(&row.owner_id, user) || same_text(m.role.as_str(), "OWNER") {
        Verdict::Write {
            report: change.id.clone(),
            write: ListWrite::OwnerDelete { id: change.id.clone() },
            number: None,
            correction: None,
        }
    } else {
        Verdict::Write {
            report: change.id.clone(),
            write: ListWrite::Leave { member_id: m.id.clone() },
            number: Some(row.version),
            correction: None,
        }
    }
}

fn can_write_list(
    user: &str,
    op: OperationType,
    row: Option<&GroceryListData>,
    membership: Option<&ListMembership>,
) -> (b: bool)
    ensures
        b == may_write_list(user@, op, deref_opt(row), deref_opt(membership)),
{
    match row {
        None => true,
        Some(row) => live(membership) || (op != OperationType::Update && is_text(
            &row.owner_id,
            user,
        )),
    }
}

fn store_list(
    user: &str,
    bounds: VersionBounds,
    change: &GroceryListChangeDelta,
    item: &GroceryListData,
    rows: &Vec<GroceryListData>,
    index: &RowIndex,
    memberships: &Vec<ListMembership>,
    members: &RowIndex,
) -> (v: Verdict<ListWrite, GroceryListData>)
    requires
        index.indexes(rows@),
        members.indexes(memberships@),
    ensures
        v@ == list_store(user@, bounds, *change, *item, rows@, memberships@),
{
    let named = index.find(rows, change.id.as_str());
    let joined = members.find(memberships, change.id.as_str());
    if !can_write_list(user, change.operation_type, named, joined) {
        return Verdict::Refuse(
            forbidden("User is not a member of grocery list ", change.id.as_str()),
        );
    }
    let target = index.find(rows, item.id.as_str());
    let membership = members.find(memberships, item.id.as_str());
    if !can_write_list(user, change.operation_type, target, membership) {
        return Verdict::Refuse(
            forbidden("User is not a member of grocery list ", item.id.as_str()),
        );
    }
    let seeds = membership.is_none();
    let stored: Option<i32> = match target {
        Some(row) => Some(row.version),
        None => None,
    };
    match assign_version(bounds, "Grocery list", change.id.as_str(), stored, item.version) {
        Ok(version) => Verdict::Write {
            report: change.id.clone(),
            write: ListWrite::Upsert(
                ListUpsert {
                    id: item.id.clone(),
                    name: item.name.clone(),
                    owner_id: copy_opt(&item.owner_id),
                    created_at: item.created_at,
                    version,
                    is_deleted: item.is_deleted,
                    seeds_member: seeds,
                },
            ),
            number: Some(version),
            correction: None,
        },
        Err(e) => Verdict::Refuse(e),
    }
}

fn judge_list(
    user: &str,
    bounds: VersionBounds,
    change: &GroceryListChangeDelta,
    rows: &Vec<GroceryListData>,
    index: &RowIndex,
    memberships: &Vec<ListMembership>,
    members: &RowIndex,
) -> (v: Verdict<ListWrite, GroceryListData>)
    requires
        index.indexes(rows@),
        members.indexes(memberships@),
    ensures
        v@ == list_verdict(user@, bounds, *change, rows@, memberships@),
{
    let row = index.find(rows, change.id.as_str());
    let membership = members.find(memberships, change.id.as_str());
    if change.operation_type == OperationType::Delete {
        return remove_list(user, change, row, membership);
    }
    if change.needs_copy() {
        return match row {
            None => Verdict::Skip,
            Some(row) => {
                if is_text(&row.owner_id, user) || live(membership) {
                    let mut data = row.copy();
                    data.id = change.id.clone();
                    Verdict::Echo {
                        report: change.id.clone(),
                        remote: RemoteDelta {
                            id: change.id.clone(),
                            operation_type: OperationType::Update,
                            version: row.version,
                            data,
                        },
                    }
                } else {
                    Verdict::Refuse(
                        forbidden(
                            "User is not authorized to update grocery list ",
                            change.id.as_str(),
                        ),
                    )
                }
            },
        };
    }
    match &change.data {
        Payload::Missing => Verdict::Skip,
        Payload::Null(reason) => Verdict::Refuse(
            payload_refusal("grocery list", change.id.as_str(), reason.as_str()),
        ),
        Payload::Unreadable(reason) => Verdict::Refuse(
            payload_refusal("grocery list", change.id.as_str(), reason.as_str()),
        ),
        Payload::Item(item) => store_list(
            user,
            bounds,
            change,
            item,
            rows,
            index,
            memberships,
            members,
        ),
    }
}

/// Applies a batch of list changes: decides each against the stored lists and the caller's
/// memberships, and collects what to write and what to answer.
pub fn process_grocery_list_changes(
    user_id: &str,
    changes: &Vec<GroceryListChangeDelta>,
    existing: &Vec<GroceryListData>,
    memberships: &Vec<ListMembership>,
    bounds: VersionBounds,
) -> (r: Result<Tally<ListWrite, GroceryListData>, AppError>)
    ensures
        settles(r, list_verdicts(user_id@, bounds, changes@, existing@, memberships@)),
{
    let ghost vs = list_verdicts(user_id@, bounds, changes@, existing@, memberships@);
    let index = RowIndex::of(existing);
    let members = RowIndex::of(memberships);
    let mut count: Count<ListWrite, GroceryListData> = Count::new();
    assert(vs.take(0) =~= seq![]);
    let mut i: usize = 0;
    while i < changes.len()
        invariant
            i <= changes.len(),
            vs == list_verdicts(user_id@, bounds, changes@, existing@, memberships@),
            index.indexes(existing@),
            members.indexes(memberships@),
            count.wf(),
            count.counts(vs.take(i as int)),
        decreases changes.len() - i,
    {
        let v = judge_list(
            user_id,
            bounds,
            &changes[i],
            existing,
            &index,
            memberships,
            &members,
        );
        proof {
            assert(v@ == vs[i as int]);
            assert(vs.take(i as int).push(v@) =~= vs.take(i + 1));
        }
        match count.absorb(v) {
            Ok(_) => {},
            Err(e) => {
                proof {
                    refusal_stands(vs, i + 1);
                }
                return Err(e);
            },
        }
        i = i + 1;
    }
    assert(vs.take(vs.len() as int) =~= vs);
    Ok(count.finish())
}

/// Only its owner tears a list down: a change that deletes a whole list comes from the user
/// the list names as owner or from a live member in the owner's role.
pub proof fn only_an_owner_tears_a_list_down(
    user: Seq<char>,
    bounds: VersionBounds,
    change: GroceryListChangeDelta,
    rows: Seq<GroceryListData>,
    memberships: Seq<ListMembership>,
)
    ensures
        list_verdict(user, bounds, change, rows, memberships) matches VerdictView::Write {
            write: ListWrite::OwnerDelete { .. },
            ..
        } ==> row_named(rows, change.id@) is Some && is_live(row_named(memberships, change.id@))
            && (opt_text(row_named(rows, change.id@)->0.owner_id) == Some(user) || row_named(
            memberships,
            change.id@,
        )->0.role@ == "OWNER"@),
{
}

/// A stored list is written over only by its owner or a live member, however the change calls
/// itself and whatever id it goes by, and moves exactly one version on.
pub proof fn a_list_write_is_authorised(
    user: Seq<char>,
    bounds: VersionBounds,
    change: GroceryListChangeDelta,
    rows: Seq<GroceryListData>,
    memberships: Seq<ListMembership>,
)
    ensures
        list_verdict(user, bounds, change, rows, memberships) matches VerdictView::Write {
            write: ListWrite::Upsert(written),
            number,
            ..
        } ==> (row_named(rows, written.id@) matches Some(row) ==> (opt_text(row.owner_id) == Some(
            user,
        ) || is_live(row_named(memberships, written.id@))) && number == Some(written.version)
            && written.version == row.version + 1),
{
}

/// A list is stored as the client sent it, whether or not one is stored under its id already,
/// and its writer becomes a member of it exactly if they have no membership of it. A stored
/// list moves one version on and a new one starts at the client's number. The write is owed
/// whenever the user may write the stored lists it touches and the version allows it, and only
/// then: an update takes a live membership, and an insert one or ownership.
pub proof fn a_list_is_stored_as_it_was_sent(
    user: Seq<char>,
    bounds: VersionBounds,
    change: GroceryListChangeDelta,
    rows: Seq<GroceryListData>,
    memberships: Seq<ListMembership>,
    item: GroceryListData,
    named: Option<GroceryListData>,
    target: Option<GroceryListData>,
    own_named: Option<ListMembership>,
    own_target: Option<ListMembership>,
)
    requires
        change.operation_type != OperationType::Delete,
        change.data == Payload::Item(item),
        is_last_of(rows, |r: GroceryListData| r.id@, change.id@, named),
        is_last_of(rows, |r: GroceryListData| r.id@, item.id@, target),
        is_last_of(memberships, |m: ListMembership| m.list_id@, change.id@, own_named),
        is_last_of(memberships, |m: ListMembership| m.list_id@, item.id@, own_target),
    ensures
        match list_verdict(user, bounds, change, rows, memberships) {
            VerdictView::Write { report, write, number, correction } => {
                &&& report == change.id@
                &&& correction is None
                &&& match write {
                    ListWrite::Upsert(stored) => {
                        &&& stored.id == item.id
                        &&& stored.name == item.name
                        &&& stored.owner_id == item.owner_id
                        &&& stored.created_at == item.created_at
                        &&& stored.is_deleted == item.is_deleted
                        &&& stored.seeds_member == (own_target is None)
                        &&& number == Some(stored.version)
                        &&& match target {
                            Some(row) => stored.version == row.version + 1,
                            None => stored.version == item.version,
                        }
                    },
                    _ => false,
                }
            },
            VerdictView::Refuse(_) => true,
            _ => false,
        },
        list_verdict(user, bounds, change, rows, memberships) is Write <==> {
            &&& named matches Some(row) ==> {
                ||| own_named matches Some(m) && !m.is_deleted
                ||| change.operation_type == OperationType::Insert && (row.owner_id matches Some(
                    owner,
                ) && owner@ == user)
            }
            &&& target matches Some(row) ==> {
                &&& row.version < i32::MAX
                &&& {
                    ||| own_target matches Some(m) && !m.is_deleted
                    ||| change.operation_type == OperationType::Insert && (
                    row.owner_id matches Some(owner) && owner@ == user)
                }
            }
            &&& target is None ==> 0 <= item.version && item.version <= bounds.max_seed
        },
{
    a_lookup_finds_the_last_of_its_name(rows, |r: GroceryListData| r.id@, change.id@, named);
    a_lookup_finds_the_last_of_its_name(rows, |r: GroceryListData| r.id@, item.id@, target);
    a_lookup_finds_the_last_of_its_name(
        memberships,
        |m: ListMembership| m.list_id@,
        change.id@,
        own_named,
    );
    a_lookup_finds_the_last_of_its_name(
        memberships,
        |m: ListMembership| m.list_id@,
        item.id@,
        own_target,
    );
}

/// Deleting a list tears down exactly the list it names, and only for its owner; any other
/// live member leaves it, which ends their own membership and nothing else, at the list's
/// version. A list that is gone, or that the user has left, is settled at its version, one the
/// server never had at the first version; and a stranger is refused.
pub proof fn deleting_a_list_is_leaving_it_for_all_but_its_owner(
    user: Seq<char>,
    bounds: VersionBounds,
    change: GroceryListChangeDelta,
    rows: Seq<GroceryListData>,
    memberships: Seq<ListMembership>,
    row: Option<GroceryListData>,
    own: Option<ListMembership>,
)
    requires
        change.operation_type == OperationType::Delete,
        is_last_of(rows, |r: GroceryListData| r.id@, change.id@, row),
        is_last_of(memberships, |m: ListMembership| m.list_id@, change.id@, own),
    ensures
        match list_verdict(user, bounds, change, rows, memberships) {
            VerdictView::Settle { report, version } => report == change.id@ && match row {
                None => version == 1,
                Some(row) => version == row.version && (row.is_deleted || (own matches Some(m)
                    && m.is_deleted)),
            },
            VerdictView::Refuse(e) => e is Forbidden && own is None && (row matches Some(row)
                && !row.is_deleted),
            VerdictView::Write { report, write, number, correction } => {
                &&& report == change.id@
                &&& correction is None
                &&& row matches Some(row) && own matches Some(m) && !row.is_deleted && !m.is_deleted
                    && {
                    let owns = (row.owner_id matches Some(owner) && owner@ == user) || m.role@
                        == "OWNER"@;
                    match write {
                        ListWrite::OwnerDelete { id } => owns && id == change.id && number is None,
                        ListWrite::Leave { member_id } => !owns && member_id == m.id && number
                            == Some(row.version),
                        ListWrite::Upsert(_) => false,
                    }
                }
            },
            _ => false,
        },
{
    a_lookup_finds_the_last_of_its_name(rows, |r: GroceryListData| r.id@, change.id@, row);
    a_lookup_finds_the_last_of_its_name(
        memberships,
        |m: ListMembership| m.list_id@,
        change.id@,
        own,
    );
}

/// An update without a document gets the stored list as it stands, under the id it was asked
/// for, and nothing is written. Its owner and its live members get it, anybody else is refused,
/// and where there is no such list there is nothing to answer.
pub proof fn a_list_is_sent_back_as_it_stands(
    user: Seq<char>,
    bounds: VersionBounds,
    change: GroceryListChangeDelta,
    rows: Seq<GroceryListData>,
    memberships: Seq<ListMembership>,
    row: Option<GroceryListData>,
    own: Option<ListMembership>,
)
    requires
        change.operation_type == OperationType::Update,
        change.data is Missing || change.data is Null,
        is_last_of(rows, |r: GroceryListData| r.id@, change.id@, row),
        is_last_of(memberships, |m: ListMembership| m.list_id@, change.id@, own),
    ensures
        match list_verdict(user, bounds, change, rows, memberships) {
            VerdictView::Skip => row is None,
            VerdictView::Echo { report, remote } => row matches Some(row) && {
                &&& (row.owner_id matches Some(owner) && owner@ == user) || (own matches Some(m)
                    && !m.is_deleted)
                &&& report == change.id@
                &&& remote.id == change.id@
                &&& remote.operation_type == OperationType::Update
                &&& remote.version == row.version
                &&& remote.data.id@ == row.id@
                &&& remote.data.name == row.name
                &&& remote.data.owner_id == row.owner_id
                &&& remote.data.created_at == row.created_at
                &&& remote.data.version == row.version
                &&& remote.data.is_deleted == row.is_deleted
                &&& remote.data.sync_state == row.sync_state
            },
            VerdictView::Refuse(e) => e is Forbidden && (row matches Some(row) && !(
            row.owner_id matches Some(owner) && owner@ == user)) && !(own matches Some(m)
                && !m.is_deleted),
            _ => false,
        },
{
    a_lookup_finds_the_last_of_its_name(rows, |r: GroceryListData| r.id@, change.id@, row);
    a_lookup_finds_the_last_of_its_name(
        memberships,
        |m: ListMembership| m.list_id@,
        change.id@,
        own,
    );
}

/// A change that carries nothing readable writes nothing: an insert without a document is
/// passed over, and a document that is no list is the client's mistake.
pub proof fn an_unreadable_list_is_never_stored(
    user: Seq<char>,
    bounds: VersionBounds,
    change: GroceryListChangeDelta,
    rows: Seq<GroceryListData>,
    memberships: Seq<ListMembership>,
)
    requires
        change.operation_type != OperationType::Delete,
        !(change.data is Item),
    ensures
        !(list_verdict(user, bounds, change, rows, memberships) is Write),
        change.operation_type == OperationType::Insert && change.data is Missing ==> list_verdict(
            user,
            bounds,
            change,
            rows,
            memberships,
        ) is Skip,
        change.data is Unreadable || (change.operation_type == OperationType::Insert
            && change.data is Null) ==> (list_verdict(user, bounds, change, rows, memberships)
            matches VerdictView::Refuse(e) && e is BadRequest),
{
}

/// Each change of a batch is judged as it would be alone, against the lists and memberships as
/// they were stored before the batch.
pub proof fn a_list_is_judged_on_its_own(
    user: Seq<char>,
    bounds: VersionBounds,
    changes: Seq<GroceryListChangeDelta>,
    rows: Seq<GroceryListData>,
    memberships: Seq<ListMembership>,
    i: int,
)
    requires
        0 <= i < changes.len(),
    ensures
        list_verdicts(user, bounds, changes, rows, memberships).len() == changes.len(),
        list_verdicts(user, bounds, changes, rows, memberships)[i] == list_verdict(
            user,
            bounds,
            changes[i],
            rows,
            memberships,
        ),
{
}

/// A membership's id begins with its list and ends with its user, so that the memberships of two
/// users on one list go by different ids.
pub proof fn memberships_go_by_their_own_ids(list: Seq<char>, user: Seq<char>, other: Seq<char>)
    ensures
        member_id(list, user).take(list.len() as int) == list,
        member_id(list, user).skip(member_id(list, user).len() - user.len()) == user,
        member_id(list, user) == member_id(list, other) ==> user == other,
{
    let from = (list + "-member-"@).len() as int;
    assert(member_id(list, user).take(list.len() as int) =~= list);
    assert(member_id(list, user).skip(from) =~= user);
    assert(member_id(list, other).skip(from) =~= other);
}

/// Storing lists, deleting them and leaving them are three statements, and each takes a list,
/// or the membership that ends, once.
pub proof fn a_write_is_about_its_own_list(one: ListWrite, other: ListWrite)
    ensures
        one.kind() == other.kind() <==> (one is Upsert && other is Upsert) || (one is OwnerDelete
            && other is OwnerDelete) || (one is Leave && other is Leave),
        one matches ListWrite::Upsert(row) ==> one.rows() == seq![row.id@],
        one matches ListWrite::OwnerDelete { id } ==> one.rows() == seq![id@],
        one matches ListWrite::Leave { member_id } ==> one.rows() == seq![member_id@],
{
}

/// A batch of lists is judged change by change, each for the user who sent it, by the lists that
/// are stored and the memberships the user has.
pub proof fn a_batch_of_lists_is_judged_change_by_change(
    user_id: &str,
    changes: &Vec<GroceryListChangeDelta>,
    existing: &Vec<GroceryListData>,
    memberships: &Vec<ListMembership>,
    bounds: VersionBounds,
    r: Result<Tally<ListWrite, GroceryListData>, AppError>,
)
    requires
        call_ensures(process_grocery_list_changes, (user_id, changes, existing, memberships, bounds), r),
    ensures
        settles(
            r,
            Seq::new(changes@.len(), |i: int| list_verdict(
                user_id@,
                bounds,
                changes@[i],
                existing@,
                memberships@,
            )),
        ),
{
}

} // verus!
