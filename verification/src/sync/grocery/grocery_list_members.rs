//! Memberships of grocery lists.
//!
//! Membership is granted by joining a list with an invite code and by nothing else; sync
//! only reflects a membership that already exists. It creates none, moves none to another
//! list or user, changes no role and restores none that was given up.

use crate::error::{AppError, ErrorView};
use crate::sync::batching::{BatchWrite, WriteKind};
use crate::sync::lookup::{
    a_lookup_finds_the_last_of_its_name, deref_opt, is_last_of, row_named, Keyed, RowIndex,
};
use crate::sync::rejections::{payload_refusal, payload_rejection};
use crate::sync::tally::{refusal_stands, settles, Count, Tally, Verdict, VerdictView};
use crate::sync::types::{
    forbidden, ChangeDelta, OperationType, Payload, RemoteDelta, RemoteView, SyncState,
};
use crate::sync::versioning::{advance_version, advanced};
use crate::text::{same_text, texts};
use vstd::prelude::*;

verus! {

/// A membership, as a client sends it and as the server stores it.
#[derive(Debug)]
pub struct GroceryListMemberData {
    pub id: String,
    pub list_id: String,
    pub user_id: String,
    pub role: String,
    pub joined_at: i64,
    pub version: i32,
    pub is_deleted: bool,
    pub sync_state: SyncState,
}

pub type GroceryListMemberChangeDelta = ChangeDelta<GroceryListMemberData>;

impl GroceryListMemberData {
    /// A copy of this membership.
    pub fn copy(&self) -> (c: GroceryListMemberData)
        ensures
            c == *self,
    {
        GroceryListMemberData {
            id: self.id.clone(),
            list_id: self.list_id.clone(),
            user_id: self.user_id.clone(),
            role: self.role.clone(),
            joined_at: self.joined_at,
            version: self.version,
            is_deleted: self.is_deleted,
            sync_state: self.sync_state.copy(),
        }
    }
}

impl Keyed for GroceryListMemberData {
    open spec fn key(&self) -> Seq<char> {
        self.id@
    }

    fn key_text(&self) -> (s: String) {
        self.id.clone()
    }
}

/// A live membership of the caller's own, found by its list.
#[derive(Debug)]
pub struct OwnMembership {
    pub row: GroceryListMemberData,
}

impl Keyed for OwnMembership {
    open spec fn key(&self) -> Seq<char> {
        self.row.list_id@
    }

    fn key_text(&self) -> (s: String) {
        self.row.list_id.clone()
    }
}

/// The kinds of write memberships take.
#[derive(Debug, Clone, Copy, PartialEq, Eq, Structural)]
pub enum MemberKind {
    Update,
    Delete,
}

impl WriteKind for MemberKind {
    fn same(&self, other: &Self) -> (s: bool) {
        *self == *other
    }

    fn copied(&self) -> (k: Self) {
        *self
    }
}

/// One write to the memberships. List, user, role and the time of joining are the server's
/// and are in none of them.
#[derive(Debug)]
pub enum MemberWrite {
    Update { id: String, version: i32, is_deleted: bool },
    /// Marks the membership deleted and advances its stored version.
    Delete { id: String },
}

impl BatchWrite for MemberWrite {
    type Kind = MemberKind;

    open spec fn kind(&self) -> MemberKind {
        match *self {
            MemberWrite::Update { .. } => MemberKind::Update,
            MemberWrite::Delete { .. } => MemberKind::Delete,
        }
    }

    open spec fn rows(&self) -> Seq<Seq<char>> {
        match *self {
            MemberWrite::Update { id, .. } => seq![id@],
            MemberWrite::Delete { id } => seq![id@],
        }
    }

    fn kind_of(&self) -> (k: MemberKind) {
        match self {
            MemberWrite::Update { .. } => MemberKind::Update,
            MemberWrite::Delete { .. } => MemberKind::Delete,
        }
    }

    fn rows_of(&self) -> (rows: Vec<String>) {
        let id = match self {
            MemberWrite::Update { id, .. } => id.clone(),
            MemberWrite::Delete { id } => id.clone(),
        };
        let rows = vec![id];
        assert(texts(rows@) =~= self.rows());
        rows
    }
}

/// Whether `user` may manage a membership: it is their own, or on a list they are a live
/// member of.
pub open spec fn may_manage(
    user: Seq<char>,
    row: GroceryListMemberData,
    own: Seq<OwnMembership>,
) -> bool {
    row.user_id@ == user || row_named(own, row.list_id@) is Some
}

fn can_manage(user: &str, row: &GroceryListMemberData, own: &Vec<OwnMembership>, lists: &RowIndex) -> (b:
    bool)
    requires
        lists.indexes(own@),
    ensures
        b == may_manage(user@, *row, own@),
{
    same_text(row.user_id.as_str(), user) || lists.find(own, row.list_id.as_str()).is_some()
}

/// What a membership the server does not have comes to: the caller's own membership of that
/// list under the server's id, or a refusal.
pub open spec fn member_grant(
    user: Seq<char>,
    own: Seq<OwnMembership>,
    change: GroceryListMemberChangeDelta,
    item: GroceryListMemberData,
) -> VerdictView<MemberWrite, GroceryListMemberData> {
    let mine = row_named(own, item.list_id@);
    if item.user_id@ == user && mine is Some {
        VerdictView::Echo {
            report: change.id@,
            remote: RemoteView {
                id: mine->0.row.id@,
                operation_type: OperationType::Update,
                version: mine->0.row.version,
                data: mine->0.row,
            },
        }
    } else {
        VerdictView::Refuse(
            ErrorView::Forbidden(
                "Membership is granted by joining a list with an invite code; sync cannot create membership "@
                    + change.id@,
            ),
        )
    }
}

/// The stored membership after an accepted update, as the client is told where it sent a
/// role that was ignored.
pub open spec fn member_after(
    item: GroceryListMemberData,
    row: GroceryListMemberData,
    version: i32,
) -> GroceryListMemberData {
    GroceryListMemberData {
        version,
        is_deleted: item.is_deleted,
        sync_state: SyncState::Synced,
        ..row
    }
}

/// What updating a stored membership comes to.
pub open spec fn member_update(
    user: Seq<char>,
    own: Seq<OwnMembership>,
    change: GroceryListMemberChangeDelta,
    item: GroceryListMemberData,
    row: GroceryListMemberData,
) -> VerdictView<MemberWrite, GroceryListMemberData> {
    if !may_manage(user, row, own) {
        VerdictView::Refuse(
            ErrorView::Forbidden("User is not authorized to manage membership "@ + change.id@),
        )
    } else if item.list_id@ != row.list_id@ || item.user_id@ != row.user_id@ {
        VerdictView::Refuse(
            ErrorView::Forbidden("User is not authorized to reassign membership "@ + change.id@),
        )
    } else if row.is_deleted && !item.is_deleted {
        VerdictView::Refuse(
            ErrorView::Forbidden(
                "Membership "@ + change.id@ + " can only be restored by joining the list again"@,
            ),
        )
    } else {
        match advanced("Member"@, change.id@, row.version) {
            Ok(version) => VerdictView::Write {
                report: change.id@,
                write: MemberWrite::Update { id: change.id, version, is_deleted: item.is_deleted },
                number: Some(version),
                correction: if item.role@ != row.role@ {
                    Some(
                        RemoteView {
                            id: row.id@,
                            operation_type: OperationType::Update,
                            version,
                            data: member_after(item, row, version),
                        },
                    )
                } else {
                    None
                },
            },
            Err(e) => VerdictView::Refuse(e),
        }
    }
}

/// What one change comes to, given the stored membership it names and the caller's own live
/// memberships.
pub open spec fn member_verdict(
    user: Seq<char>,
    own: Seq<OwnMembership>,
    change: GroceryListMemberChangeDelta,
    row: Option<GroceryListMemberData>,
) -> VerdictView<MemberWrite, GroceryListMemberData> {
    if change.operation_type == OperationType::Delete {
        match row {
            Some(row) if row.is_deleted => VerdictView::Settle {
                report: change.id@,
                version: row.version,
            },
            Some(row) if !may_manage(user, row, own) => VerdictView::Refuse(
                ErrorView::Forbidden("User is not authorized to delete membership "@ + change.id@),
            ),
            _ => VerdictView::Write {
                report: change.id@,
                write: MemberWrite::Delete { id: change.id },
                number: None,
                correction: None,
            },
        }
    } else if change.asks_for_copy() {
        match row {
            None => VerdictView::Skip,
            Some(row) => if may_manage(user, row, own) {
                VerdictView::Echo {
                    report: change.id@,
                    remote: RemoteView {
                        id: change.id@,
                        operation_type: OperationType::Update,
                        version: row.version,
                        data: GroceryListMemberData { id: change.id, ..row },
                    },
                }
            } else {
                VerdictView::Refuse(
                    ErrorView::Forbidden(
                        "User is not authorized to update membership "@ + change.id@,
                    ),
                )
            },
        }
    } else {
        match change.data {
            Payload::Missing => VerdictView::Skip,
            Payload::Null(reason) => VerdictView::Refuse(
                payload_rejection("grocery list member"@, change.id@, reason@),
            ),
            Payload::Unreadable(reason) => VerdictView::Refuse(
                payload_rejection("grocery list member"@, change.id@, reason@),
            ),
            Payload::Item(item) => match row {
                None => member_grant(user, own, change, item),
                Some(row) => member_update(user, own, change, item, row),
            },
        }
    }
}

/// What the changes of a batch come to.
pub open spec fn member_verdicts(
    user: Seq<char>,
    own: Seq<OwnMembership>,
    changes: Seq<GroceryListMemberChangeDelta>,
    rows: Seq<GroceryListMemberData>,
) -> Seq<VerdictView<MemberWrite, GroceryListMemberData>> {
    Seq::new(
        changes.len(),
        |i: int| member_verdict(user, own, changes[i], row_named(rows, changes[i].id@)),
    )
}

fn grant_member(
    user: &str,
    own: &Vec<OwnMembership>,
    lists: &RowIndex,
    change: &GroceryListMemberChangeDelta,
    item: &GroceryListMemberData,
) -> (v: Verdict<MemberWrite, GroceryListMemberData>)
    requires
        lists.indexes(own@),
    ensures
        v@ == member_grant(user@, own@, *change, *item),
{
    if same_text(item.user_id.as_str(), user) {
        if let Some(mine) = lists.find(own, item.list_id.as_str()) {
            return Verdict::Echo {
                report: change.id.clone(),
                remote: RemoteDelta {
                    id: mine.row.id.clone(),
                    operation_type: OperationType::Update,
                    version: mine.row.version,
                    data: mine.row.copy(),
                },
            };
        }
    }
    Verdict::Refuse(
        forbidden(
            "Membership is granted by joining a list with an invite code; sync cannot create membership ",
            change.id.as_str(),
        ),
    )
}

fn update_member(
    user: &str,
    own: &Vec<OwnMembership>,
    lists: &RowIndex,
    change: &GroceryListMemberChangeDelta,
    item: &GroceryListMemberData,
    row: &GroceryListMemberData,
) -> (v: Verdict<MemberWrite, GroceryListMemberData>)
    requires
        lists.indexes(own@),
    ensures
        v@ == member_update(user@, own@, *change, *item, *row),
{
    if !can_manage(user, row, own, lists) {
        return Verdict::Refuse(
            forbidden("User is not authorized to manage membership ", change.id.as_str()),
        );
    }
    if !same_text(item.list_id.as_str(), row.list_id.as_str()) || !same_text(
        item.user_id.as_str(),
        row.user_id.as_str(),
    ) {
        return Verdict::Refuse(
            forbidden("User is not authorized to reassign membership ", change.id.as_str()),
        );
    }
    if row.is_deleted && !item.is_deleted {
        let mut s = "Membership ".to_owned();
        s.append(change.id.as_str());
        s.append(" can only be restored by joining the list again");
        return Verdict::Refuse(AppError::Forbidden(s));
    }
    match advance_version("Member", change.id.as_str(), row.version) {
        Ok(version) => {
            let correction = if !same_text(item.role.as_str(), row.role.as_str()) {
                let mut data = row.copy();
                data.version = version;
                data.is_deleted = item.is_deleted;
                data.sync_state = SyncState::Synced;
                Some(
                    RemoteDelta {
                        id: row.id.clone(),
                        operation_type: OperationType::Update,
                        version,
                        data,
                    },
                )
            } else {
                None
            };
            Verdict::Write {
                report: change.id.clone(),
                write: MemberWrite::Update {
                    id: change.id.clone(),
                    version,
                    is_deleted: item.is_deleted,
                },
                number: Some(version),
                correction,
            }
        },
        Err(e) => Verdict::Refuse(e),
    }
}

fn judge_member(
    user: &str,
    own: &Vec<OwnMembership>,
    lists: &RowIndex,
    change: &GroceryListMemberChangeDelta,
    row: Option<&GroceryListMemberData>,
) -> (v: Verdict<MemberWrite, GroceryListMemberData>)
    requires
        lists.indexes(own@),
    ensures
        v@ == member_verdict(user@, own@, *change, deref_opt(row)),
{
    if change.operation_type == OperationType::Delete {
        if let Some(row) = row {
            if row.is_deleted {
                return Verdict::Settle { report: change.id.clone(), version: row.version };
            }
            if !can_manage(user, row, own, lists) {
                return Verdict::Refuse(
                    forbidden("User is not authorized to delete membership ", change.id.as_str()),
                );
            }
        }
        return Verdict::Write {
            report: change.id.clone(),
            write: MemberWrite::Delete { id: change.id.clone() },
            number: None,
            correction: None,
        };
    }
    if change.needs_copy() {
        return match row {
            None => Verdict::Skip,
            Some(row) => {
                if can_manage(user, row, own, lists) {
                    let mut data = row.copy();
                    data.id = change.id.clone();
                    Verdict::Echo {
                        report: change.id.clone(),
                        remote: RemoteDelta {
                            id: change.id.clone(),
                            operation_type: OperationType::Update,
                            version: row.version,
                            data,
                        },
                    }
                } else {
                    Verdict::Refuse(
                        forbidden(
                            "User is not authorized to update membership ",
                            change.id.as_str(),
                        ),
                    )
                }
            },
        };
    }
    match &change.data {
        Payload::Missing => Verdict::Skip,
        Payload::Null(reason) => Verdict::Refuse(
            payload_refusal("grocery list member", change.id.as_str(), reason.as_str()),
        ),
        Payload::Unreadable(reason) => Verdict::Refuse(
            payload_refusal("grocery list member", change.id.as_str(), reason.as_str()),
        ),
        Payload::Item(item) => match row {
            None => grant_member(user, own, lists, change, item),
            Some(row) => update_member(user, own, lists, change, item, row),
        },
    }
}

/// Applies a batch of membership changes: decides each against the stored memberships and
/// the caller's own live ones, and collects what to write and what to answer.
pub fn process_grocery_list_member_changes(
    user_id: &str,
    changes: &Vec<GroceryListMemberChangeDelta>,
    existing: &Vec<GroceryListMemberData>,
    own: &Vec<OwnMembership>,
) -> (r: Result<Tally<MemberWrite, GroceryListMemberData>, AppError>)
    ensures
        settles(r, member_verdicts(user_id@, own@, changes@, existing@)),
{
    let ghost vs = member_verdicts(user_id@, own@, changes@, existing@);
    let index = RowIndex::of(existing);
    let lists = RowIndex::of(own);
    let mut count: Count<MemberWrite, GroceryListMemberData> = Count::new();
    assert(vs.take(0) =~= seq![]);
    let mut i: usize = 0;
    while i < changes.len()
        invariant
            i <= changes.len(),
            vs == member_verdicts(user_id@, own@, changes@, existing@),
            index.indexes(existing@),
            lists.indexes(own@),
            count.wf(),
            count.counts(vs.take(i as int)),
        decreases changes.len() - i,
    {
        let change = &changes[i];
        let row = index.find(existing, change.id.as_str());
        let v = judge_member(user_id, own, &lists, change, row);
        proof {
            assert(v@ == vs[i as int]);
            assert(vs.take(i as int).push(v@) =~= vs.take(i + 1));
        }
        match count.absorb(v) {
            Ok(_) => {},
            Err(e) => {
                proof {
                    refusal_stands(vs, i + 1);
                }
                return Err(e);
            },
        }
        i = i + 1;
    }
    assert(vs.take(vs.len() as int) =~= vs);
    Ok(count.finish())
}

/// Sync never grants a membership: whatever a client sends, an update is written only to a
/// membership the server already has, to the list and user it already names, and never to
/// bring back one that was given up.
pub proof fn sync_never_grants_a_membership(
    user: Seq<char>,
    own: Seq<OwnMembership>,
    change: GroceryListMemberChangeDelta,
    row: Option<GroceryListMemberData>,
)
    ensures
        member_verdict(user, own, change, row) matches VerdictView::Write {
            write: MemberWrite::Update { is_deleted, .. },
            ..
        } ==> {
            &&& row is Some
            &&& may_manage(user, row->0, own)
            &&& row->0.is_deleted ==> is_deleted
            &&& change.data matches Payload::Item(item) && item.list_id@ == row->0.list_id@
                && item.user_id@ == row->0.user_id@
        },
{
}

/// A client's own idea of a role is never taken: what it is told afterwards is the stored
/// one.
pub proof fn a_role_comes_from_the_server(
    user: Seq<char>,
    own: Seq<OwnMembership>,
    change: GroceryListMemberChangeDelta,
    row: GroceryListMemberData,
)
    ensures
        member_verdict(user, own, change, Some(row)) matches VerdictView::Write {
            correction: Some(sent),
            ..
        } ==> sent.data.role == row.role && sent.data.list_id == row.list_id && sent.data.user_id
            == row.user_id,
{
}

/// An update of a stored membership changes whether it is given up and nothing else: the write
/// names the membership that was sent, takes the client's word on deletion only, and moves one
/// version on. It is owed to whoever may manage the membership, for the list and user it names
/// already, unless it would bring back a membership that was given up or the version is spent.
/// A client whose idea of the role was wrong is sent the stored membership as the write leaves
/// it, and no other client is.
pub proof fn a_membership_takes_nothing_but_its_deletion(
    user: Seq<char>,
    own: Seq<OwnMembership>,
    change: GroceryListMemberChangeDelta,
    item: GroceryListMemberData,
    row: GroceryListMemberData,
    mine: Option<OwnMembership>,
)
    requires
        change.operation_type != OperationType::Delete,
        change.data == Payload::Item(item),
        is_last_of(own, |m: OwnMembership| m.row.list_id@, row.list_id@, mine),
    ensures
        match member_verdict(user, own, change, Some(row)) {
            VerdictView::Write { report, write, number, correction } => {
                &&& report == change.id@
                &&& match write {
                    MemberWrite::Update { id, version, is_deleted } => id == change.id && is_deleted
                        == item.is_deleted && version == row.version + 1 && number == Some(version),
                    MemberWrite::Delete { .. } => false,
                }
                &&& correction is Some <==> item.role@ != row.role@
                &&& correction matches Some(sent) ==> {
                    &&& sent.id == row.id@
                    &&& sent.operation_type == OperationType::Update
                    &&& sent.version == row.version + 1
                    &&& sent.data.id == row.id
                    &&& sent.data.list_id == row.list_id
                    &&& sent.data.user_id == row.user_id
                    &&& sent.data.role == row.role
                    &&& sent.data.joined_at == row.joined_at
                    &&& sent.data.version == row.version + 1
                    &&& sent.data.is_deleted == item.is_deleted
                    &&& sent.data.sync_state is Synced
                }
            },
            VerdictView::Refuse(_) => true,
            _ => false,
        },
        member_verdict(user, own, change, Some(row)) is Write <==> {
            &&& row.user_id@ == user || mine is Some
            &&& item.list_id@ == row.list_id@
            &&& item.user_id@ == row.user_id@
            &&& row.is_deleted ==> item.is_deleted
            &&& row.version < i32::MAX
        },
{
    a_lookup_finds_the_last_of_its_name(
        own,
        |m: OwnMembership| m.row.list_id@,
        row.list_id@,
        mine,
    );
}

/// A membership the server does not have is not made by sync: the user's own membership of that
/// list is sent back under the server's id, and anything else is refused.
pub proof fn an_unknown_membership_is_answered_with_the_users_own(
    user: Seq<char>,
    own: Seq<OwnMembership>,
    change: GroceryListMemberChangeDelta,
    item: GroceryListMemberData,
    mine: Option<OwnMembership>,
)
    requires
        change.operation_type != OperationType::Delete,
        change.data == Payload::Item(item),
        is_last_of(own, |m: OwnMembership| m.row.list_id@, item.list_id@, mine),
    ensures
        match member_verdict(user, own, change, None) {
            VerdictView::Echo { report, remote } => {
                &&& report == change.id@
                &&& item.user_id@ == user
                &&& mine matches Some(m) && remote.id == m.row.id@ && remote.operation_type
                    == OperationType::Update && remote.version == m.row.version && remote.data
                    == m.row
            },
            VerdictView::Refuse(e) => e is Forbidden && (item.user_id@ != user || mine is None),
            _ => false,
        },
{
    a_lookup_finds_the_last_of_its_name(
        own,
        |m: OwnMembership| m.row.list_id@,
        item.list_id@,
        mine,
    );
}

/// Deleting a membership marks that membership deleted and touches no other. One that is given
/// up already is settled at the version it has, whoever asks; one the user may not manage is
/// refused; and one the server has never seen is deleted all the same.
pub proof fn deleting_a_membership_is_for_those_who_manage_it(
    user: Seq<char>,
    own: Seq<OwnMembership>,
    change: GroceryListMemberChangeDelta,
    row: Option<GroceryListMemberData>,
    mine: Option<OwnMembership>,
)
    requires
        change.operation_type == OperationType::Delete,
        row matches Some(row) ==> is_last_of(
            own,
            |m: OwnMembership| m.row.list_id@,
            row.list_id@,
            mine,
        ),
    ensures
        match member_verdict(user, own, change, row) {
            VerdictView::Settle { report, version } => report == change.id@ && (row matches Some(
                row,
            ) && row.is_deleted && version == row.version),
            VerdictView::Refuse(e) => e is Forbidden && (row matches Some(row) && !row.is_deleted
                && row.user_id@ != user && mine is None),
            VerdictView::Write { report, write, number, correction } => {
                &&& report == change.id@
                &&& write matches MemberWrite::Delete { id } && id == change.id
                &&& number is None && correction is None
                &&& row matches Some(row) ==> !row.is_deleted && (row.user_id@ == user
                    || mine is Some)
            },
            _ => false,
        },
{
    if let Some(row) = row {
        a_lookup_finds_the_last_of_its_name(
            own,
            |m: OwnMembership| m.row.list_id@,
            row.list_id@,
            mine,
        );
    }
}

/// An update without a document gets the stored membership as it stands, under the id it was
/// asked for, and nothing is written. Whoever may manage it gets it, anybody else is refused,
/// and where there is none there is nothing to answer.
pub proof fn a_membership_is_sent_back_as_it_stands(
    user: Seq<char>,
    own: Seq<OwnMembership>,
    change: GroceryListMemberChangeDelta,
    row: Option<GroceryListMemberData>,
    mine: Option<OwnMembership>,
)
    requires
        change.operation_type == OperationType::Update,
        change.data is Missing || change.data is Null,
        row matches Some(row) ==> is_last_of(
            own,
            |m: OwnMembership| m.row.list_id@,
            row.list_id@,
            mine,
        ),
    ensures
        match member_verdict(user, own, change, row) {
            VerdictView::Skip => row is None,
            VerdictView::Echo { report, remote } => row matches Some(row) && {
                &&& row.user_id@ == user || mine is Some
                &&& report == change.id@
                &&& remote.id == change.id@
                &&& remote.operation_type == OperationType::Update
                &&& remote.version == row.version
                &&& remote.data.id == change.id
                &&& remote.data.list_id == row.list_id
                &&& remote.data.user_id == row.user_id
                &&& remote.data.role == row.role
                &&& remote.data.joined_at == row.joined_at
                &&& remote.data.version == row.version
                &&& remote.data.is_deleted == row.is_deleted
                &&& remote.data.sync_state == row.sync_state
            },
            VerdictView::Refuse(e) => e is Forbidden && (row matches Some(row) && row.user_id@
                != user && mine is None),
            _ => false,
        },
{
    if let Some(row) = row {
        a_lookup_finds_the_last_of_its_name(
            own,
            |m: OwnMembership| m.row.list_id@,
            row.list_id@,
            mine,
        );
    }
}

/// A change that carries nothing readable writes nothing: an insert without a document is
/// passed over, and a document that is no membership is the client's mistake.
pub proof fn an_unreadable_membership_is_never_stored(
    user: Seq<char>,
    own: Seq<OwnMembership>,
    change: GroceryListMemberChangeDelta,
    row: Option<GroceryListMemberData>,
)
    requires
        change.operation_type != OperationType::Delete,
        !(change.data is Item),
    ensures
        !(member_verdict(user, own, change, row) is Write),
        change.operation_type == OperationType::Insert && change.data is Missing ==> member_verdict(
            user,
            own,
            change,
            row,
        ) is Skip,
        change.data is Unreadable || (change.operation_type == OperationType::Insert
            && change.data is Null) ==> (member_verdict(user, own, change, row)
            matches VerdictView::Refuse(e) && e is BadRequest),
{
}

/// Each change of a batch is judged as it would be alone, against the membership that was
/// stored under its id before the batch.
pub proof fn a_membership_is_judged_on_its_own(
    user: Seq<char>,
    own: Seq<OwnMembership>,
    changes: Seq<GroceryListMemberChangeDelta>,
    rows: Seq<GroceryListMemberData>,
    i: int,
    row: Option<GroceryListMemberData>,
)
    requires
        0 <= i < changes.len(),
        is_last_of(rows, |r: GroceryListMemberData| r.id@, changes[i].id@, row),
    ensures
        member_verdicts(user, own, changes, rows).len() == changes.len(),
        member_verdicts(user, own, changes, rows)[i] == member_verdict(user, own, changes[i], row),
{
    a_lookup_finds_the_last_of_its_name(
        rows,
        |r: GroceryListMemberData| r.id@,
        changes[i].id@,
        row,
    );
}

/// Memberships are changed together and ended together, but not both in one statement, and a
/// statement takes each membership once.
pub proof fn a_write_is_about_its_own_membership(one: MemberWrite, other: MemberWrite)
    ensures
        one.kind() == other.kind() <==> (one is Update <==> other is Update),
        one matches MemberWrite::Update { id, .. } ==> one.rows() == seq![id@],
        one matches MemberWrite::Delete { id } ==> one.rows() == seq![id@],
{
}

/// A batch of memberships is judged change by change, each for the user who sent it, by the
/// membership that is stored under its id and the memberships the user has.
pub proof fn a_batch_of_memberships_is_judged_change_by_change(
    user_id: &str,
    changes: &Vec<GroceryListMemberChangeDelta>,
    existing: &Vec<GroceryListMemberData>,
    own: &Vec<OwnMembership>,
    r: Result<Tally<MemberWrite, GroceryListMemberData>, AppError>,
)
    requires
        call_ensures(process_grocery_list_member_changes, (user_id, changes, existing, own), r),
    ensures
        settles(
            r,
            Seq::new(changes@.len(), |i: int| member_verdict(
                user_id@,
                own@,
                changes@[i],
                row_named(existing@, changes@[i].id@),
            )),
        ),
{
}

} // verus!
