//! Stores.
//!
//! A store is private to its owner. Each change is decided against the stores as the changes
//! before it left them.

use crate::error::{AppError, ErrorView};
use crate::sync::batching::{BatchWrite, WriteKind};
use crate::sync::deletes::{ack_unsynced_delete, UNSYNCED_DELETE_VERSION};
use crate::sync::lookup::{is_last_of, Keyed};
use crate::sync::rejections::{payload_refusal, payload_rejection};
use crate::sync::tally::{refusal_stands, settles, Count, Tally, Verdict, VerdictView};
use crate::sync::types::{forbidden, ChangeDelta, OperationType, Payload, SyncState};
use crate::sync::versioning::{
    advance_version, advanced, assign_version, next_version, VersionBounds,
};
use crate::text::{copy_opt, is_text, opt_text, texts};
use vstd::hash_map::StringHashMap;
use vstd::prelude::*;

verus! {

/// A store, as a client sends it.
#[derive(Debug)]
pub struct StoreData {
    pub id: String,
    pub name: String,
    pub position: i32,
    pub is_default_supported: bool,
    pub user_id: Option<String>,
    pub version: i32,
    pub is_deleted: bool,
    pub sync_state: SyncState,
    pub list_id: Option<String>,
}

pub type StoreChangeDelta = ChangeDelta<StoreData>;

impl StoreData {
    /// A copy of this store.
    pub fn copy(&self) -> (c: StoreData)
        ensures
            c == *self,
    {
        StoreData {
            id: self.id.clone(),
            name: self.name.clone(),
            position: self.position,
            is_default_supported: self.is_default_supported,
            user_id: copy_opt(&self.user_id),
            version: self.version,
            is_deleted: self.is_deleted,
            sync_state: self.sync_state.copy(),
            list_id: copy_opt(&self.list_id),
        }
    }
}

impl Keyed for StoreData {
    open spec fn key(&self) -> Seq<char> {
        self.id@
    }

    fn key_text(&self) -> (s: String) {
        self.id.clone()
    }
}

/// What decides a change to a stored store.
#[derive(Debug)]
pub struct StoreRow {
    pub id: String,
    pub user_id: Option<String>,
    pub version: i32,
}

/// A stored store's owner and version.
#[verifier::ext_equal]
pub struct StoreStand {
    pub owner: Option<Seq<char>>,
    pub version: i32,
}

/// The kinds of write stores take.
#[derive(Debug, Clone, Copy, PartialEq, Eq, Structural)]
pub enum StoreKind {
    Upsert,
    VersionBump,
    Delete,
}

impl WriteKind for StoreKind {
    fn same(&self, other: &Self) -> (s: bool) {
        *self == *other
    }

    fn copied(&self) -> (k: Self) {
        *self
    }
}

/// One write to the stores.
#[derive(Debug)]
pub enum StoreWrite {
    /// Stores the store under its own id at `version`. The owner is the authenticated user,
    /// whatever the client sent.
    Upsert { item: StoreData, version: i32 },
    /// Moves the store to `version` and leaves the rest of it alone.
    VersionBump { id: String, version: i32 },
    /// Marks the store deleted at `version`.
    Delete { id: String, version: i32 },
}

impl BatchWrite for StoreWrite {
    type Kind = StoreKind;

    open spec fn kind(&self) -> StoreKind {
        match *self {
            StoreWrite::Upsert { .. } => StoreKind::Upsert,
            StoreWrite::VersionBump { .. } => StoreKind::VersionBump,
            StoreWrite::Delete { .. } => StoreKind::Delete,
        }
    }

    open spec fn rows(&self) -> Seq<Seq<char>> {
        match *self {
            StoreWrite::Upsert { item, .. } => seq![item.id@],
            StoreWrite::VersionBump { id, .. } => seq![id@],
            StoreWrite::Delete { id, .. } => seq![id@],
        }
    }

    fn kind_of(&self) -> (k: StoreKind) {
        match self {
            StoreWrite::Upsert { .. } => StoreKind::Upsert,
            StoreWrite::VersionBump { .. } => StoreKind::VersionBump,
            StoreWrite::Delete { .. } => StoreKind::Delete,
        }
    }

    fn rows_of(&self) -> (rows: Vec<String>) {
        let id = match self {
            StoreWrite::Upsert { item, .. } => item.id.clone(),
            StoreWrite::VersionBump { id, .. } => id.clone(),
            StoreWrite::Delete { id, .. } => id.clone(),
        };
        let rows = vec![id];
        assert(texts(rows@) =~= self.rows());
        rows
    }
}

/// The stored stores a batch is decided against, by id.
pub open spec fn stands(rows: Seq<StoreRow>) -> Map<Seq<char>, StoreStand>
    decreases rows.len(),
{
    if rows.len() == 0 {
        Map::empty()
    } else {
        let row = rows.last();
        stands(rows.drop_last()).insert(
            row.id@,
            StoreStand { owner: opt_text(row.user_id), version: row.version },
        )
    }
}

/// The store with this id, where there is one.
pub open spec fn stand_of(table: Map<Seq<char>, StoreStand>, id: Seq<char>) -> Option<StoreStand> {
    if table.contains_key(id) {
        Some(table[id])
    } else {
        None
    }
}

/// What one change comes to, given the stores as they stand.
pub open spec fn store_verdict(
    user: Seq<char>,
    bounds: VersionBounds,
    change: StoreChangeDelta,
    table: Map<Seq<char>, StoreStand>,
) -> VerdictView<StoreWrite, StoreData> {
    if change.operation_type == OperationType::Delete {
        match stand_of(table, change.id@) {
            None => VerdictView::Settle { report: change.id@, version: UNSYNCED_DELETE_VERSION },
            Some(stand) => if stand.owner != Some(user) {
                VerdictView::Refuse(
                    ErrorView::Forbidden("User is not authorized to delete store "@ + change.id@),
                )
            } else {
                match advanced("Store"@, change.id@, stand.version) {
                    Ok(version) => VerdictView::Write {
                        report: change.id@,
                        write: StoreWrite::Delete { id: change.id, version },
                        number: Some(version),
                        correction: None,
                    },
                    Err(e) => VerdictView::Refuse(e),
                }
            },
        }
    } else {
        match change.data {
            Payload::Missing => if change.operation_type == OperationType::Update {
                match stand_of(table, change.id@) {
                    None => VerdictView::Skip,
                    Some(stand) => if stand.owner != Some(user) {
                        VerdictView::Refuse(
                            ErrorView::Forbidden(
                                "User is not authorized to update store "@ + change.id@,
                            ),
                        )
                    } else {
                        match advanced("Store"@, change.id@, stand.version) {
                            Ok(version) => VerdictView::Write {
                                report: change.id@,
                                write: StoreWrite::VersionBump { id: change.id, version },
                                number: Some(version),
                                correction: None,
                            },
                            Err(e) => VerdictView::Refuse(e),
                        }
                    },
                }
            } else {
                VerdictView::Skip
            },
            Payload::Null(reason) => VerdictView::Refuse(
                payload_rejection("store"@, change.id@, reason@),
            ),
            Payload::Unreadable(reason) => VerdictView::Refuse(
                payload_rejection("store"@, change.id@, reason@),
            ),
            Payload::Item(item) => {
                let stand = stand_of(table, item.id@);
                if stand is Some && stand->0.owner != Some(user) {
                    VerdictView::Refuse(
                        ErrorView::Forbidden("User is not authorized to update store "@ + item.id@),
                    )
                } else {
                    let stored = match stand {
                        Some(stand) => Some(stand.version),
                        None => None,
                    };
                    match next_version(bounds, "Store"@, change.id@, stored, item.version) {
                        Ok(version) => VerdictView::Write {
                            report: change.id@,
                            write: StoreWrite::Upsert { item, version },
                            number: Some(version),
                            correction: None,
                        },
                        Err(e) => VerdictView::Refuse(e),
                    }
                }
            },
        }
    }
}

/// The stores as a verdict leaves them.
pub open spec fn stands_after(
    user: Seq<char>,
    table: Map<Seq<char>, StoreStand>,
    v: VerdictView<StoreWrite, StoreData>,
) -> Map<Seq<char>, StoreStand> {
    match v {
        VerdictView::Write { write: StoreWrite::Upsert { item, version }, .. } => table.insert(
            item.id@,
            StoreStand { owner: Some(user), version },
        ),
        VerdictView::Write { write: StoreWrite::VersionBump { id, version }, .. } => table.insert(
            id@,
            StoreStand { owner: Some(user), version },
        ),
        VerdictView::Write { write: StoreWrite::Delete { id, version }, .. } => table.insert(
            id@,
            StoreStand { owner: Some(user), version },
        ),
        _ => table,
    }
}

/// The stores after a list of changes.
pub open spec fn table_after(
    user: Seq<char>,
    bounds: VersionBounds,
    changes: Seq<StoreChangeDelta>,
    table: Map<Seq<char>, StoreStand>,
) -> Map<Seq<char>, StoreStand>
    decreases changes.len(),
{
    if changes.len() == 0 {
        table
    } else {
        let before = table_after(user, bounds, changes.drop_last(), table);
        stands_after(user, before, store_verdict(user, bounds, changes.last(), before))
    }
}

/// What the changes of a batch come to, each given the stores as the ones before it left
/// them.
pub open spec fn store_verdicts(
    user: Seq<char>,
    bounds: VersionBounds,
    changes: Seq<StoreChangeDelta>,
    table: Map<Seq<char>, StoreStand>,
) -> Seq<VerdictView<StoreWrite, StoreData>> {
    Seq::new(
        changes.len(),
        |i: int|
            store_verdict(
                user,
                bounds,
                changes[i],
                table_after(user, bounds, changes.take(i), table),
            ),
    )
}

/// A store's owner and version while a batch is decided.
struct Standing {
    owner: Option<String>,
    version: i32,
}

spec fn shows(m: Map<Seq<char>, Standing>, table: Map<Seq<char>, StoreStand>) -> bool {
    forall|id: Seq<char>| #![trigger m.contains_key(id)] #![trigger table.contains_key(id)]
        m.contains_key(id) == table.contains_key(id) && (m.contains_key(id) ==> table[id]
            == (StoreStand { owner: opt_text(m[id].owner), version: m[id].version }))
}

/// Whether a stored store is the user's, and its version.
fn stand<'a>(table: &'a StringHashMap<Standing>, id: &str, Ghost(model): Ghost<
    Map<Seq<char>, StoreStand>,
>) -> (s: Option<&'a Standing>)
    requires
        shows(table@, model),
    ensures
        match s {
            Some(s) => stand_of(model, id@) == Some(
                StoreStand { owner: opt_text(s.owner), version: s.version },
            ),
            None => stand_of(model, id@) is None,
        },
{
    table.get(id)
}

fn judge_store(
    user: &str,
    bounds: VersionBounds,
    change: &StoreChangeDelta,
    table: &StringHashMap<Standing>,
    Ghost(model): Ghost<Map<Seq<char>, StoreStand>>,
) -> (v: Verdict<StoreWrite, StoreData>)
    requires
        shows(table@, model),
    ensures
        v@ == store_verdict(user@, bounds, *change, model),
{
    if change.operation_type == OperationType::Delete {
        return match stand(table, change.id.as_str(), Ghost(model)) {
            None => Verdict::Settle {
                report: change.id.clone(),
                version: ack_unsynced_delete("store", change.id.as_str()),
            },
            Some(s) => {
                if !is_text(&s.owner, user) {
                    Verdict::Refuse(
                        forbidden("User is not authorized to delete store ", change.id.as_str()),
                    )
                } else {
                    match advance_version("Store", change.id.as_str(), s.version) {
                        Ok(version) => Verdict::Write {
                            report: change.id.clone(),
                            write: StoreWrite::Delete { id: change.id.clone(), version },
                            number: Some(version),
                            correction: None,
                        },
                        Err(e) => Verdict::Refuse(e),
                    }
                }
            },
        };
    }
    match &change.data {
        Payload::Missing => {
            if change.operation_type == OperationType::Update {
                match stand(table, change.id.as_str(), Ghost(model)) {
                    None => Verdict::Skip,
                    Some(s) => {
                        if !is_text(&s.owner, user) {
                            Verdict::Refuse(
                                forbidden(
                                    "User is not authorized to update store ",
                                    change.id.as_str(),
                                ),
                            )
                        } else {
                            match advance_version("Store", change.id.as_str(), s.version) {
                                Ok(version) => Verdict::Write {
                                    report: change.id.clone(),
                                    write: StoreWrite::VersionBump {
                                        id: change.id.clone(),
                                        version,
                                    },
                                    number: Some(version),
                                    correction: None,
                                },
                                Err(e) => Verdict::Refuse(e),
                            }
                        }
                    },
                }
            } else {
                Verdict::Skip
            }
        },
        Payload::Null(reason) => Verdict::Refuse(
            payload_refusal("store", change.id.as_str(), reason.as_str()),
        ),
        Payload::Unreadable(reason) => Verdict::Refuse(
            payload_refusal("store", change.id.as_str(), reason.as_str()),
        ),
        Payload::Item(item) => {
            let stored: Option<i32> = match stand(table, item.id.as_str(), Ghost(model)) {
                Some(s) => {
                    if !is_text(&s.owner, user) {
                        return Verdict::Refuse(
                            forbidden("User is not authorized to update store ", item.id.as_str()),
                        );
                    }
                    Some(s.version)
                },
                None => None,
            };
            match assign_version(bounds, "Store", change.id.as_str(), stored, item.version) {
                Ok(version) => Verdict::Write {
                    report: change.id.clone(),
                    write: StoreWrite::Upsert { item: item.copy(), version },
                    number: Some(version),
                    correction: None,
                },
                Err(e) => Verdict::Refuse(e),
            }
        },
    }
}

fn load(rows: &Vec<StoreRow>) -> (table: StringHashMap<Standing>)
    ensures
        shows(table@, stands(rows@)),
{
    let mut table: StringHashMap<Standing> = StringHashMap::new();
    let mut i: usize = 0;
    while i < rows.len()
        invariant
            i <= rows.len(),
            shows(table@, stands(rows@.take(i as int))),
        decreases rows.len() - i,
    {
        let row = &rows[i];
        proof {
            assert(rows@.take(i + 1).drop_last() =~= rows@.take(i as int));
        }
        table.insert(
            row.id.clone(),
            Standing { owner: copy_opt(&row.user_id), version: row.version },
        );
        i = i + 1;
    }
    assert(rows@.take(rows.len() as int) =~= rows@);
    table
}

fn settle_stand(
    table: &mut StringHashMap<Standing>,
    user: &str,
    v: &Verdict<StoreWrite, StoreData>,
    Ghost(model): Ghost<Map<Seq<char>, StoreStand>>,
)
    requires
        shows(old(table)@, model),
    ensures
        shows(final(table)@, stands_after(user@, model, v@)),
{
    match v {
        Verdict::Write { write, .. } => {
            let (id, version) = match write {
                StoreWrite::Upsert { item, version } => (item.id.clone(), *version),
                StoreWrite::VersionBump { id, version } => (id.clone(), *version),
                StoreWrite::Delete { id, version } => (id.clone(), *version),
            };
            table.insert(id, Standing { owner: Some(user.to_owned()), version });
        },
        _ => {},
    }
}

/// Applies a batch of store changes: decides each against the stores as the changes before
/// it left them, and collects what to write and what to answer.
pub fn process_store_changes(
    user_id: &str,
    changes: &Vec<StoreChangeDelta>,
    existing: &Vec<StoreRow>,
    bounds: VersionBounds,
) -> (r: Result<Tally<StoreWrite, StoreData>, AppError>)
    ensures
        settles(r, store_verdicts(user_id@, bounds, changes@, stands(existing@))),
{
    let ghost table0 = stands(existing@);
    let ghost vs = store_verdicts(user_id@, bounds, changes@, table0);
    let mut table = load(existing);
    let mut count: Count<StoreWrite, StoreData> = Count::new();
    assert(vs.take(0) =~= seq![]);
    let mut i: usize = 0;
    while i < changes.len()
        invariant
            i <= changes.len(),
            table0 == stands(existing@),
            vs == store_verdicts(user_id@, bounds, changes@, table0),
            shows(table@, table_after(user_id@, bounds, changes@.take(i as int), table0)),
            count.wf(),
            count.counts(vs.take(i as int)),
        decreases changes.len() - i,
    {
        let ghost model = table_after(user_id@, bounds, changes@.take(i as int), table0);
        let v = judge_store(user_id, bounds, &changes[i], &table, Ghost(model));
        proof {
            assert(v@ == vs[i as int]);
            assert(vs.take(i as int).push(v@) =~= vs.take(i + 1));
            assert(changes@.take(i + 1).drop_last() =~= changes@.take(i as int));
        }
        settle_stand(&mut table, user_id, &v, Ghost(model));
        match count.absorb(v) {
            Ok(_) => {},
            Err(e) => {
                proof {
                    refusal_stands(vs, i + 1);
                }
                return Err(e);
            },
        }
        i = i + 1;
    }
    assert(vs.take(vs.len() as int) =~= vs);
    Ok(count.finish())
}

/// A stored store is written only by its owner, and moves exactly one version on.
pub proof fn a_store_is_written_by_its_owner(
    user: Seq<char>,
    bounds: VersionBounds,
    change: StoreChangeDelta,
    table: Map<Seq<char>, StoreStand>,
)
    ensures
        store_verdict(user, bounds, change, table) matches VerdictView::Write { write, number, .. }
            ==> table.contains_key(write.rows()[0]) ==> table[write.rows()[0]].owner == Some(user)
            && number == Some((table[write.rows()[0]].version + 1) as i32),
{
}

/// A batch is decided against the stores as they are stored: each stands under its id with its
/// own owner and version, and where two rows have one id the later one counts.
pub proof fn a_store_stands_as_it_is_stored(
    rows: Seq<StoreRow>,
    id: Seq<char>,
    row: Option<StoreRow>,
)
    requires
        is_last_of(rows, |r: StoreRow| r.id@, id, row),
    ensures
        match row {
            Some(row) => stands(rows).contains_key(id) && stands(rows)[id].version == row.version
                && match row.user_id {
                Some(owner) => stands(rows)[id].owner == Some(owner@),
                None => stands(rows)[id].owner is None,
            },
            None => !stands(rows).contains_key(id),
        },
    decreases rows.len(),
{
    if rows.len() > 0 {
        let front = rows.drop_last();
        let last = rows.last();
        assert(rows[rows.len() - 1] == last);
        match row {
            Some(found) => {
                let k = choose|k: int|
                    0 <= k < rows.len() && #[trigger] rows[k] == found && found.id@ == id
                        && forall|j: int|
                        k < j < rows.len() ==> (#[trigger] rows[j]).id@ != id;
                if k < front.len() {
                    assert(front[k] == found);
                    assert forall|j: int| k < j < front.len() implies (#[trigger] front[j]).id@
                        != id by {
                        assert(front[j] == rows[j]);
                    }
                    a_store_stands_as_it_is_stored(front, id, row);
                }
            },
            None => {
                assert forall|j: int| 0 <= j < front.len() implies (#[trigger] front[j]).id@
                    != id by {
                    assert(front[j] == rows[j]);
                }
                a_store_stands_as_it_is_stored(front, id, row);
            },
        }
    }
}

/// A store is stored as the client sent it, whether or not one stands under its id already. A
/// standing store moves one version on and a new one starts at the client's number. The write is
/// owed to the store's owner, and to anybody where there is none, if the version allows it.
pub proof fn a_store_is_stored_as_it_was_sent(
    user: Seq<char>,
    bounds: VersionBounds,
    change: StoreChangeDelta,
    table: Map<Seq<char>, StoreStand>,
    item: StoreData,
)
    requires
        change.operation_type != OperationType::Delete,
        change.data == Payload::Item(item),
    ensures
        match store_verdict(user, bounds, change, table) {
            VerdictView::Write { report, write, number, correction } => {
                &&& report == change.id@
                &&& correction is None
                &&& match write {
                    StoreWrite::Upsert { item: stored, version } => {
                        &&& stored.id == item.id
                        &&& stored.name == item.name
                        &&& stored.position == item.position
                        &&& stored.is_default_supported == item.is_default_supported
                        &&& stored.user_id == item.user_id
                        &&& stored.version == item.version
                        &&& stored.is_deleted == item.is_deleted
                        &&& stored.sync_state == item.sync_state
                        &&& stored.list_id == item.list_id
                        &&& number == Some(version)
                        &&& if table.contains_key(item.id@) {
                            version == table[item.id@].version + 1
                        } else {
                            version == item.version
                        }
                    },
                    _ => false,
                }
            },
            VerdictView::Refuse(_) => true,
            _ => false,
        },
        store_verdict(user, bounds, change, table) is Write <==> if table.contains_key(item.id@) {
            table[item.id@].owner == Some(user) && table[item.id@].version < i32::MAX
        } else {
            0 <= item.version && item.version <= bounds.max_seed
        },
{
}

/// Deleting a store marks that store deleted, one version on, and only for its owner. A store
/// that is not there is settled at the first version, and somebody else's is refused.
pub proof fn deleting_a_store_is_for_its_owner(
    user: Seq<char>,
    bounds: VersionBounds,
    change: StoreChangeDelta,
    table: Map<Seq<char>, StoreStand>,
)
    requires
        change.operation_type == OperationType::Delete,
    ensures
        match store_verdict(user, bounds, change, table) {
            VerdictView::Settle { report, version } => report == change.id@ && version == 1
                && !table.contains_key(change.id@),
            VerdictView::Refuse(e) => table.contains_key(change.id@) && if table[change.id@].owner
                == Some(user) {
                e is BadRequest && table[change.id@].version == i32::MAX
            } else {
                e is Forbidden
            },
            VerdictView::Write { report, write, number, correction } => {
                &&& report == change.id@
                &&& correction is None
                &&& table.contains_key(change.id@)
                &&& table[change.id@].owner == Some(user)
                &&& write matches StoreWrite::Delete { id, version } && id == change.id && version
                    == table[change.id@].version + 1 && number == Some(version)
            },
            _ => false,
        },
{
}

/// An update without a document moves the owner's store one version on and leaves the rest of
/// it alone; somebody else's store is refused, and one that is not there is passed over. Any
/// other change that carries no store writes nothing.
pub proof fn a_store_without_a_document_only_moves_on(
    user: Seq<char>,
    bounds: VersionBounds,
    change: StoreChangeDelta,
    table: Map<Seq<char>, StoreStand>,
)
    requires
        change.operation_type != OperationType::Delete,
        !(change.data is Item),
    ensures
        match store_verdict(user, bounds, change, table) {
            VerdictView::Skip => change.data is Missing && (change.operation_type
                == OperationType::Insert || !table.contains_key(change.id@)),
            VerdictView::Write { report, write, number, correction } => {
                &&& change.data is Missing && change.operation_type == OperationType::Update
                &&& report == change.id@
                &&& correction is None
                &&& table.contains_key(change.id@)
                &&& table[change.id@].owner == Some(user)
                &&& write matches StoreWrite::VersionBump { id, version } && id == change.id
                    && version == table[change.id@].version + 1 && number == Some(version)
            },
            VerdictView::Refuse(e) => if change.data is Missing {
                table.contains_key(change.id@) && if table[change.id@].owner == Some(user) {
                    e is BadRequest && table[change.id@].version == i32::MAX
                } else {
                    e is Forbidden
                }
            } else {
                e is BadRequest
            },
            _ => false,
        },
{
}

/// A change of a batch is decided against the stores as the changes before it left them: the
/// store that was written stands as the user's at the version it was written at, and every
/// other stands as it did.
pub proof fn a_store_change_sees_those_before_it(
    user: Seq<char>,
    bounds: VersionBounds,
    changes: Seq<StoreChangeDelta>,
    table: Map<Seq<char>, StoreStand>,
    i: int,
    id: Seq<char>,
)
    requires
        0 <= i < changes.len(),
    ensures
        ({
            let before = table_after(user, bounds, changes.take(i), table);
            let after = table_after(user, bounds, changes.take(i + 1), table);
            let vs = store_verdicts(user, bounds, changes, table);
            &&& vs.len() == changes.len()
            &&& vs[i] == store_verdict(user, bounds, changes[i], before)
            &&& match vs[i] {
                VerdictView::Write { write, .. } => {
                    let (written, version) = match write {
                        StoreWrite::Upsert { item, version } => (item.id@, version),
                        StoreWrite::VersionBump { id, version } => (id@, version),
                        StoreWrite::Delete { id, version } => (id@, version),
                    };
                    if id == written {
                        after.contains_key(id) && after[id].owner == Some(user) && after[id].version
                            == version
                    } else {
                        after.contains_key(id) == before.contains_key(id) && (after.contains_key(id)
                            ==> after[id] == before[id])
                    }
                },
                _ => after == before,
            }
        }),
        table_after(user, bounds, changes.take(0), table) == table,
{
    assert(changes.take(i + 1).drop_last() =~= changes.take(i));
    assert(changes.take(i + 1).last() == changes[i]);
}

/// Storing stores, moving them on and deleting them are three statements, and each takes a
/// store once.
pub proof fn a_write_is_about_its_own_store(one: StoreWrite, other: StoreWrite)
    ensures
        one.kind() == other.kind() <==> (one is Upsert && other is Upsert) || (one is VersionBump
            && other is VersionBump) || (one is Delete && other is Delete),
        one matches StoreWrite::Upsert { item, .. } ==> one.rows() == seq![item.id@],
        one matches StoreWrite::VersionBump { id, .. } ==> one.rows() == seq![id@],
        one matches StoreWrite::Delete { id, .. } ==> one.rows() == seq![id@],
{
}

/// A batch of stores is judged change by change, each for the user who sent it, by the stores
/// that are stored as the changes before it left them.
pub proof fn a_batch_of_stores_is_judged_change_by_change(
    user_id: &str,
    changes: &Vec<StoreChangeDelta>,
    existing: &Vec<StoreRow>,
    bounds: VersionBounds,
    r: Result<Tally<StoreWrite, StoreData>, AppError>,
)
    requires
        call_ensures(process_store_changes, (user_id, changes, existing, bounds), r),
    ensures
        settles(
            r,
            Seq::new(changes@.len(), |i: int| store_verdict(
                user_id@,
                bounds,
                changes@[i],
                table_after(user_id@, bounds, changes@.take(i), stands(existing@)),
            )),
        ),
{
}

} // verus!
