//! What a batch of uploaded changes comes to.
//!
//! Each change is judged on its own; this module adds the verdicts up into what the
//! response reports and the statements to issue.

use crate::error::{AppError, ErrorView};
use crate::sync::batching::{
    every_run_is_one_statement, in_order, is_one_statement, run_views,
    runs_keep_every_write_in_order, runs_of, BatchWrite, RunBatcher,
};
use crate::sync::deletes::{deleted_version, soft_delete_version};
use crate::sync::lookup::{
    a_lookup_finds_the_last_of_its_name, is_last_of, row_named, Keyed, RowIndex,
};
use crate::sync::types::{
    remote_views, status_views, synced, RemoteDelta, RemoteView, StatusView, SuccessResult,
    SyncState,
};
use crate::text::texts;
use vstd::prelude::*;

verus! {

/// What one change comes to.
pub enum Verdict<W, T> {
    /// The batch is refused.
    Refuse(AppError),
    /// The change has no effect and is not reported.
    Skip,
    /// The change is acknowledged and the server's copy of a row is sent back.
    Echo { report: String, remote: RemoteDelta<T> },
    /// The change is reported as synced at a version that is already known, and nothing is
    /// written.
    Settle { report: String, version: i32 },
    /// The change is written. Its version is known, or comes out of the statement.
    Write { report: String, write: W, number: Option<i32>, correction: Option<RemoteDelta<T>> },
}

/// [`Verdict`] with its texts as mathematical text.
pub enum VerdictView<W, T> {
    Refuse(ErrorView),
    Skip,
    Echo { report: Seq<char>, remote: RemoteView<T> },
    Settle { report: Seq<char>, version: i32 },
    Write { report: Seq<char>, write: W, number: Option<i32>, correction: Option<RemoteView<T>> },
}

impl<W, T> View for Verdict<W, T> {
    type V = VerdictView<W, T>;

    open spec fn view(&self) -> VerdictView<W, T> {
        match *self {
            Verdict::Refuse(e) => VerdictView::Refuse(e@),
            Verdict::Skip => VerdictView::Skip,
            Verdict::Echo { report, remote } => VerdictView::Echo {
                report: report@,
                remote: remote@,
            },
            Verdict::Settle { report, version } => VerdictView::Settle { report: report@, version },
            Verdict::Write { report, write, number, correction } => VerdictView::Write {
                report: report@,
                write,
                number,
                correction: match correction {
                    Some(r) => Some(r@),
                    None => None,
                },
            },
        }
    }
}

/// The change ids one verdict acknowledges.
pub open spec fn acked<W, T>(v: VerdictView<W, T>) -> Seq<Seq<char>> {
    match v {
        VerdictView::Refuse(_) => seq![],
        VerdictView::Skip => seq![],
        VerdictView::Echo { report, .. } => seq![report],
        VerdictView::Settle { report, .. } => seq![report],
        VerdictView::Write { report, .. } => seq![report],
    }
}

/// The statuses one verdict reports. A version that comes out of the statement stands as
/// zero until the statement has been issued.
pub open spec fn reported<W, T>(v: VerdictView<W, T>) -> Seq<StatusView> {
    match v {
        VerdictView::Settle { report, version } => seq![synced(report, version)],
        VerdictView::Write { report, number, .. } => seq![
            synced(
                report,
                match number {
                    Some(version) => version,
                    None => 0,
                },
            ),
        ],
        _ => seq![],
    }
}

/// The rows one verdict sends back.
pub open spec fn sent<W, T>(v: VerdictView<W, T>) -> Seq<RemoteView<T>> {
    match v {
        VerdictView::Echo { remote, .. } => seq![remote],
        VerdictView::Write { correction: Some(remote), .. } => seq![remote],
        _ => seq![],
    }
}

/// The writes one verdict makes.
pub open spec fn written<W, T>(v: VerdictView<W, T>) -> Seq<W> {
    match v {
        VerdictView::Write { write, .. } => seq![write],
        _ => seq![],
    }
}

/// For each write of unknown version, where its status stands in the response.
pub open spec fn awaited<W, T>(v: VerdictView<W, T>, at: int) -> Seq<int> {
    match v {
        VerdictView::Write { number: None, .. } => seq![at],
        _ => seq![],
    }
}

pub open spec fn all_acked<W, T>(vs: Seq<VerdictView<W, T>>) -> Seq<Seq<char>>
    decreases vs.len(),
{
    if vs.len() == 0 {
        seq![]
    } else {
        all_acked(vs.drop_last()) + acked(vs.last())
    }
}

pub open spec fn all_reported<W, T>(vs: Seq<VerdictView<W, T>>) -> Seq<StatusView>
    decreases vs.len(),
{
    if vs.len() == 0 {
        seq![]
    } else {
        all_reported(vs.drop_last()) + reported(vs.last())
    }
}

pub open spec fn all_sent<W, T>(vs: Seq<VerdictView<W, T>>) -> Seq<RemoteView<T>>
    decreases vs.len(),
{
    if vs.len() == 0 {
        seq![]
    } else {
        all_sent(vs.drop_last()) + sent(vs.last())
    }
}

pub open spec fn all_written<W, T>(vs: Seq<VerdictView<W, T>>) -> Seq<W>
    decreases vs.len(),
{
    if vs.len() == 0 {
        seq![]
    } else {
        all_written(vs.drop_last()) + written(vs.last())
    }
}

pub open spec fn all_awaited<W, T>(vs: Seq<VerdictView<W, T>>) -> Seq<int>
    decreases vs.len(),
{
    if vs.len() == 0 {
        seq![]
    } else {
        let front = vs.drop_last();
        all_awaited(front) + awaited(vs.last(), all_reported(front).len() as int)
    }
}

/// The first refusal among the verdicts.
pub open spec fn first_refusal<W, T>(vs: Seq<VerdictView<W, T>>) -> Option<ErrorView>
    decreases vs.len(),
{
    if vs.len() == 0 {
        None
    } else {
        match first_refusal(vs.drop_last()) {
            Some(e) => Some(e),
            None => match vs.last() {
                VerdictView::Refuse(e) => Some(e),
                _ => None,
            },
        }
    }
}

/// What a batch comes to: what the response reports, and the runs to issue in order.
pub struct Tally<W, T> {
    /// The ids of the changes that are done.
    pub success_ids: Vec<String>,
    /// The version each change ended at.
    pub upload_status: Vec<SuccessResult>,
    /// The server's copies the client asked for or has to be corrected with.
    pub remote_changes: Vec<RemoteDelta<T>>,
    /// The writes, as the statements to issue.
    pub runs: Vec<Vec<W>>,
    /// For each write whose version the statement decides, in order, the place of its status
    /// in `upload_status`.
    pub awaiting: Vec<usize>,
}

/// Whether `t` is what the verdicts come to.
pub open spec fn tallies<W: BatchWrite, T>(t: Tally<W, T>, vs: Seq<VerdictView<W, T>>) -> bool {
    &&& texts(t.success_ids@) == all_acked(vs)
    &&& status_views(t.upload_status@) == all_reported(vs)
    &&& remote_views(t.remote_changes@) == all_sent(vs)
    &&& run_views(t.runs@) == runs_of(all_written(vs))
    &&& t.awaiting@.map_values(|i: usize| i as int) == all_awaited(vs)
}

/// Whether `r` is the result of a batch with these verdicts: the first refusal, or the tally
/// of them all.
pub open spec fn settles<W: BatchWrite, T>(
    r: Result<Tally<W, T>, AppError>,
    vs: Seq<VerdictView<W, T>>,
) -> bool {
    match r {
        Ok(t) => first_refusal(vs) is None && tallies(t, vs),
        Err(e) => first_refusal(vs) == Some(e@),
    }
}

/// Adds verdicts up.
pub struct Count<W: BatchWrite, T> {
    success_ids: Vec<String>,
    upload_status: Vec<SuccessResult>,
    remote_changes: Vec<RemoteDelta<T>>,
    batcher: RunBatcher<W>,
    awaiting: Vec<usize>,
}

impl<W: BatchWrite, T> Count<W, T> {
    /// Whether this count has absorbed exactly these verdicts.
    pub closed spec fn counts(self, vs: Seq<VerdictView<W, T>>) -> bool {
        &&& first_refusal(vs) is None
        &&& texts(self.success_ids@) == all_acked(vs)
        &&& status_views(self.upload_status@) == all_reported(vs)
        &&& remote_views(self.remote_changes@) == all_sent(vs)
        &&& self.batcher.wf()
        &&& self.batcher.writes() == all_written(vs)
        &&& self.awaiting@.map_values(|i: usize| i as int) == all_awaited(vs)
    }

    /// The invariant of a count.
    pub closed spec fn wf(self) -> bool {
        self.batcher.wf()
    }

    /// A count of no verdicts.
    pub fn new() -> (c: Self)
        ensures
            c.wf(),
            c.counts(seq![]),
    {
        let c = Count {
            success_ids: Vec::new(),
            upload_status: Vec::new(),
            remote_changes: Vec::new(),
            batcher: RunBatcher::new(),
            awaiting: Vec::new(),
        };
        proof {
            let vs = Seq::<VerdictView<W, T>>::empty();
            assert(texts(c.success_ids@) =~= all_acked(vs));
            assert(status_views(c.upload_status@) =~= all_reported(vs));
            assert(remote_views(c.remote_changes@) =~= all_sent(vs));
            assert(c.batcher.writes() =~= all_written(vs));
            assert(c.awaiting@.map_values(|i: usize| i as int) =~= all_awaited(vs));
        }
        c
    }

    fn ack(&mut self, report: String)
        ensures
            texts(final(self).success_ids@) == texts(old(self).success_ids@).push(report@),
            final(self).upload_status == old(self).upload_status,
            final(self).remote_changes == old(self).remote_changes,
            final(self).batcher == old(self).batcher,
            final(self).awaiting == old(self).awaiting,
    {
        self.success_ids.push(report);
        assert(texts(self.success_ids@) =~= texts(old(self).success_ids@).push(report@));
    }

    fn report(&mut self, id: &String, version: i32)
        ensures
            status_views(final(self).upload_status@) == status_views(
                old(self).upload_status@,
            ).push(synced(id@, version)),
            final(self).success_ids == old(self).success_ids,
            final(self).remote_changes == old(self).remote_changes,
            final(self).batcher == old(self).batcher,
            final(self).awaiting == old(self).awaiting,
    {
        let r = SuccessResult { id: id.clone(), version, sync_state: SyncState::Synced };
        self.upload_status.push(r);
        assert(status_views(self.upload_status@) =~= status_views(old(self).upload_status@).push(
            synced(id@, version),
        ));
    }

    fn send(&mut self, remote: RemoteDelta<T>)
        ensures
            remote_views(final(self).remote_changes@) == remote_views(
                old(self).remote_changes@,
            ).push(remote@),
            final(self).success_ids == old(self).success_ids,
            final(self).upload_status == old(self).upload_status,
            final(self).batcher == old(self).batcher,
            final(self).awaiting == old(self).awaiting,
    {
        self.remote_changes.push(remote);
        assert(remote_views(self.remote_changes@) =~= remote_views(
            old(self).remote_changes@,
        ).push(remote@));
    }

    /// Absorbs one verdict; a refusal is handed back.
    pub fn absorb(&mut self, v: Verdict<W, T>) -> (r: Result<(), AppError>)
        requires
            old(self).wf(),
        ensures
            final(self).wf(),
            forall|vs: Seq<VerdictView<W, T>>| #[trigger]
                old(self).counts(vs) ==> match r {
                    Ok(_) => final(self).counts(vs.push(v@)),
                    Err(e) => first_refusal(vs.push(v@)) == Some(e@),
                },
            r is Err <==> v@ is Refuse,
    {
        let ghost before = *self;
        let ghost view = v@;
        match v {
            Verdict::Refuse(e) => {
                proof {
                    assert forall|vs: Seq<VerdictView<W, T>>| #[trigger]
                        before.counts(vs) implies first_refusal(vs.push(view)) == Some(e@) by {
                        assert(vs.push(view).drop_last() =~= vs);
                    }
                }
                return Err(e);
            },
            Verdict::Skip => {},
            Verdict::Echo { report, remote } => {
                self.send(remote);
                self.ack(report);
            },
            Verdict::Settle { report, version } => {
                self.report(&report, version);
                self.ack(report);
            },
            Verdict::Write { report, write, number, correction } => {
                self.batcher.add(write);
                if let Some(remote) = correction {
                    self.send(remote);
                }
                match number {
                    Some(version) => {
                        self.report(&report, version);
                    },
                    None => {
                        let at: usize = self.upload_status.len();
                        let ghost waiting = self.awaiting@;
                        self.awaiting.push(at);
                        assert(self.awaiting@.map_values(|i: usize| i as int)
                            =~= waiting.map_values(|i: usize| i as int).push(at as int));
                        self.report(&report, 0);
                    },
                }
                self.ack(report);
            },
        }
        proof {
            assert forall|vs: Seq<VerdictView<W, T>>| #[trigger] before.counts(vs) implies self.counts(
                vs.push(view),
            ) by {
                let all = vs.push(view);
                assert(all.drop_last() =~= vs);
                assert(all.last() == view);
                assert(all_acked(all) =~= texts(self.success_ids@));
                assert(all_reported(all) =~= status_views(self.upload_status@));
                assert(all_sent(all) =~= remote_views(self.remote_changes@));
                assert(all_written(all) =~= self.batcher.writes());
                assert(all_awaited(all) =~= self.awaiting@.map_values(|i: usize| i as int));
            }
        }
        Ok(())
    }

    /// The tally of the absorbed verdicts.
    pub fn finish(self) -> (t: Tally<W, T>)
        requires
            self.wf(),
        ensures
            forall|vs: Seq<VerdictView<W, T>>| #[trigger]
                self.counts(vs) ==> first_refusal(vs) is None && tallies(t, vs),
    {
        let runs = self.batcher.into_runs();
        Tally {
            success_ids: self.success_ids,
            upload_status: self.upload_status,
            remote_changes: self.remote_changes,
            runs,
            awaiting: self.awaiting,
        }
    }
}

/// A refusal among some of the verdicts is the first refusal of all that follow.
pub proof fn refusal_stands<W, T>(vs: Seq<VerdictView<W, T>>, n: int)
    requires
        0 <= n <= vs.len(),
        first_refusal(vs.take(n)) is Some,
    ensures
        first_refusal(vs) == first_refusal(vs.take(n)),
    decreases vs.len() - n,
{
    if n < vs.len() {
        assert(vs.take(n + 1).drop_last() =~= vs.take(n));
        refusal_stands(vs, n + 1);
    } else {
        assert(vs.take(n) =~= vs);
    }
}

/// Every change that is reported is also acknowledged, in the same order: without the
/// changes that only sent a copy back, the acknowledged ids are the reported ones.
pub proof fn reports_are_acknowledged<W, T>(vs: Seq<VerdictView<W, T>>)
    ensures
        all_reported(vs).len() <= all_acked(vs).len(),
        forall|i: int|
            0 <= i < all_reported(vs).len() ==> all_acked(vs).contains(
                (#[trigger] all_reported(vs)[i]).id,
            ),
    decreases vs.len(),
{
    if vs.len() > 0 {
        let front = vs.drop_last();
        reports_are_acknowledged(front);
        assert forall|i: int| 0 <= i < all_reported(vs).len() implies all_acked(vs).contains(
            (#[trigger] all_reported(vs)[i]).id,
        ) by {
            if i < all_reported(front).len() {
                assert(all_reported(vs)[i] == all_reported(front)[i]);
                let k = choose|k: int|
                    0 <= k < all_acked(front).len() && all_acked(front)[k] == all_reported(
                        front,
                    )[i].id;
                assert(all_acked(vs)[k] == all_acked(front)[k]);
            } else {
                assert(all_acked(vs)[all_acked(front).len() as int] == all_reported(vs)[i].id);
            }
        }
    }
}

/// The awaited statuses stand in the response in the order of their writes.
pub proof fn awaited_places_ascend<W, T>(vs: Seq<VerdictView<W, T>>)
    ensures
        forall|i: int|
            0 <= i < all_awaited(vs).len() ==> 0 <= #[trigger] all_awaited(vs)[i] < all_reported(
                vs,
            ).len(),
        forall|i: int, j: int|
            0 <= i < j < all_awaited(vs).len() ==> #[trigger] all_awaited(vs)[i]
                < #[trigger] all_awaited(vs)[j],
    decreases vs.len(),
{
    if vs.len() > 0 {
        let front = vs.drop_last();
        awaited_places_ascend(front);
        let places = all_awaited(front);
        let all = all_awaited(vs);
        assert forall|i: int| 0 <= i < all.len() implies 0 <= #[trigger] all[i] < all_reported(
            vs,
        ).len() by {
            if i < places.len() {
                assert(all[i] == places[i]);
            }
        }
        assert forall|i: int, j: int| 0 <= i < j < all.len() implies #[trigger] all[i]
            < #[trigger] all[j] by {
            assert(all[i] == places[i]);
            if j < places.len() {
                assert(all[j] == places[j]);
            }
        }
    }
}

/// A batch goes through exactly if none of its changes is refused.
pub proof fn a_batch_is_all_or_nothing<W, T>(vs: Seq<VerdictView<W, T>>)
    ensures
        first_refusal(vs) is None <==> forall|i: int|
            0 <= i < vs.len() ==> !((#[trigger] vs[i]) is Refuse),
    decreases vs.len(),
{
    if vs.len() > 0 {
        let front = vs.drop_last();
        a_batch_is_all_or_nothing(front);
        if first_refusal(vs) is None {
            assert forall|i: int| 0 <= i < vs.len() implies !((#[trigger] vs[i]) is Refuse) by {
                if i < vs.len() - 1 {
                    assert(front[i] == vs[i]);
                }
            }
        } else {
            if first_refusal(front) is Some {
                let k = choose|k: int| 0 <= k < front.len() && (#[trigger] front[k]) is Refuse;
                assert(vs[k] is Refuse);
            } else {
                assert(vs[vs.len() - 1] is Refuse);
            }
        }
    }
}

/// A row a delete statement returned.
#[derive(Debug)]
pub struct DeletedRow {
    pub name: String,
    pub version: i32,
}

impl Keyed for DeletedRow {
    open spec fn key(&self) -> Seq<char> {
        self.name@
    }

    fn key_text(&self) -> (s: String) {
        self.name.clone()
    }
}

/// The version to report for the delete of the row named `name`.
pub open spec fn version_for(returned: Seq<DeletedRow>, name: Seq<char>) -> i32 {
    deleted_version(
        match row_named(returned, name) {
            Some(row) => Some(row.version),
            None => None,
        },
    )
}

/// The versions to report for the deletes of one run, given the rows the statement returned:
/// a row that did not come back was not there, and its delete is acknowledged.
pub fn versions_for(entity: &str, names: &Vec<String>, returned: &Vec<DeletedRow>) -> (versions:
    Vec<i32>)
    ensures
        versions@ == Seq::new(
            names@.len(),
            |i: int| version_for(returned@, names@[i]@),
        ),
{
    let index = RowIndex::of(returned);
    let mut versions: Vec<i32> = Vec::new();
    let mut i: usize = 0;
    while i < names.len()
        invariant
            i <= names.len(),
            index.indexes(returned@),
            versions@ == Seq::new(i as nat, |k: int| version_for(returned@, names@[k]@)),
        decreases names.len() - i,
    {
        let name = names[i].as_str();
        let found: Option<i32> = match index.find(returned, name) {
            Some(row) => Some(row.version),
            None => None,
        };
        versions.push(soft_delete_version(entity, name, found));
        i = i + 1;
    }
    versions
}

/// The statuses with the versions of the awaited writes filled in.
pub open spec fn filled(
    statuses: Seq<StatusView>,
    places: Seq<usize>,
    versions: Seq<i32>,
) -> Seq<StatusView>
    decreases places.len(),
{
    if places.len() == 0 {
        statuses
    } else {
        let done = filled(statuses, places.drop_last(), versions);
        let at = places.last() as int;
        done.update(
            at,
            StatusView { version: versions[places.len() - 1], ..done[at] },
        )
    }
}

proof fn filled_keeps_length(statuses: Seq<StatusView>, places: Seq<usize>, versions: Seq<i32>)
    requires
        forall|i: int| 0 <= i < places.len() ==> (#[trigger] places[i]) < statuses.len(),
    ensures
        filled(statuses, places, versions).len() == statuses.len(),
    decreases places.len(),
{
    if places.len() > 0 {
        let front = places.drop_last();
        assert forall|i: int| 0 <= i < front.len() implies (#[trigger] front[i])
            < statuses.len() by {
            assert(front[i] == places[i]);
        }
        assert(places.last() == places[places.len() - 1]);
        filled_keeps_length(statuses, places.drop_last(), versions);
    }
}

/// Fills in the versions that the delete statements decided. `places` says where each
/// status stands; ids, states and every other version stay as they are.
pub fn fill_versions(upload_status: &mut Vec<SuccessResult>, places: &Vec<usize>, versions: &Vec<i32>)
    requires
        places@.len() == versions@.len(),
        forall|i: int|
            0 <= i < places@.len() ==> (#[trigger] places@[i]) < old(upload_status)@.len(),
    ensures
        status_views(final(upload_status)@) == filled(
            status_views(old(upload_status)@),
            places@,
            versions@,
        ),
        final(upload_status)@.len() == old(upload_status)@.len(),
{
    let ghost before = status_views(upload_status@);
    let ghost count = upload_status@.len();
    let mut i: usize = 0;
    assert(places@.take(0) =~= seq![]);
    while i < places.len()
        invariant
            i <= places.len(),
            places@.len() == versions@.len(),
            upload_status@.len() == count,
            before.len() == count,
            forall|i: int| 0 <= i < places@.len() ==> (#[trigger] places@[i]) < count,
            status_views(upload_status@) == filled(before, places@.take(i as int), versions@),
        decreases places.len() - i,
    {
        let at: usize = places[i];
        let ghost done = status_views(upload_status@);
        let result = SuccessResult {
            id: upload_status[at].id.clone(),
            version: versions[i],
            sync_state: upload_status[at].sync_state.copy(),
        };
        upload_status.set(at, result);
        proof {
            assert(places@.take(i + 1).drop_last() =~= places@.take(i as int));
            assert(places@.take(i + 1).last() == at);
            assert forall|k: int| 0 <= k < i implies (#[trigger] places@.take(i as int)[k])
                < before.len() by {
                assert(places@.take(i as int)[k] == places@[k]);
            }
            filled_keeps_length(before, places@.take(i as int), versions@);
            assert(status_views(upload_status@) =~= done.update(
                at as int,
                StatusView { version: versions@[i as int], ..done[at as int] },
            ));
        }
        i = i + 1;
    }
    assert(places@.take(places.len() as int) =~= places@);
}

proof fn filled_elsewhere(
    statuses: Seq<StatusView>,
    places: Seq<usize>,
    versions: Seq<i32>,
    at: int,
)
    requires
        0 <= at < statuses.len(),
        forall|i: int| 0 <= i < places.len() ==> (#[trigger] places[i]) != at,
        forall|i: int| 0 <= i < places.len() ==> (#[trigger] places[i]) < statuses.len(),
    ensures
        filled(statuses, places, versions)[at] == statuses[at],
    decreases places.len(),
{
    if places.len() > 0 {
        let front = places.drop_last();
        assert forall|i: int| 0 <= i < front.len() implies (#[trigger] front[i]) != at && front[i]
            < statuses.len() by {
            assert(front[i] == places[i]);
        }
        filled_elsewhere(statuses, front, versions, at);
        assert(places.last() == places[places.len() - 1]);
        filled_keeps_length(statuses, front, versions);
    }
}

/// Filling in the versions of deletes keeps the response in order: every status keeps its
/// place, its id and its state; an awaited one takes the version of its own delete, and no
/// other changes.
pub proof fn filling_touches_only_versions(
    statuses: Seq<StatusView>,
    places: Seq<usize>,
    versions: Seq<i32>,
)
    requires
        places.len() == versions.len(),
        forall|i: int| 0 <= i < places.len() ==> (#[trigger] places[i]) < statuses.len(),
        forall|i: int, j: int|
            0 <= i < j < places.len() ==> (#[trigger] places[i]) < (#[trigger] places[j]),
    ensures
        filled(statuses, places, versions).len() == statuses.len(),
        forall|k: int|
            0 <= k < statuses.len() && !places.contains(k as usize) ==> (#[trigger] filled(
                statuses,
                places,
                versions,
            )[k]) == statuses[k],
        forall|i: int|
            0 <= i < places.len() ==> filled(statuses, places, versions)[(#[trigger] places[i]) as int]
                == (StatusView { version: versions[i], ..statuses[places[i] as int] }),
    decreases places.len(),
{
    filled_keeps_length(statuses, places, versions);
    let all = filled(statuses, places, versions);
    assert forall|k: int| 0 <= k < statuses.len() && !places.contains(k as usize) implies (
    #[trigger] all[k]) == statuses[k] by {
        assert forall|i: int| 0 <= i < places.len() implies (#[trigger] places[i]) != k by {
            if places[i] == k {
                assert(places.contains(k as usize));
            }
        }
        filled_elsewhere(statuses, places, versions, k);
    }
    if places.len() > 0 {
        let front = places.drop_last();
        let n = places.len() - 1;
        let done = filled(statuses, front, versions);
        assert(done == filled(statuses, front, versions.take(n))) by {
            filled_reads_only_its_versions(statuses, front, versions, versions.take(n));
        }
        filling_touches_only_versions(statuses, front, versions.take(n));
        filled_keeps_length(statuses, front, versions);
        assert(places.last() == places[n]);
        filled_elsewhere(statuses, front, versions, places[n] as int);
        assert forall|i: int| 0 <= i < places.len() implies all[(#[trigger] places[i]) as int] == (
        StatusView { version: versions[i], ..statuses[places[i] as int] }) by {
            if i < n {
                assert(front[i] == places[i]);
                assert(places[i] < places[n]);
            }
        }
    }
}

proof fn filled_reads_only_its_versions(
    statuses: Seq<StatusView>,
    places: Seq<usize>,
    one: Seq<i32>,
    other: Seq<i32>,
)
    requires
        one.len() >= places.len(),
        other.len() >= places.len(),
        forall|i: int| 0 <= i < places.len() ==> #[trigger] one[i] == other[i],
    ensures
        filled(statuses, places, one) == filled(statuses, places, other),
    decreases places.len(),
{
    if places.len() > 0 {
        filled_reads_only_its_versions(statuses, places.drop_last(), one, other);
        assert(one[places.len() - 1] == other[places.len() - 1]);
    }
}

/// Whether a verdict acknowledges its change.
pub open spec fn is_done<W, T>(v: VerdictView<W, T>) -> bool {
    v is Echo || v is Settle || v is Write
}

/// Whether a verdict reports a version.
pub open spec fn is_told<W, T>(v: VerdictView<W, T>) -> bool {
    v is Settle || v is Write
}

/// The change a verdict is about, by the id it is reported under.
pub open spec fn change_of<W, T>(v: VerdictView<W, T>) -> Seq<char> {
    match v {
        VerdictView::Echo { report, .. } => report,
        VerdictView::Settle { report, .. } => report,
        VerdictView::Write { report, .. } => report,
        _ => seq![],
    }
}

/// The row a verdict sends back, where it sends one.
pub open spec fn sent_back<W, T>(v: VerdictView<W, T>) -> Option<RemoteView<T>> {
    match v {
        VerdictView::Echo { remote, .. } => Some(remote),
        VerdictView::Write { correction, .. } => correction,
        _ => None,
    }
}

proof fn acks_in_order<W, T>(vs: Seq<VerdictView<W, T>>)
    ensures
        all_acked(vs) == vs.filter(|v: VerdictView<W, T>| is_done(v)).map_values(
            |v: VerdictView<W, T>| change_of(v),
        ),
    decreases vs.len(),
{
    reveal(Seq::filter);
    let p = |v: VerdictView<W, T>| is_done(v);
    let f = |v: VerdictView<W, T>| change_of(v);
    if vs.len() > 0 {
        let front = vs.drop_last();
        acks_in_order(front);
        if is_done(vs.last()) {
            assert(vs.filter(p).map_values(f) =~= front.filter(p).map_values(f).push(
                change_of(vs.last()),
            ));
        }
        assert(all_acked(vs) =~= vs.filter(p).map_values(f));
    } else {
        assert(all_acked(vs) =~= vs.filter(p).map_values(f));
    }
}

proof fn writes_in_order<W, T>(vs: Seq<VerdictView<W, T>>)
    ensures
        all_written(vs) == vs.filter(|v: VerdictView<W, T>| v is Write).map_values(
            |v: VerdictView<W, T>| v->write,
        ),
    decreases vs.len(),
{
    reveal(Seq::filter);
    let p = |v: VerdictView<W, T>| v is Write;
    let f = |v: VerdictView<W, T>| v->write;
    if vs.len() > 0 {
        let front = vs.drop_last();
        writes_in_order(front);
        if vs.last() is Write {
            assert(vs.filter(p).map_values(f) =~= front.filter(p).map_values(f).push(
                vs.last()->write,
            ));
        }
        assert(all_written(vs) =~= vs.filter(p).map_values(f));
    } else {
        assert(all_written(vs) =~= vs.filter(p).map_values(f));
    }
}

proof fn copies_in_order<W, T>(vs: Seq<VerdictView<W, T>>)
    ensures
        all_sent(vs) == vs.filter(|v: VerdictView<W, T>| sent_back(v) is Some).map_values(
            |v: VerdictView<W, T>| sent_back(v)->0,
        ),
    decreases vs.len(),
{
    reveal(Seq::filter);
    let p = |v: VerdictView<W, T>| sent_back(v) is Some;
    let f = |v: VerdictView<W, T>| sent_back(v)->0;
    if vs.len() > 0 {
        let front = vs.drop_last();
        copies_in_order(front);
        if sent_back(vs.last()) is Some {
            assert(vs.filter(p).map_values(f) =~= front.filter(p).map_values(f).push(
                sent_back(vs.last())->0,
            ));
        }
        assert(all_sent(vs) =~= vs.filter(p).map_values(f));
    } else {
        assert(all_sent(vs) =~= vs.filter(p).map_values(f));
    }
}

proof fn statuses_in_order<W, T>(vs: Seq<VerdictView<W, T>>)
    ensures
        ({
            let told = vs.filter(|v: VerdictView<W, T>| is_told(v));
            let statuses = all_reported(vs);
            &&& statuses.len() == told.len()
            &&& forall|k: int|
                0 <= k < told.len() ==> (#[trigger] statuses[k]).id == change_of(told[k])
                    && statuses[k].sync_state is Synced
            &&& forall|k: int|
                0 <= k < told.len() ==> match #[trigger] told[k] {
                    VerdictView::Settle { version, .. } => statuses[k].version == version,
                    VerdictView::Write { number: Some(version), .. } => statuses[k].version
                        == version,
                    _ => true,
                }
            &&& forall|k: int|
                0 <= k < told.len() ==> ((#[trigger] told[k] matches VerdictView::Write {
                    number: None,
                    ..
                }) <==> all_awaited(vs).contains(k))
        }),
    decreases vs.len(),
{
    reveal(Seq::filter);
    let p = |v: VerdictView<W, T>| is_told(v);
    if vs.len() > 0 {
        let front = vs.drop_last();
        statuses_in_order(front);
        awaited_places_ascend(front);
        let told = vs.filter(p);
        let before = front.filter(p);
        let statuses = all_reported(vs);
        let n = before.len() as int;
        assert forall|k: int| 0 <= k < told.len() implies ((#[trigger] told[k] matches VerdictView::Write {
            number: None,
            ..
        }) <==> all_awaited(vs).contains(k)) by {
            let places = all_awaited(front);
            let all = all_awaited(vs);
            if k < n {
                assert(told[k] == before[k]);
                if places.contains(k) {
                    let a = choose|a: int| 0 <= a < places.len() && places[a] == k;
                    assert(all[a] == k);
                }
                if all.contains(k) {
                    let a = choose|a: int| 0 <= a < all.len() && all[a] == k;
                    if a < places.len() {
                        assert(places[a] == k);
                    }
                }
            } else {
                assert(told[k] == vs.last());
                if told[k] matches VerdictView::Write { number: None, .. } {
                    assert(all[places.len() as int] == k);
                }
                if all.contains(k) {
                    let a = choose|a: int| 0 <= a < all.len() && all[a] == k;
                    if a < places.len() {
                        assert(places[a] < n);
                    }
                }
            }
        }
        assert forall|k: int| 0 <= k < told.len() implies (#[trigger] statuses[k]).id == change_of(
            told[k],
        ) && statuses[k].sync_state is Synced by {
            if k < n {
                assert(told[k] == before[k]);
                assert(statuses[k] == all_reported(front)[k]);
            }
        }
        assert forall|k: int| 0 <= k < told.len() implies match #[trigger] told[k] {
            VerdictView::Settle { version, .. } => statuses[k].version == version,
            VerdictView::Write { number: Some(version), .. } => statuses[k].version == version,
            _ => true,
        } by {
            if k < n {
                assert(told[k] == before[k]);
                assert(statuses[k] == all_reported(front)[k]);
            }
        }
    }
}

proof fn the_first_refusal_is_found<W, T>(vs: Seq<VerdictView<W, T>>, k: int)
    requires
        0 <= k < vs.len(),
        vs[k] is Refuse,
        forall|j: int| 0 <= j < k ==> !((#[trigger] vs[j]) is Refuse),
    ensures
        vs[k] == VerdictView::<W, T>::Refuse(first_refusal(vs)->0),
        first_refusal(vs) is Some,
{
    let upto = vs.take(k + 1);
    let front = vs.take(k);
    assert(upto.drop_last() =~= front);
    assert(upto.last() == vs[k]);
    a_batch_is_all_or_nothing(front);
    refusal_stands(vs, k + 1);
}

proof fn a_refusal_is_somewhere_first<W, T>(vs: Seq<VerdictView<W, T>>)
    requires
        first_refusal(vs) is Some,
    ensures
        exists|k: int|
            0 <= k < vs.len() && #[trigger] vs[k] == VerdictView::<W, T>::Refuse(
                first_refusal(vs)->0,
            ) && forall|j: int| 0 <= j < k ==> !((#[trigger] vs[j]) is Refuse),
    decreases vs.len(),
{
    let front = vs.drop_last();
    if first_refusal(front) is Some {
        a_refusal_is_somewhere_first(front);
        let k = choose|k: int|
            0 <= k < front.len() && #[trigger] front[k] == VerdictView::<W, T>::Refuse(
                first_refusal(front)->0,
            ) && forall|j: int| 0 <= j < k ==> !((#[trigger] front[j]) is Refuse);
        assert(vs[k] == front[k]);
        assert forall|j: int| 0 <= j < k implies !((#[trigger] vs[j]) is Refuse) by {
            assert(vs[j] == front[j]);
        }
    } else {
        a_batch_is_all_or_nothing(front);
        assert forall|j: int| 0 <= j < vs.len() - 1 implies !((#[trigger] vs[j]) is Refuse) by {
            assert(vs[j] == front[j]);
        }
        assert(vs[vs.len() - 1] is Refuse);
    }
}

/// A batch fails with the refusal of its first refused change, and with no other: nothing that
/// comes later decides what the caller is told.
pub proof fn a_batch_fails_with_its_first_refusal<W: BatchWrite, T>(
    r: Result<Tally<W, T>, AppError>,
    vs: Seq<VerdictView<W, T>>,
    k: int,
)
    requires
        settles(r, vs),
        0 <= k < vs.len(),
        forall|j: int| 0 <= j < k ==> !((#[trigger] vs[j]) is Refuse),
    ensures
        vs[k] matches VerdictView::Refuse(refusal) ==> (r matches Err(e) && e@ == refusal),
        r matches Err(e) ==> exists|i: int|
            k <= i < vs.len() && #[trigger] vs[i] == VerdictView::<W, T>::Refuse(e@),
{
    if vs[k] is Refuse {
        the_first_refusal_is_found(vs, k);
    }
    if r is Err {
        a_refusal_is_somewhere_first(vs);
        let i = choose|i: int|
            0 <= i < vs.len() && #[trigger] vs[i] == VerdictView::<W, T>::Refuse(
                first_refusal(vs)->0,
            ) && forall|j: int| 0 <= j < i ==> !((#[trigger] vs[j]) is Refuse);
        assert(k <= i);
    }
}

/// A batch that goes through is answered change by change, in order: the changes that came to
/// anything are acknowledged by their ids; those that were settled or written are reported as
/// synced at their versions, and a version that only the statement decides is awaited in its
/// place; the copies and corrections are sent as they are; and the statements hold every write
/// once, in order.
pub proof fn a_batch_is_answered_change_by_change<W: BatchWrite, T>(
    t: Tally<W, T>,
    vs: Seq<VerdictView<W, T>>,
)
    requires
        settles(Ok(t), vs),
    ensures
        forall|i: int| 0 <= i < vs.len() ==> !((#[trigger] vs[i]) is Refuse),
        ({
            let done = vs.filter(|v: VerdictView<W, T>| is_done(v));
            &&& t.success_ids@.len() == done.len()
            &&& forall|k: int|
                0 <= k < done.len() ==> (#[trigger] t.success_ids@[k])@ == change_of(done[k])
        }),
        ({
            let told = vs.filter(|v: VerdictView<W, T>| is_told(v));
            &&& t.upload_status@.len() == told.len()
            &&& forall|k: int|
                0 <= k < told.len() ==> {
                    let status = #[trigger] t.upload_status@[k];
                    &&& status.id@ == change_of(told[k])
                    &&& status.sync_state is Synced
                    &&& match told[k] {
                        VerdictView::Settle { version, .. } => status.version == version,
                        VerdictView::Write { number: Some(version), .. } => status.version
                            == version,
                        _ => t.awaiting@.contains(k as usize),
                    }
                }
            &&& forall|a: int|
                0 <= a < t.awaiting@.len() ==> (#[trigger] t.awaiting@[a]) < told.len()
                    && told[t.awaiting@[a] as int] is Write
                    && told[t.awaiting@[a] as int]->number is None
            &&& forall|a: int, b: int|
                0 <= a < b < t.awaiting@.len() ==> (#[trigger] t.awaiting@[a])
                    < (#[trigger] t.awaiting@[b])
        }),
        ({
            let copies = vs.filter(|v: VerdictView<W, T>| sent_back(v) is Some);
            &&& t.remote_changes@.len() == copies.len()
            &&& forall|k: int|
                0 <= k < copies.len() ==> {
                    let sent = #[trigger] t.remote_changes@[k];
                    let owed = sent_back(copies[k])->0;
                    &&& sent.id@ == owed.id
                    &&& sent.operation_type == owed.operation_type
                    &&& sent.version == owed.version
                    &&& sent.data == owed.data
                }
        }),
        in_order(run_views(t.runs@)) == vs.filter(
            |v: VerdictView<W, T>| v is Write,
        ).map_values(|v: VerdictView<W, T>| v->write),
        forall|a: int| 0 <= a < t.runs@.len() ==> is_one_statement((#[trigger] t.runs@[a])@),
{
    a_batch_is_all_or_nothing(vs);
    acks_in_order(vs);
    statuses_in_order(vs);
    copies_in_order(vs);
    writes_in_order(vs);
    awaited_places_ascend(vs);
    runs_keep_every_write_in_order(all_written(vs));
    every_run_is_one_statement(all_written(vs));
    let done = vs.filter(|v: VerdictView<W, T>| is_done(v));
    let told = vs.filter(|v: VerdictView<W, T>| is_told(v));
    let copies = vs.filter(|v: VerdictView<W, T>| sent_back(v) is Some);
    let places = t.awaiting@.map_values(|i: usize| i as int);
    assert(texts(t.success_ids@).len() == done.len());
    assert forall|k: int| 0 <= k < done.len() implies (#[trigger] t.success_ids@[k])@ == change_of(
        done[k],
    ) by {
        assert(texts(t.success_ids@)[k] == t.success_ids@[k]@);
    }
    assert(status_views(t.upload_status@).len() == told.len());
    assert forall|a: int| 0 <= a < t.awaiting@.len() implies (#[trigger] t.awaiting@[a])
        < told.len() && told[t.awaiting@[a] as int] is Write
        && told[t.awaiting@[a] as int]->number is None by {
        assert(places[a] == t.awaiting@[a] as int);
        assert(places.contains(places[a]));
    }
    assert forall|a: int, b: int| 0 <= a < b < t.awaiting@.len() implies (#[trigger] t.awaiting@[a])
        < (#[trigger] t.awaiting@[b]) by {
        assert(places[a] == t.awaiting@[a] as int);
        assert(places[b] == t.awaiting@[b] as int);
    }
    assert forall|k: int| 0 <= k < told.len() implies {
        let status = #[trigger] t.upload_status@[k];
        &&& status.id@ == change_of(told[k])
        &&& status.sync_state is Synced
        &&& match told[k] {
            VerdictView::Settle { version, .. } => status.version == version,
            VerdictView::Write { number: Some(version), .. } => status.version == version,
            _ => t.awaiting@.contains(k as usize),
        }
    } by {
        assert(status_views(t.upload_status@)[k] == t.upload_status@[k]@);
        told_are_told(vs);
        assert(is_told(told[k]));
        if told[k] is Write && told[k]->number is None {
            assert(places.contains(k));
            let a = choose|a: int| 0 <= a < places.len() && places[a] == k;
            assert(t.awaiting@[a] == k);
        }
    }
    assert(remote_views(t.remote_changes@).len() == copies.len());
    assert forall|k: int| 0 <= k < copies.len() implies {
        let sent = #[trigger] t.remote_changes@[k];
        let owed = sent_back(copies[k])->0;
        &&& sent.id@ == owed.id
        &&& sent.operation_type == owed.operation_type
        &&& sent.version == owed.version
        &&& sent.data == owed.data
    } by {
        assert(remote_views(t.remote_changes@)[k] == t.remote_changes@[k]@);
    }
    assert forall|a: int| 0 <= a < t.runs@.len() implies is_one_statement(
        (#[trigger] t.runs@[a])@,
    ) by {
        assert(run_views(t.runs@)[a] == t.runs@[a]@);
    }
}

proof fn told_are_told<W, T>(vs: Seq<VerdictView<W, T>>)
    ensures
        ({
            let told = vs.filter(|v: VerdictView<W, T>| is_told(v));
            forall|k: int| 0 <= k < told.len() ==> is_told(#[trigger] told[k])
        }),
    decreases vs.len(),
{
    reveal(Seq::filter);
    if vs.len() > 0 {
        told_are_told(vs.drop_last());
    }
}

/// Whether a statement of the tally holds a write.
pub open spec fn issues<W, T>(t: Tally<W, T>, w: W) -> bool {
    exists|a: int, b: int|
        0 <= a < t.runs@.len() && 0 <= b < t.runs@[a]@.len() && #[trigger] t.runs@[a]@[b] == w
}

proof fn ordered_writes_are_in_runs<W>(runs: Seq<Seq<W>>, w: W)
    ensures
        in_order(runs).contains(w) <==> exists|a: int, b: int|
            0 <= a < runs.len() && 0 <= b < runs[a].len() && #[trigger] runs[a][b] == w,
    decreases runs.len(),
{
    if runs.len() > 0 {
        let front = runs.drop_last();
        let most = in_order(front);
        let all = in_order(runs);
        ordered_writes_are_in_runs(front, w);
        if all.contains(w) {
            let k = choose|k: int| 0 <= k < all.len() && all[k] == w;
            if k < most.len() {
                assert(most[k] == w);
                let (a, b) = choose|a: int, b: int|
                    0 <= a < front.len() && 0 <= b < front[a].len() && #[trigger] front[a][b] == w;
                assert(runs[a][b] == w);
            } else {
                let at = runs.len() - 1;
                assert(runs[at][k - most.len()] == w);
            }
        }
        if exists|a: int, b: int|
            0 <= a < runs.len() && 0 <= b < runs[a].len() && #[trigger] runs[a][b] == w {
            let (a, b) = choose|a: int, b: int|
                0 <= a < runs.len() && 0 <= b < runs[a].len() && #[trigger] runs[a][b] == w;
            if a < front.len() {
                assert(front[a][b] == w);
                let k = choose|k: int| 0 <= k < most.len() && most[k] == w;
                assert(all[k] == w);
            } else {
                assert(all[most.len() + b] == w);
            }
        }
    }
}

proof fn written_are_of_verdicts<W, T>(vs: Seq<VerdictView<W, T>>, w: W)
    ensures
        all_written(vs).contains(w) <==> exists|i: int|
            0 <= i < vs.len() && (#[trigger] vs[i]) is Write && vs[i]->write == w,
    decreases vs.len(),
{
    if vs.len() > 0 {
        let front = vs.drop_last();
        let most = all_written(front);
        let all = all_written(vs);
        written_are_of_verdicts(front, w);
        if all.contains(w) {
            let k = choose|k: int| 0 <= k < all.len() && all[k] == w;
            if k < most.len() {
                assert(most[k] == w);
                let i = choose|i: int|
                    0 <= i < front.len() && (#[trigger] front[i]) is Write && front[i]->write == w;
                assert(vs[i] is Write);
            } else {
                assert(vs[vs.len() - 1] is Write);
            }
        }
        if exists|i: int| 0 <= i < vs.len() && (#[trigger] vs[i]) is Write && vs[i]->write == w {
            let i = choose|i: int|
                0 <= i < vs.len() && (#[trigger] vs[i]) is Write && vs[i]->write == w;
            if i < front.len() {
                assert(front[i] is Write);
                let k = choose|k: int| 0 <= k < most.len() && most[k] == w;
                assert(all[k] == w);
            } else {
                assert(all[most.len() as int] == w);
            }
        }
    }
}

/// The statements of a batch hold exactly what its changes were found to write.
pub proof fn a_batch_writes_what_its_changes_do<W: BatchWrite, T>(
    t: Tally<W, T>,
    vs: Seq<VerdictView<W, T>>,
    w: W,
)
    requires
        settles(Ok(t), vs),
    ensures
        issues(t, w) <==> exists|i: int|
            0 <= i < vs.len() && (#[trigger] vs[i]) is Write && vs[i]->write == w,
{
    let writes = all_written(vs);
    let runs = run_views(t.runs@);
    runs_keep_every_write_in_order(writes);
    ordered_writes_are_in_runs(runs, w);
    written_are_of_verdicts(vs, w);
    if issues(t, w) {
        let (a, b) = choose|a: int, b: int|
            0 <= a < t.runs@.len() && 0 <= b < t.runs@[a]@.len() && #[trigger] t.runs@[a]@[b] == w;
        assert(runs[a][b] == w);
    }
    if exists|a: int, b: int|
        0 <= a < runs.len() && 0 <= b < runs[a].len() && #[trigger] runs[a][b] == w {
        let (a, b) = choose|a: int, b: int|
            0 <= a < runs.len() && 0 <= b < runs[a].len() && #[trigger] runs[a][b] == w;
        assert(t.runs@[a]@[b] == w);
    }
}

/// A delete is reported at the version its statement gave the row, and at the first version
/// where the statement found no row to delete.
pub proof fn a_delete_is_reported_as_the_statement_left_it(
    returned: Seq<DeletedRow>,
    name: Seq<char>,
    row: Option<DeletedRow>,
)
    requires
        is_last_of(returned, |r: DeletedRow| r.name@, name, row),
    ensures
        row matches Some(r) ==> version_for(returned, name) == r.version,
        row is None ==> version_for(returned, name) == 1,
{
    a_lookup_finds_the_last_of_its_name(returned, |r: DeletedRow| r.name@, name, row);
}

/// The deletes of a run are reported in order: each at the version its row came back with, the
/// last where it came back twice, and at the first version there is where it did not.
pub proof fn each_delete_is_reported_at_the_version_it_came_back_with(
    entity: &str,
    names: &Vec<String>,
    returned: &Vec<DeletedRow>,
    versions: Vec<i32>,
    i: int,
    row: Option<DeletedRow>,
)
    requires
        call_ensures(versions_for, (entity, names, returned), versions),
        0 <= i < names@.len(),
        is_last_of(returned@, |r: DeletedRow| r.name@, names@[i]@, row),
    ensures
        versions@.len() == names@.len(),
        row matches Some(r) ==> versions@[i] == r.version,
        row is None ==> versions@[i] == 1,
{
    a_lookup_finds_the_last_of_its_name(
        returned@,
        |r: DeletedRow| r.name@,
        names@[i]@,
        row,
    );
}

} // verus!
