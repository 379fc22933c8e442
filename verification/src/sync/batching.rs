//! How consecutive writes become one statement.
//!
//! A run is the longest stretch of consecutive writes that share one kind and name distinct
//! rows. A run is issued as one statement and the next write starts a new one. Order between
//! kinds matters, and a statement that names one row twice is an error, so a change of kind
//! and a repeated row both end a run.

use vstd::hash_set::StringHashSet;
use vstd::prelude::*;

verus! {

/// A kind of write. Two writes may share a statement only if they are of one kind.
pub trait WriteKind: Sized {
    /// Whether two kinds are the same.
    fn same(&self, other: &Self) -> (s: bool)
        ensures
            s == (*self == *other),
    ;

    /// A copy of this kind.
    fn copied(&self) -> (k: Self)
        ensures
            k == *self,
    ;
}

/// Decides where one run of batchable writes ends and the next begins.
pub struct RunTracker<K> {
    kind: Option<K>,
    ids: StringHashSet,
}

impl<K> RunTracker<K> {
    /// The kind of the run being accumulated.
    pub closed spec fn run_kind(self) -> Option<K> {
        self.kind
    }

    /// The rows the run already holds.
    pub closed spec fn run_ids(self) -> Set<Seq<char>> {
        self.ids@
    }

    /// Whether a write of `kind` to row `id` has to wait for the next statement.
    pub open spec fn ends_run(self, kind: K, id: Seq<char>) -> bool {
        match self.run_kind() {
            None => false,
            Some(pending) => pending != kind || self.run_ids().contains(id),
        }
    }
}

impl<K: WriteKind> RunTracker<K> {
    /// A tracker with no run under way.
    pub fn new() -> (t: Self)
        ensures
            t.run_kind() is None,
            t.run_ids() == Set::<Seq<char>>::empty(),
    {
        RunTracker { kind: None, ids: StringHashSet::new() }
    }

    /// Whether the buffered run must be issued before `(kind, id)` may join it: it is for a
    /// different kind of write, or it already contains `id`.
    pub fn needs_flush(&self, kind: &K, id: &str) -> (b: bool)
        ensures
            b == self.ends_run(*kind, id@),
    {
        match &self.kind {
            None => false,
            Some(pending) => !pending.same(kind) || self.ids.contains(id),
        }
    }

    /// Whether the buffered run already holds a write for `id`, whatever its kind.
    pub fn contains(&self, id: &str) -> (b: bool)
        ensures
            b == self.run_ids().contains(id@),
    {
        self.ids.contains(id)
    }

    /// Notes that `(kind, id)` has been buffered into the current run.
    pub fn record(&mut self, kind: K, id: String)
        ensures
            final(self).run_kind() == Some(kind),
            final(self).run_ids() == old(self).run_ids().insert(id@),
    {
        self.kind = Some(kind);
        self.ids.insert(id);
    }

    /// Forgets the current run. Called immediately after the run is issued.
    pub fn clear(&mut self)
        ensures
            final(self).run_kind() is None,
            final(self).run_ids() == Set::<Seq<char>>::empty(),
    {
        self.kind = None;
        self.ids.clear();
    }
}

impl<K: WriteKind> Default for RunTracker<K> {
    fn default() -> (t: Self)
        ensures
            t.run_kind() is None,
            t.run_ids() == Set::<Seq<char>>::empty(),
    {
        RunTracker::new()
    }
}

/// A write that can share a statement with others of its kind.
pub trait BatchWrite: Sized {
    /// The kinds of write there are.
    type Kind: WriteKind;

    /// The kind of this write.
    spec fn kind(&self) -> Self::Kind;

    /// The rows this write touches, by the texts that name them.
    spec fn rows(&self) -> Seq<Seq<char>>;

    /// The kind of this write.
    fn kind_of(&self) -> (k: Self::Kind)
        ensures
            k == self.kind(),
    ;

    /// The rows this write touches.
    fn rows_of(&self) -> (rows: Vec<String>)
        ensures
            crate::text::texts(rows@) == self.rows(),
            rows@.len() > 0,
    ;
}

/// Whether `w` cannot join the run: it is of another kind, or touches a row the run touches.
pub open spec fn conflicts<W: BatchWrite>(run: Seq<W>, w: W) -> bool {
    run[0].kind() != w.kind() || exists|i: int, j: int|
        0 <= i < run.len() && 0 <= j < w.rows().len() && (#[trigger] run[i]).rows().contains(
            #[trigger] w.rows()[j],
        )
}

/// The runs a list of writes falls into, in order.
pub open spec fn runs_of<W: BatchWrite>(writes: Seq<W>) -> Seq<Seq<W>>
    decreases writes.len(),
{
    if writes.len() == 0 {
        seq![]
    } else {
        let runs = runs_of(writes.drop_last());
        let w = writes.last();
        if runs.len() == 0 || conflicts(runs.last(), w) {
            runs.push(seq![w])
        } else {
            runs.update(runs.len() - 1, runs.last().push(w))
        }
    }
}

/// The contents of a list of runs.
pub open spec fn run_views<W>(runs: Seq<Vec<W>>) -> Seq<Seq<W>> {
    runs.map_values(|r: Vec<W>| r@)
}

/// The rows a run touches.
pub open spec fn rows_touched<W: BatchWrite>(run: Seq<W>) -> Set<Seq<char>> {
    Set::new(|row: Seq<char>| exists|i: int| 0 <= i < run.len() && (#[trigger] run[i]).rows().contains(row))
}

/// Whether a run can be one statement: its writes are of one kind and no two of them touch
/// a common row.
pub open spec fn is_one_statement<W: BatchWrite>(run: Seq<W>) -> bool {
    &&& run.len() > 0
    &&& forall|i: int| 0 <= i < run.len() ==> (#[trigger] run[i]).kind() == run[0].kind()
    &&& forall|i: int, j: int, row: Seq<char>|
        #![trigger run[i].rows().contains(row), run[j].rows().contains(row)]
        0 <= i < j < run.len() && run[i].rows().contains(row) ==> !run[j].rows().contains(row)
}

/// The run being accumulated.
pub struct OpenRun<W: BatchWrite> {
    tracker: RunTracker<W::Kind>,
    writes: Vec<W>,
}

impl<W: BatchWrite> OpenRun<W> {
    /// The writes of the run so far.
    pub closed spec fn view(&self) -> Seq<W> {
        self.writes@
    }

    /// The run's invariant: its tracker knows its kind and rows, and it can be one statement.
    pub closed spec fn wf(self) -> bool {
        &&& self.tracker.run_kind() == (if self.writes@.len() == 0 {
            None
        } else {
            Some(self.writes@[0].kind())
        })
        &&& self.tracker.run_ids() == rows_touched(self.writes@)
        &&& self.writes@.len() == 0 || is_one_statement(self.writes@)
    }

    /// A run without writes.
    pub fn new() -> (r: Self)
        ensures
            r.wf(),
            r@ == Seq::<W>::empty(),
    {
        let r = OpenRun { tracker: RunTracker::new(), writes: Vec::new() };
        proof {
            assert(rows_touched(r.writes@) =~= Set::<Seq<char>>::empty());
        }
        r
    }

    /// Whether the run is without writes.
    pub fn is_empty(&self) -> (b: bool)
        ensures
            b == (self@.len() == 0),
    {
        self.writes.len() == 0
    }

    /// Whether a write of the run touches `row`.
    pub fn holds(&self, row: &str) -> (b: bool)
        requires
            self.wf(),
        ensures
            b == rows_touched(self@).contains(row@),
    {
        self.tracker.contains(row)
    }

    /// A run that is not empty can be issued as one statement.
    pub proof fn is_a_statement(&self)
        requires
            self.wf(),
        ensures
            self@.len() == 0 || is_one_statement(self@),
    {
    }

    /// Hands the run out, to be issued, and starts a new one.
    pub fn take(&mut self) -> (run: Vec<W>)
        requires
            old(self).wf(),
        ensures
            final(self).wf(),
            final(self)@ == Seq::<W>::empty(),
            run@ == old(self)@,
    {
        let mut run: Vec<W> = Vec::new();
        std::mem::swap(&mut run, &mut self.writes);
        self.tracker.clear();
        proof {
            assert(rows_touched(self.writes@) =~= Set::<Seq<char>>::empty());
        }
        run
    }

    /// Adds a write to the run. Where it cannot join, the run so far is handed out, to be
    /// issued, and the write starts a new one.
    pub fn join(&mut self, w: W) -> (ended: Option<Vec<W>>)
        requires
            old(self).wf(),
        ensures
            final(self).wf(),
            match ended {
                Some(run) => old(self)@.len() > 0 && conflicts(old(self)@, w) && run@ == old(
                    self,
                )@ && final(self)@ == seq![w],
                None => !(old(self)@.len() > 0 && conflicts(old(self)@, w)) && final(self)@ == old(
                    self,
                )@.push(w),
            },
    {
        let kind = w.kind_of();
        let rows = w.rows_of();
        let ghost names = w.rows();
        let ghost open0 = self.writes@;
        let mut ends = false;
        let mut i: usize = 0;
        while i < rows.len()
            invariant
                self.wf(),
                self.writes@ == open0,
                kind == w.kind(),
                names == w.rows(),
                crate::text::texts(rows@) == names,
                i <= rows.len(),
                rows.len() == names.len(),
                ends == (open0.len() > 0 && (exists|j: int|
                    0 <= j < i && (open0[0].kind() != w.kind() || rows_touched(open0).contains(
                        #[trigger] names[j],
                    )))),
            decreases rows.len() - i,
        {
            assert(names[i as int] == rows@[i as int]@);
            let ghost before = ends;
            if self.tracker.needs_flush(&kind, rows[i].as_str()) {
                ends = true;
            }
            proof {
                if ends && !before {
                    assert(open0[0].kind() != w.kind() || rows_touched(open0).contains(
                        names[i as int],
                    ));
                }
            }
            i = i + 1;
        }
        proof {
            if open0.len() > 0 {
                if conflicts(open0, w) {
                    if open0[0].kind() != w.kind() {
                        assert(names[0] == names[0]);
                    } else {
                        let (a, j) = choose|a: int, j: int|
                            0 <= a < open0.len() && 0 <= j < w.rows().len() && (
                            #[trigger] open0[a]).rows().contains(#[trigger] w.rows()[j]);
                        assert(rows_touched(open0).contains(names[j]));
                    }
                    assert(ends);
                }
                if ends && open0[0].kind() == w.kind() {
                    let j = choose|j: int|
                        0 <= j < names.len() && rows_touched(open0).contains(#[trigger] names[j]);
                    let a = choose|a: int|
                        0 <= a < open0.len() && (#[trigger] open0[a]).rows().contains(names[j]);
                    assert(open0[a].rows().contains(w.rows()[j]));
                    assert(conflicts(open0, w));
                }
            }
        }
        let ended: Option<Vec<W>> = if ends {
            Some(self.take())
        } else {
            None
        };
        let ghost open1 = self.writes@;
        let mut i: usize = 0;
        while i < rows.len()
            invariant
                self.writes@ == open1,
                names == w.rows(),
                crate::text::texts(rows@) == names,
                rows.len() == names.len(),
                kind == w.kind(),
                i <= rows.len(),
                i > 0 ==> self.tracker.run_kind() == Some(kind),
                self.tracker.run_ids() == rows_touched(open1).union(
                    Set::new(|row: Seq<char>| names.take(i as int).contains(row)),
                ),
            decreases rows.len() - i,
        {
            let id = rows[i].clone();
            self.tracker.record(kind.copied(), id);
            proof {
                let seen0 = names.take(i as int);
                let seen1 = names.take(i + 1);
                assert(names[i as int] == rows@[i as int]@);
                assert(seen1 =~= seen0.push(names[i as int]));
                assert forall|row: Seq<char>| seen1.contains(row) implies seen0.contains(row) || row
                    == names[i as int] by {
                    let k = choose|k: int| 0 <= k < seen1.len() && seen1[k] == row;
                    if k < i {
                        assert(seen0[k] == row);
                    }
                }
                assert forall|row: Seq<char>| seen0.contains(row) || row == names[i as int] implies
                    seen1.contains(row) by {
                    if seen0.contains(row) {
                        let k = choose|k: int| 0 <= k < seen0.len() && seen0[k] == row;
                        assert(seen1[k] == row);
                    } else {
                        assert(seen1[i as int] == row);
                    }
                }
                assert(self.tracker.run_ids() =~= rows_touched(open1).union(
                    Set::new(|row: Seq<char>| seen1.contains(row)),
                ));
            }
            i = i + 1;
        }
        self.writes.push(w);
        proof {
            let open2 = self.writes@;
            assert forall|row: Seq<char>|
                #![trigger self.tracker.run_ids().contains(row)]
                self.tracker.run_ids().contains(row) == rows_touched(open2).contains(row) by {
                assert(names.take(i as int) == names);
                assert(self.tracker.run_ids().contains(row) == (rows_touched(open1).contains(row)
                    || names.contains(row)));
                if rows_touched(open1).contains(row) {
                    let a = choose|a: int|
                        0 <= a < open1.len() && (#[trigger] open1[a]).rows().contains(row);
                    assert(open2[a].rows().contains(row));
                } else if names.contains(row) {
                    assert(open2[open1.len() as int].rows().contains(row));
                }
                if rows_touched(open2).contains(row) {
                    let a = choose|a: int|
                        0 <= a < open2.len() && (#[trigger] open2[a]).rows().contains(row);
                    if a < open1.len() {
                        assert(open1[a].rows().contains(row));
                    }
                }
            }
            assert(self.tracker.run_ids() =~= rows_touched(open2));
            if open1.len() > 0 {
                longer_run_is_one_statement(open1, w);
            } else {
                assert(open2 =~= seq![w]);
            }
        }
        ended
    }
}

/// A run stays one statement when a write joins it that does not conflict with it.
pub proof fn longer_run_is_one_statement<W: BatchWrite>(run: Seq<W>, w: W)
    requires
        is_one_statement(run),
        !conflicts(run, w),
    ensures
        is_one_statement(run.push(w)),
{
    let longer = run.push(w);
    assert forall|i: int, j: int, row: Seq<char>|
        #![trigger longer[i].rows().contains(row), longer[j].rows().contains(row)]
        0 <= i < j < longer.len() && longer[i].rows().contains(row) implies !longer[j].rows().contains(
        row,
    ) by {
        assert(longer[i] == run[i]);
        if j == run.len() {
            assert(longer[j] == w);
            if w.rows().contains(row) {
                let k = choose|k: int| 0 <= k < w.rows().len() && w.rows()[k] == row;
                assert(run[i].rows().contains(w.rows()[k]));
            }
        } else {
            assert(longer[j] == run[j]);
        }
    }
    assert forall|i: int| 0 <= i < longer.len() implies (#[trigger] longer[i]).kind()
        == longer[0].kind() by {
        if i < run.len() {
            assert(longer[i] == run[i]);
        }
    }
}

/// Collects writes into runs.
pub struct RunBatcher<W: BatchWrite> {
    closed: Vec<Vec<W>>,
    open: OpenRun<W>,
    added: Ghost<Seq<W>>,
}

impl<W: BatchWrite> RunBatcher<W> {
    /// The writes added so far, in order.
    pub closed spec fn writes(self) -> Seq<W> {
        self.added@
    }

    /// The runs as they stand: the closed ones, then the open one.
    closed spec fn runs(self) -> Seq<Seq<W>> {
        if self.open@.len() == 0 {
            run_views(self.closed@)
        } else {
            run_views(self.closed@).push(self.open@)
        }
    }

    /// The batcher's invariant: its runs are those its writes fall into.
    pub closed spec fn wf(self) -> bool {
        &&& self.open.wf()
        &&& self.runs() == runs_of(self.added@)
        &&& self.open@.len() == 0 ==> self.closed@.len() == 0
    }

    /// A batcher without writes.
    pub fn new() -> (b: Self)
        ensures
            b.wf(),
            b.writes() == Seq::<W>::empty(),
    {
        let b = RunBatcher { closed: Vec::new(), open: OpenRun::new(), added: Ghost(Seq::empty()) };
        assert(run_views(b.closed@) =~= Seq::<Seq<W>>::empty());
        b
    }

    /// Adds one write, ending the open run first where it cannot join it.
    pub fn add(&mut self, w: W)
        requires
            old(self).wf(),
        ensures
            final(self).wf(),
            final(self).writes() == old(self).writes().push(w),
    {
        let ghost open0 = self.open@;
        let ghost closed0 = self.closed@;
        let ghost added0 = self.added@;
        let ended = self.open.join(w);
        if let Some(run) = ended {
            self.closed.push(run);
            assert(run_views(self.closed@) =~= run_views(closed0).push(open0));
        }
        self.added = Ghost(added0.push(w));
        proof {
            assert(added0.push(w).drop_last() =~= added0);
            let runs0 = runs_of(added0);
            if open0.len() == 0 || conflicts(open0, w) {
                assert(self.open@ =~= seq![w]);
                assert(self.runs() =~= runs0.push(seq![w]));
            } else {
                assert(runs0.last() == open0);
                assert(self.runs() =~= runs0.update(runs0.len() - 1, open0.push(w)));
            }
        }
    }

    /// The runs the added writes fall into.
    pub fn into_runs(self) -> (runs: Vec<Vec<W>>)
        requires
            self.wf(),
        ensures
            run_views(runs@) == runs_of(self.writes()),
    {
        let mut runs = self.closed;
        let mut open = self.open;
        if !open.is_empty() {
            let ghost before = runs@;
            let last = open.take();
            runs.push(last);
            assert(run_views(runs@) =~= run_views(before).push(self.open@));
        }
        runs
    }
}

/// The writes of all runs, one run after the other.
pub open spec fn in_order<W>(runs: Seq<Seq<W>>) -> Seq<W>
    decreases runs.len(),
{
    if runs.len() == 0 {
        seq![]
    } else {
        in_order(runs.drop_last()) + runs.last()
    }
}

/// Batching changes how many statements are issued, not what they do or in which order: the
/// runs hold exactly the writes, in the order they arrived.
pub proof fn runs_keep_every_write_in_order<W: BatchWrite>(writes: Seq<W>)
    ensures
        in_order(runs_of(writes)) == writes,
    decreases writes.len(),
{
    if writes.len() > 0 {
        let front = writes.drop_last();
        let w = writes.last();
        runs_keep_every_write_in_order(front);
        let runs = runs_of(front);
        if runs.len() == 0 || conflicts(runs.last(), w) {
            assert(runs.push(seq![w]).drop_last() =~= runs);
            assert(in_order(runs.push(seq![w])) =~= front.push(w));
        } else {
            let longer = runs.update(runs.len() - 1, runs.last().push(w));
            assert(longer.drop_last() =~= runs.drop_last());
            assert(longer.last() == runs.last().push(w));
            assert(in_order(longer) =~= in_order(runs).push(w));
        }
        assert(front.push(w) =~= writes);
    } else {
        assert(in_order(runs_of(writes)) =~= writes);
    }
}

/// Every run is one statement: one kind of write, and no row named twice.
pub proof fn every_run_is_one_statement<W: BatchWrite>(writes: Seq<W>)
    ensures
        forall|r: int| 0 <= r < runs_of(writes).len() ==> is_one_statement(#[trigger] runs_of(writes)[r]),
    decreases writes.len(),
{
    if writes.len() > 0 {
        let front = writes.drop_last();
        let w = writes.last();
        every_run_is_one_statement(front);
        let runs = runs_of(front);
        let all = runs_of(writes);
        if runs.len() == 0 || conflicts(runs.last(), w) {
            assert(all == runs.push(seq![w]));
            assert(is_one_statement(seq![w]));
        } else {
            let last = runs.last();
            let longer = last.push(w);
            assert(is_one_statement(runs[runs.len() - 1]));
            longer_run_is_one_statement(last, w);
        }
        assert forall|r: int| 0 <= r < all.len() implies is_one_statement(#[trigger] all[r]) by {
            if r < runs.len() - 1 {
                assert(all[r] == runs[r]);
            } else if r < runs.len() && all.len() > runs.len() {
                assert(all[r] == runs[r]);
            }
        }
    }
}

/// A run ends only where it has to: the first write of each later run could not have joined
/// the run before it.
pub proof fn runs_end_only_at_conflicts<W: BatchWrite>(writes: Seq<W>)
    ensures
        forall|r: int|
            0 < r < runs_of(writes).len() ==> conflicts(
                runs_of(writes)[r - 1],
                (#[trigger] runs_of(writes)[r])[0],
            ),
    decreases writes.len(),
{
    if writes.len() > 0 {
        let front = writes.drop_last();
        let w = writes.last();
        runs_end_only_at_conflicts(front);
        every_run_is_one_statement(front);
        let runs = runs_of(front);
        let all = runs_of(writes);
        assert forall|r: int| 0 < r < all.len() implies conflicts(
            all[r - 1],
            (#[trigger] all[r])[0],
        ) by {
            if runs.len() == 0 || conflicts(runs.last(), w) {
                if r < runs.len() {
                    assert(all[r] == runs[r]);
                    assert(all[r - 1] == runs[r - 1]);
                }
            } else {
                assert(is_one_statement(runs[runs.len() - 1]));
                assert(all[r][0] == runs[r][0]);
                assert(all[r - 1] == runs[r - 1]);
            }
        }
    }
}

/// Two writes share a statement exactly if they are of one kind and touch no common row.
pub proof fn two_writes_share_a_statement_if_they_can<W: BatchWrite>(one: W, other: W)
    ensures
        ({
            let together = one.kind() == other.kind() && forall|row: Seq<char>|
                !(#[trigger] one.rows().contains(row) && other.rows().contains(row));
            let runs = runs_of(seq![one, other]);
            &&& together ==> runs == seq![seq![one, other]]
            &&& !together ==> runs == seq![seq![one], seq![other]]
        }),
{
    let both = seq![one, other];
    assert(both.drop_last() =~= seq![one]);
    assert(seq![one].drop_last() =~= Seq::<W>::empty());
    assert(runs_of(Seq::<W>::empty()) =~= Seq::<Seq<W>>::empty());
    assert(runs_of(seq![one]) =~= seq![seq![one]]);
    assert(both.last() == other);
    let run = seq![one];
    if conflicts(run, other) {
        if one.kind() == other.kind() {
            let (i, j) = choose|i: int, j: int|
                0 <= i < run.len() && 0 <= j < other.rows().len() && (
                #[trigger] run[i]).rows().contains(#[trigger] other.rows()[j]);
            assert(one.rows().contains(other.rows()[j]));
        }
        assert(runs_of(both) =~= seq![seq![one], seq![other]]);
    } else {
        assert forall|row: Seq<char>| !(#[trigger] one.rows().contains(row)
            && other.rows().contains(row)) by {
            if one.rows().contains(row) && other.rows().contains(row) {
                let j = choose|j: int| 0 <= j < other.rows().len() && other.rows()[j] == row;
                assert(run[0].rows().contains(other.rows()[j]));
            }
        }
        assert(seq![one].push(other) =~= both);
        assert(runs_of(both) =~= seq![both]);
    }
}

/// A statement ends only where it has to: the write after it is of another kind, or touches a
/// row that it touches.
pub proof fn a_statement_ends_only_where_it_has_to<W: BatchWrite>(writes: Seq<W>, r: int)
    requires
        0 < r < runs_of(writes).len(),
    ensures
        ({
            let run = runs_of(writes)[r - 1];
            let next = runs_of(writes)[r][0];
            run[0].kind() != next.kind() || exists|i: int, row: Seq<char>|
                0 <= i < run.len() && #[trigger] run[i].rows().contains(row)
                    && next.rows().contains(row)
        }),
{
    runs_end_only_at_conflicts(writes);
    let run = runs_of(writes)[r - 1];
    let next = runs_of(writes)[r][0];
    assert(conflicts(run, next));
    if run[0].kind() == next.kind() {
        let (i, j) = choose|i: int, j: int|
            0 <= i < run.len() && 0 <= j < next.rows().len() && (#[trigger] run[i]).rows().contains(
                #[trigger] next.rows()[j],
            );
        assert(run[i].rows().contains(next.rows()[j]));
        assert(next.rows().contains(next.rows()[j]));
    }
}

} // verus!
