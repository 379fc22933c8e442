//! What a client has no say in: over rows that stand already, the version and the clock it
//! sends decide nothing of an upload, and every row written carries the server's clock.

use crate::error::ErrorView;
use crate::ids::Uuid;
use crate::sync::batching::{conflicts, rows_touched, BatchWrite};
use crate::sync::config::cache::CacheView;
use crate::sync::config::processor::{at_the_start, handed_out, storing};
use crate::sync::config::upload::{
    entry_of_change, is_entry_of_item, step, ActionView, ConfigAct, ConfigBroadcast,
    ConfigContext, ConfigEntry, ConfigEvent, ConfigStore, ConfigValue, ConfigWrite, Progress,
    StepView,
};
use crate::sync::request::{ConfigChangeDelta, ConfigData, ConfigSyncItem};
use crate::sync::types::Payload;
use vstd::prelude::*;

verus! {

/// Whether two configs to store differ in the client's version and clock at most.
pub open spec fn alike_values(a: ConfigValue, b: ConfigValue) -> bool {
    a.key == b.key && a.value == b.value && a.is_deleted == b.is_deleted
}

/// Whether two entries differ in the client's version and clock at most.
pub open spec fn alike_entries(a: ConfigEntry, b: ConfigEntry) -> bool {
    &&& a.id == b.id
    &&& a.name@ == b.name@
    &&& a.device == b.device
    &&& match (a.act, b.act) {
        (ConfigAct::Store(v), ConfigAct::Store(w)) => alike_values(v, w),
        (act, other) => act == other,
    }
}

/// Whether two uploads differ in the client's versions and clocks at most.
pub open spec fn alike_uploads(a: Seq<ConfigEntry>, b: Seq<ConfigEntry>) -> bool {
    &&& a.len() == b.len()
    &&& forall|i: int| 0 <= i < a.len() ==> alike_entries(#[trigger] a[i], b[i])
}

/// Whether two rows as a write leaves them are the same but for the client's claim of when it
/// changed them, which is kept beside the row and compared with nothing.
pub open spec fn alike_rows(a: ConfigStore, b: ConfigStore) -> bool {
    b == (ConfigStore { client_last_modified: b.client_last_modified, ..a })
}

/// Whether two writes are the same but for the client's claims.
pub open spec fn alike_writes(a: ConfigWrite, b: ConfigWrite) -> bool {
    match (a, b) {
        (ConfigWrite::Insert(x), ConfigWrite::Insert(y)) => alike_rows(x, y),
        (
            ConfigWrite::Update { row: x, old_key: k },
            ConfigWrite::Update { row: y, old_key: l },
        ) => k == l && alike_rows(x, y),
        _ => a == b,
    }
}

/// Whether two lists of writes are the same but for the client's claims.
pub open spec fn alike_runs(a: Seq<ConfigWrite>, b: Seq<ConfigWrite>) -> bool {
    &&& a.len() == b.len()
    &&& forall|i: int| 0 <= i < a.len() ==> alike_writes(#[trigger] a[i], b[i])
}

/// Whether two things to do are the same but for the client's claims.
pub open spec fn alike_actions(a: ActionView, b: ActionView) -> bool {
    match (a, b) {
        (ActionView::Issue(x), ActionView::Issue(y)) => alike_runs(x, y),
        (
            ActionView::Rename { first: x, rename: r },
            ActionView::Rename { first: y, rename: s },
        ) => alike_runs(x, y) && r.from == s.from && alike_rows(r.row, s.row),
        _ => a == b,
    }
}

/// Whether two uploads have come equally far, with the same report, and with the same writes
/// buffered but for the client's claims.
pub open spec fn alike_progress(a: Progress, b: Progress) -> bool {
    b == (Progress { run: b.run, ..a }) && alike_runs(a.run, b.run)
}

/// Whether two steps come out alike: refused in the same words, or taken with the same things
/// to do, to report and to announce.
pub open spec fn alike_steps(a: StepView, b: StepView) -> bool {
    match (a, b) {
        (
            StepView::Taken { next: p, action: x, announce: m },
            StepView::Taken { next: q, action: y, announce: n },
        ) => alike_progress(p, q) && alike_actions(x, y) && m == n,
        (StepView::Refused(x), StepView::Refused(y)) => x == y,
        _ => false,
    }
}

/// Whether what a step stores, if it stores anything, lands on a row that stands.
pub open spec fn lands_on_a_standing_row(
    cx: ConfigContext,
    entries: Seq<ConfigEntry>,
    p: Progress,
    event: ConfigEvent,
) -> bool {
    p.at < entries.len() ==> (storing(cx, entries, p, event) matches Some((_, _, facts))
        ==> facts.existing is Some)
}

proof fn alike_writes_touch_the_same(a: ConfigWrite, b: ConfigWrite)
    requires
        alike_writes(a, b),
    ensures
        a.kind() == b.kind(),
        a.rows() == b.rows(),
{
}

proof fn alike_runs_touch_the_same(a: Seq<ConfigWrite>, b: Seq<ConfigWrite>)
    requires
        alike_runs(a, b),
    ensures
        rows_touched(a) == rows_touched(b),
{
    assert forall|row: Seq<char>| rows_touched(a).contains(row) <==> rows_touched(b).contains(
        row,
    ) by {
        if rows_touched(a).contains(row) {
            let i = choose|i: int| 0 <= i < a.len() && (#[trigger] a[i]).rows().contains(row);
            alike_writes_touch_the_same(a[i], b[i]);
            assert(b[i].rows().contains(row));
        }
        if rows_touched(b).contains(row) {
            let i = choose|i: int| 0 <= i < b.len() && (#[trigger] b[i]).rows().contains(row);
            alike_writes_touch_the_same(a[i], b[i]);
            assert(a[i].rows().contains(row));
        }
    }
    assert(rows_touched(a) =~= rows_touched(b));
}

proof fn alike_runs_clash_alike(
    a: Seq<ConfigWrite>,
    b: Seq<ConfigWrite>,
    w: ConfigWrite,
    x: ConfigWrite,
)
    requires
        alike_runs(a, b),
        alike_writes(w, x),
        a.len() > 0,
    ensures
        conflicts(a, w) == conflicts(b, x),
{
    alike_writes_touch_the_same(a[0], b[0]);
    alike_writes_touch_the_same(w, x);
    assert forall|i: int| 0 <= i < a.len() implies (#[trigger] a[i]).rows() == b[i].rows() by {
        alike_writes_touch_the_same(a[i], b[i]);
    }
    if conflicts(a, w) && a[0].kind() == w.kind() {
        let (i, j) = choose|i: int, j: int|
            0 <= i < a.len() && 0 <= j < w.rows().len() && (#[trigger] a[i]).rows().contains(
                #[trigger] w.rows()[j],
            );
        assert(b[i].rows().contains(x.rows()[j]));
    }
    if conflicts(b, x) && b[0].kind() == x.kind() {
        let (i, j) = choose|i: int, j: int|
            0 <= i < b.len() && 0 <= j < x.rows().len() && (#[trigger] b[i]).rows().contains(
                #[trigger] x.rows()[j],
            );
        assert(a[i].rows().contains(w.rows()[j]));
    }
}

proof fn alike_runs_join_alike(p: Progress, q: Progress, w: ConfigWrite, x: ConfigWrite)
    requires
        alike_runs(p.run, q.run),
        alike_writes(w, x),
    ensures
        p.ends(w) == q.ends(x),
        alike_runs(p.joined(w).run, q.joined(x).run),
        alike_actions(p.joining(w), q.joining(x)),
{
    if p.run.len() > 0 {
        alike_runs_clash_alike(p.run, q.run, w, x);
    }
}

/// One step takes no notice of the client's version and clock where what it stores lands on
/// a row that stands.
pub proof fn a_step_ignores_the_clients_version_and_clock(
    cx: ConfigContext,
    a: Seq<ConfigEntry>,
    b: Seq<ConfigEntry>,
    registered: Set<u128>,
    p: Progress,
    q: Progress,
    event: ConfigEvent,
    fresh: Uuid,
)
    requires
        alike_uploads(a, b),
        alike_progress(p, q),
        p.at >= 0,
        lands_on_a_standing_row(cx, a, p, event),
    ensures
        alike_steps(
            step(cx, a, registered, p, event, fresh),
            step(cx, b, registered, q, event, fresh),
        ),
        step(cx, a, registered, p, event, fresh) matches StepView::Taken { next, .. } ==> next.at
            >= 0,
{
    alike_runs_touch_the_same(p.run, q.run);
    if p.at < a.len() {
        assert(alike_entries(a[p.at], b[p.at]));
    }
    assert forall|w: ConfigWrite, x: ConfigWrite|
        #![trigger p.joining(w), q.joining(x)]
        alike_writes(w, x) implies p.ends(w) == q.ends(x) && alike_runs(
        p.joined(w).run,
        q.joined(x).run,
    ) && alike_actions(p.joining(w), q.joining(x)) by {
        alike_runs_join_alike(p, q, w, x);
    }
}

/// What came of the steps an upload has been driven through.
#[verifier::ext_equal]
pub enum Driven {
    Refused(ErrorView),
    Reached {
        at: Progress,
        /// What each step asked for.
        actions: Seq<ActionView>,
        /// What each step had announced.
        announced: Seq<Option<ConfigBroadcast>>,
    },
}

/// An upload driven through what came back, step by step, with the id a new row may take at
/// each. It stops where it is refused.
pub open spec fn driven(
    cx: ConfigContext,
    entries: Seq<ConfigEntry>,
    registered: Set<u128>,
    cache: CacheView,
    events: Seq<(ConfigEvent, Uuid)>,
) -> Driven
    decreases events.len(),
{
    if events.len() == 0 {
        Driven::Reached { at: at_the_start(cache), actions: seq![], announced: seq![] }
    } else {
        let (event, fresh) = events.last();
        match driven(cx, entries, registered, cache, events.drop_last()) {
            Driven::Refused(refusal) => Driven::Refused(refusal),
            Driven::Reached { at, actions, announced } => match step(
                cx,
                entries,
                registered,
                at,
                event,
                fresh,
            ) {
                StepView::Refused(refusal) => Driven::Refused(refusal),
                StepView::Taken { next, action, announce } => Driven::Reached {
                    at: next,
                    actions: actions.push(action),
                    announced: announced.push(announce),
                },
            },
        }
    }
}

/// Whether everything an upload stores on its way lands on a row that stands.
pub open spec fn lands_on_standing_rows(
    cx: ConfigContext,
    entries: Seq<ConfigEntry>,
    registered: Set<u128>,
    cache: CacheView,
    events: Seq<(ConfigEvent, Uuid)>,
) -> bool
    decreases events.len(),
{
    events.len() > 0 ==> {
        &&& lands_on_standing_rows(cx, entries, registered, cache, events.drop_last())
        &&& driven(cx, entries, registered, cache, events.drop_last()) matches Driven::Reached {
            at,
            ..
        } ==> lands_on_a_standing_row(cx, entries, at, events.last().0)
    }
}

/// Whether two uploads came out alike: refused in the same words, or with the same writes
/// issued in the same order but for the client's claims, the same announcements made, and the
/// same report.
pub open spec fn alike_outcomes(a: Driven, b: Driven) -> bool {
    match (a, b) {
        (
            Driven::Reached { at: p, actions: x, announced: m },
            Driven::Reached { at: q, actions: y, announced: n },
        ) => {
            &&& alike_progress(p, q)
            &&& x.len() == y.len()
            &&& forall|i: int| 0 <= i < x.len() ==> alike_actions(#[trigger] x[i], y[i])
            &&& m == n
        },
        (Driven::Refused(x), Driven::Refused(y)) => x == y,
        _ => false,
    }
}

proof fn alike_all_the_way(
    cx: ConfigContext,
    a: Seq<ConfigEntry>,
    b: Seq<ConfigEntry>,
    registered: Set<u128>,
    cache: CacheView,
    events: Seq<(ConfigEvent, Uuid)>,
)
    requires
        alike_uploads(a, b),
        lands_on_standing_rows(cx, a, registered, cache, events),
    ensures
        alike_outcomes(
            driven(cx, a, registered, cache, events),
            driven(cx, b, registered, cache, events),
        ),
        driven(cx, a, registered, cache, events) matches Driven::Reached { at, .. } ==> at.at >= 0,
    decreases events.len(),
{
    if events.len() > 0 {
        let front = events.drop_last();
        let (event, fresh) = events.last();
        alike_all_the_way(cx, a, b, registered, cache, front);
        if let Driven::Reached { at: p, actions: x, announced: m } = driven(
            cx,
            a,
            registered,
            cache,
            front,
        ) {
            if let Driven::Reached { at: q, actions: y, announced: n } = driven(
                cx,
                b,
                registered,
                cache,
                front,
            ) {
                a_step_ignores_the_clients_version_and_clock(
                    cx,
                    a,
                    b,
                    registered,
                    p,
                    q,
                    event,
                    fresh,
                );
            }
        }
    }
}

/// Over a whole upload onto rows that stand, the client's version and clock decide nothing:
/// two uploads that differ in them alone are refused in the same words, or issue the same
/// writes, announce the same, and report the same. What differs is the claim kept beside a
/// row.
pub proof fn an_upload_ignores_the_clients_version_and_clock(
    cx: ConfigContext,
    a: Seq<ConfigEntry>,
    b: Seq<ConfigEntry>,
    registered: Set<u128>,
    cache: CacheView,
    events: Seq<(ConfigEvent, Uuid)>,
)
    requires
        alike_uploads(a, b),
        lands_on_standing_rows(cx, a, registered, cache, events),
    ensures
        alike_outcomes(
            driven(cx, a, registered, cache, events),
            driven(cx, b, registered, cache, events),
        ),
{
    alike_all_the_way(cx, a, b, registered, cache, events);
}

/// Whether two items of the flat list differ in the client's version and clock at most.
pub open spec fn alike_items(a: ConfigSyncItem, b: ConfigSyncItem) -> bool {
    b == (ConfigSyncItem { version: b.version, last_modified: b.last_modified, ..a })
}

/// Items that differ in the client's version and clock alone ask for the same, but for these.
pub proof fn alike_items_are_alike_entries(
    a: ConfigSyncItem,
    b: ConfigSyncItem,
    e: ConfigEntry,
    f: ConfigEntry,
)
    requires
        alike_items(a, b),
        is_entry_of_item(e, a),
        is_entry_of_item(f, b),
    ensures
        alike_entries(e, f),
{
}

/// Whether two changes differ in the client's version and clock at most.
pub open spec fn alike_changes(a: ConfigChangeDelta, b: ConfigChangeDelta) -> bool {
    &&& a.id == b.id
    &&& a.operation_type == b.operation_type
    &&& a.device_uuid == b.device_uuid
    &&& match (a.data, b.data) {
        (Payload::Item(x), Payload::Item(y)) => y == (ConfigData {
            version: y.version,
            last_modified: y.last_modified,
            ..x
        }),
        (x, y) => x == y,
    }
}

/// Changes that differ in the client's version and clock alone ask for the same, but for
/// these.
pub proof fn alike_changes_are_alike_entries(a: ConfigChangeDelta, b: ConfigChangeDelta)
    requires
        alike_changes(a, b),
    ensures
        alike_entries(entry_of_change(a), entry_of_change(b)),
{
}

/// The clock reading a write leaves on its row.
pub open spec fn clock_of(w: ConfigWrite) -> i64 {
    match w {
        ConfigWrite::Insert(row) => row.last_modified,
        ConfigWrite::Update { row, .. } => row.last_modified,
        ConfigWrite::Delete { last_modified, .. } => last_modified,
    }
}

/// Whether writes carry the server's clock reading.
pub open spec fn on_the_servers_clock(cx: ConfigContext, run: Seq<ConfigWrite>) -> bool {
    forall|i: int| 0 <= i < run.len() ==> clock_of(#[trigger] run[i]) == cx.server_ms
}

/// Every row an upload writes carries the server's clock: what a step hands out, renames,
/// announces or keeps buffered, given that what it found buffered did. An upload begins with
/// nothing buffered.
pub proof fn a_written_config_carries_the_servers_clock(
    cx: ConfigContext,
    entries: Seq<ConfigEntry>,
    registered: Set<u128>,
    p: Progress,
    event: ConfigEvent,
    fresh: Uuid,
)
    requires
        on_the_servers_clock(cx, p.run),
    ensures
        step(cx, entries, registered, p, event, fresh) matches StepView::Taken {
            next,
            action,
            announce,
        } ==> {
            &&& on_the_servers_clock(cx, handed_out(action))
            &&& on_the_servers_clock(cx, next.run)
            &&& action matches ActionView::Rename { rename, .. } ==> rename.row.last_modified
                == cx.server_ms
            &&& announce matches Some(said) ==> said.item.last_modified == cx.server_ms
        },
        forall|cache: CacheView| on_the_servers_clock(cx, (#[trigger] at_the_start(cache)).run),
{
}

} // verus!
