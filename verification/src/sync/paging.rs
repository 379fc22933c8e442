//! Bounding one download, and telling the client where to pick the next one up.
//!
//! A client's cursor is a millisecond and every download reads strictly after it. Rows
//! written by one request share one millisecond, so a page has to end on a whole one: a page
//! that ended halfway through would leave the rest of it unreachable.

use crate::instant::{from_timestamp_micros, instant_at_micros, Instant};
use vstd::prelude::*;

verus! {

/// What a probe page turned out to be.
#[derive(Debug, Clone, Copy, PartialEq, Eq, Structural)]
pub enum Page {
    /// Everything matching the filter fitted.
    Complete,
    /// The page was cut short. The client's next cursor is this millisecond.
    Truncated { next_cursor_ms: i64 },
    /// More than a page of rows carry one and the same millisecond. The caller must read
    /// that millisecond in full and stop there.
    WholeMillisecond { ms: i64 },
}

/// The limit one download read asks for.
pub open spec fn limit_of(page_size: Option<usize>) -> int {
    match page_size {
        Some(n) => if n < i64::MAX {
            n + 1
        } else {
            i64::MAX as int
        },
        None => i64::MAX as int,
    }
}

/// The limit one download read asks for: one row past the page, as a probe, or everything
/// for a client that cannot resume.
pub fn probe_limit(page_size: Option<usize>) -> (limit: i64)
    ensures
        limit == limit_of(page_size),
        limit > 0,
{
    match page_size {
        Some(n) => {
            let n: u64 = n as u64;
            if n < 0x7fff_ffff_ffff_ffff {
                (n + 1) as i64
            } else {
                0x7fff_ffff_ffff_ffff
            }
        },
        None => 0x7fff_ffff_ffff_ffff,
    }
}

/// The page size to trim to, given the same bound.
pub fn trim_size(page_size: Option<usize>) -> (size: usize)
    ensures
        size == (match page_size {
            Some(n) => n,
            None => usize::MAX,
        }),
{
    match page_size {
        Some(n) => n,
        None => usize::MAX,
    }
}

/// What trimming `before` to `page_size` leaves and reports: everything if it fits, and
/// otherwise the rows in front of the last stretch that reaches the first row that did not
/// fit.
pub open spec fn trims<T, F: Fn(&T) -> i64>(
    before: Seq<T>,
    after: Seq<T>,
    page_size: usize,
    key: F,
    page: Page,
) -> bool {
    match page {
        Page::Complete => before.len() <= page_size && after == before,
        Page::Truncated { next_cursor_ms } => {
            &&& before.len() > page_size
            &&& 0 < after.len() <= page_size
            &&& after == before.take(after.len() as int)
            &&& key.ensures((&after.last(),), next_cursor_ms)
            &&& exists|edge: i64| #[trigger] key.ensures((&before[page_size as int],), edge)
                && next_cursor_ms < edge && forall|i: int|
                after.len() <= i < page_size ==> reaches(key, #[trigger] before[i], edge)
        },
        Page::WholeMillisecond { ms } => {
            &&& before.len() > page_size
            &&& after.len() == 0
            &&& key.ensures((&before[page_size as int],), ms)
            &&& forall|i: int|
                0 <= i < page_size ==> reaches(key, #[trigger] before[i], ms)
        },
    }
}

/// Whether a row's key is at or past `edge`.
pub open spec fn reaches<T, F: Fn(&T) -> i64>(key: F, row: T, edge: i64) -> bool {
    exists|k: i64| #[trigger] key.ensures((&row,), k) && k >= edge
}

/// Trims a probe page in place so that it ends on a whole millisecond. `rows` are in
/// ascending order of `last_modified` and were read with a limit of `page_size + 1`.
pub fn trim_page<T, F: Fn(&T) -> i64>(
    rows: &mut Vec<T>,
    page_size: usize,
    last_modified: F,
) -> (page: Page)
    requires
        forall|row: &T| #[trigger] last_modified.requires((row,)),
    ensures
        trims(old(rows)@, final(rows)@, page_size, last_modified, page),
{
    let ghost before = rows@;
    if rows.len() <= page_size {
        return Page::Complete;
    }
    let boundary: i64 = last_modified(&rows[page_size]);
    rows.truncate(page_size);
    while rows.len() > 0
        invariant
            forall|row: &T| #[trigger] last_modified.requires((row,)),
            before == old(rows)@,
            before.len() > page_size,
            rows@.len() <= page_size,
            rows@ == before.take(rows@.len() as int),
            last_modified.ensures((&before[page_size as int],), boundary),
            forall|i: int|
                rows@.len() <= i < page_size ==> reaches(
                    last_modified,
                    #[trigger] before[i],
                    boundary,
                ),
        decreases rows.len(),
    {
        let last: usize = rows.len() - 1;
        let ms: i64 = last_modified(&rows[last]);
        if ms < boundary {
            assert(rows@.last() == rows@[last as int]);
            return Page::Truncated { next_cursor_ms: ms };
        }
        assert(reaches(last_modified, before[last as int], boundary));
        rows.pop();
        assert(rows@ =~= before.take(last as int));
    }
    Page::WholeMillisecond { ms: boundary }
}

/// [`Page`] for rows whose cursor is an instant.
#[derive(Debug, Clone, Copy, PartialEq, Eq, Structural)]
pub enum PageAt {
    /// Everything matching the filter fitted.
    Complete,
    /// The page was cut short; this is the last instant it delivered whole.
    Truncated { next_cursor: Instant },
    /// More than a page of rows share this one instant.
    WholeInstant { at: Instant },
}

/// A row's instant in microseconds, as the page is cut by.
pub open spec fn micros_key<T, F: Fn(&T) -> Instant>(key: F, row: T, us: int) -> bool {
    exists|at: Instant| #[trigger] key.ensures((&row,), at) && at.spec_micros() == us
}

/// Whether a row's instant is at or past `edge` microseconds.
pub open spec fn micros_reach<T, F: Fn(&T) -> Instant>(key: F, row: T, edge: int) -> bool {
    exists|us: int| #[trigger] micros_key(key, row, us) && us >= edge
}

/// The instant a microsecond count is reported as: the instant it names, or else `fallback`.
pub open spec fn reported_instant(us: int, fallback: Instant) -> Instant {
    match instant_at_micros(us) {
        Some(at) => at,
        None => fallback,
    }
}

/// What trimming a page by instants leaves and reports.
pub open spec fn trims_at<T, F: Fn(&T) -> Instant>(
    before: Seq<T>,
    after: Seq<T>,
    page_size: usize,
    key: F,
    now: Instant,
    page: PageAt,
) -> bool {
    match page {
        PageAt::Complete => before.len() <= page_size && after == before,
        PageAt::Truncated { next_cursor } => {
            &&& before.len() > page_size
            &&& 0 < after.len() <= page_size
            &&& after == before.take(after.len() as int)
            &&& exists|at: Instant, edge: int| #[trigger] key.ensures((&after.last(),), at)
                && #[trigger] micros_key(key, before[page_size as int], edge) && at.spec_micros()
                < edge && next_cursor == reported_instant(at.spec_micros(), at) && forall|i: int|
                after.len() <= i < page_size ==> micros_reach(key, #[trigger] before[i], edge)
        },
        PageAt::WholeInstant { at } => {
            &&& before.len() > page_size
            &&& after.len() == 0
            &&& exists|edge: int| #[trigger] micros_key(key, before[page_size as int], edge) && at
                == reported_instant(edge, now) && forall|i: int|
                0 <= i < page_size ==> micros_reach(key, #[trigger] before[i], edge)
        },
    }
}

fn instant_or(us: i64, fallback: Instant) -> (at: Instant)
    ensures
        at == reported_instant(us as int, fallback),
{
    match from_timestamp_micros(us) {
        Some(at) => at,
        None => fallback,
    }
}

/// Trims a probe page of rows cursored by instant so that it ends on a whole one. `now` is
/// reported in place of an instant outside the calendar.
pub fn trim_page_at<T, F: Fn(&T) -> Instant>(
    rows: &mut Vec<T>,
    page_size: usize,
    updated_at: F,
    now: Instant,
) -> (page: PageAt)
    requires
        forall|row: &T| #[trigger] updated_at.requires((row,)),
        forall|i: int, at: Instant|
            0 <= i < old(rows)@.len() && #[trigger] updated_at.ensures((&old(rows)@[i],), at)
                ==> at.wf(),
    ensures
        trims_at(old(rows)@, final(rows)@, page_size, updated_at, now, page),
{
    let ghost before = rows@;
    if rows.len() <= page_size {
        return PageAt::Complete;
    }
    let edge_at: Instant = updated_at(&rows[page_size]);
    assert(updated_at.ensures((&before[page_size as int],), edge_at));
    let boundary: i64 = edge_at.timestamp_micros();
    assert(micros_key(updated_at, before[page_size as int], boundary as int));
    rows.truncate(page_size);
    while rows.len() > 0
        invariant
            forall|row: &T| #[trigger] updated_at.requires((row,)),
            forall|i: int, at: Instant|
                0 <= i < before.len() && #[trigger] updated_at.ensures((&before[i],), at)
                    ==> at.wf(),
            before == old(rows)@,
            before.len() > page_size,
            rows@.len() <= page_size,
            rows@ == before.take(rows@.len() as int),
            micros_key(updated_at, before[page_size as int], boundary as int),
            forall|i: int|
                rows@.len() <= i < page_size ==> micros_reach(
                    updated_at,
                    #[trigger] before[i],
                    boundary as int,
                ),
        decreases rows.len(),
    {
        let last: usize = rows.len() - 1;
        let at: Instant = updated_at(&rows[last]);
        assert(updated_at.ensures((&before[last as int],), at));
        let us: i64 = at.timestamp_micros();
        if us < boundary {
            assert(rows@.last() == rows@[last as int]);
            assert(updated_at.ensures((&rows@.last(),), at));
            let next_cursor = instant_or(us, at);
            return PageAt::Truncated { next_cursor };
        }
        assert(micros_key(updated_at, before[last as int], us as int));
        assert(micros_reach(updated_at, before[last as int], boundary as int));
        rows.pop();
        assert(rows@ =~= before.take(last as int));
    }
    PageAt::WholeInstant { at: instant_or(boundary, now) }
}

/// Whether keys ascend.
pub open spec fn ascending(keys: Seq<i64>) -> bool {
    forall|i: int, j: int| 0 <= i <= j < keys.len() ==> keys[i] <= keys[j]
}

/// What a page of `page_size` cut from `keys` delivers, and the cursor it hands back.
pub open spec fn page_cut(keys: Seq<i64>, page_size: int, kept: int, cursor: i64) -> bool {
    &&& page_size < keys.len()
    &&& 0 < kept <= page_size
    &&& cursor == keys[kept - 1]
    &&& cursor < keys[page_size]
    &&& forall|i: int| kept <= i < page_size ==> #[trigger] keys[i] >= keys[page_size]
}

/// Paging loses nothing and repeats nothing: of rows in ascending order, a page that was cut
/// short delivered exactly those at or before the cursor it hands back, so a next download
/// strictly after the cursor starts with the first row that was not delivered.
pub proof fn a_cut_page_resumes_exactly(keys: Seq<i64>, page_size: int, kept: int, cursor: i64)
    requires
        ascending(keys),
        page_cut(keys, page_size, kept, cursor),
    ensures
        forall|i: int| 0 <= i < keys.len() ==> (i < kept <==> #[trigger] keys[i] <= cursor),
{
    assert forall|i: int| 0 <= i < keys.len() implies (i < kept <==> #[trigger] keys[i]
        <= cursor) by {
        if i < kept {
            assert(keys[i] <= keys[kept - 1]);
        } else if i < page_size {
            assert(keys[i] >= keys[page_size]);
        } else {
            assert(keys[page_size] <= keys[i]);
        }
    }
}

/// A page inside one millisecond asks for exactly that millisecond: of rows in ascending
/// order that all reach the first one past the page, each one on the page has its key.
pub proof fn a_stalled_page_is_one_millisecond(keys: Seq<i64>, page_size: int)
    requires
        ascending(keys),
        0 <= page_size < keys.len(),
        forall|i: int| 0 <= i < page_size ==> #[trigger] keys[i] >= keys[page_size],
    ensures
        forall|i: int| 0 <= i <= page_size ==> #[trigger] keys[i] == keys[page_size],
{
    assert forall|i: int| 0 <= i <= page_size implies #[trigger] keys[i] == keys[page_size] by {
        assert(keys[i] <= keys[page_size]);
    }
}

/// A read that is to fill a page asks for one row more than the page holds, which tells whether
/// there is more; a client that cannot come back is read everything, and its page holds it.
pub proof fn a_read_asks_for_one_row_past_the_page(
    n: usize,
    limit: i64,
    size: usize,
    whole: i64,
    unbounded: usize,
)
    requires
        call_ensures(probe_limit, (Some(n),), limit),
        call_ensures(trim_size, (Some(n),), size),
        call_ensures(probe_limit, (None,), whole),
        call_ensures(trim_size, (None,), unbounded),
    ensures
        size == n,
        n < i64::MAX ==> limit == size + 1,
        n >= i64::MAX ==> limit == i64::MAX,
        whole == i64::MAX,
        unbounded == usize::MAX,
{
}

/// A page is cut where it does not hold all rows, and then in front of the millisecond of the
/// first row it does not hold: it keeps what comes first, ends before that millisecond, leaves
/// out nothing earlier, and hands back the last millisecond it kept. Where there is nothing in
/// front of it, it says which millisecond that is.
pub proof fn a_page_ends_on_a_whole_millisecond<T, F: Fn(&T) -> i64>(
    before: Seq<T>,
    after: Seq<T>,
    page_size: usize,
    key: F,
    page: Page,
    stamp: spec_fn(T) -> i64,
)
    requires
        trims(before, after, page_size, key, page),
        forall|row: T, ms: i64| #[trigger] key.ensures((&row,), ms) ==> ms == stamp(row),
    ensures
        page is Complete <==> before.len() <= page_size,
        page is Complete ==> after == before,
        page matches Page::Truncated { next_cursor_ms } ==> {
            &&& 0 < after.len() <= page_size
            &&& forall|i: int| 0 <= i < after.len() ==> #[trigger] after[i] == before[i]
            &&& next_cursor_ms == stamp(before[after.len() - 1])
            &&& next_cursor_ms < stamp(before[page_size as int])
            &&& forall|i: int|
                after.len() <= i < page_size ==> stamp(#[trigger] before[i]) >= stamp(
                    before[page_size as int],
                )
        },
        page matches Page::WholeMillisecond { ms } ==> {
            &&& after.len() == 0
            &&& ms == stamp(before[page_size as int])
            &&& forall|i: int| 0 <= i < page_size ==> stamp(#[trigger] before[i]) >= ms
        },
{
    if let Page::Truncated { next_cursor_ms } = page {
        let edge = choose|edge: i64| #[trigger] key.ensures((&before[page_size as int],), edge)
            && next_cursor_ms < edge && forall|i: int|
            after.len() <= i < page_size ==> reaches(key, #[trigger] before[i], edge);
        assert forall|i: int| after.len() <= i < page_size implies stamp(#[trigger] before[i])
            >= stamp(before[page_size as int]) by {
            assert(reaches(key, before[i], edge));
        }
    }
    if let Page::WholeMillisecond { ms } = page {
        assert forall|i: int| 0 <= i < page_size implies stamp(#[trigger] before[i]) >= ms by {
            assert(reaches(key, before[i], ms));
        }
    }
}

/// A page of rows that carry instants is cut as one of rows that carry milliseconds, to the
/// microsecond: it ends in front of the instant of the first row it does not hold, leaves out
/// nothing earlier, and hands back the instant of the last row it kept.
pub proof fn a_page_ends_on_a_whole_instant<T, F: Fn(&T) -> Instant>(
    before: Seq<T>,
    after: Seq<T>,
    page_size: usize,
    key: F,
    now: Instant,
    page: PageAt,
    stamp: spec_fn(T) -> Instant,
)
    requires
        trims_at(before, after, page_size, key, now, page),
        forall|row: T, at: Instant| #[trigger] key.ensures((&row,), at) ==> at == stamp(row),
    ensures
        page is Complete <==> before.len() <= page_size,
        page is Complete ==> after == before,
        page matches PageAt::Truncated { next_cursor } ==> {
            let last = stamp(before[after.len() - 1]);
            &&& 0 < after.len() <= page_size
            &&& forall|i: int| 0 <= i < after.len() ==> #[trigger] after[i] == before[i]
            &&& last.spec_micros() < stamp(before[page_size as int]).spec_micros()
            &&& next_cursor == (match instant_at_micros(last.spec_micros()) {
                Some(at) => at,
                None => last,
            })
            &&& forall|i: int|
                after.len() <= i < page_size ==> stamp(#[trigger] before[i]).spec_micros()
                    >= stamp(before[page_size as int]).spec_micros()
        },
        page matches PageAt::WholeInstant { at } ==> {
            let edge = stamp(before[page_size as int]);
            &&& after.len() == 0
            &&& at == (match instant_at_micros(edge.spec_micros()) {
                Some(at) => at,
                None => now,
            })
            &&& forall|i: int|
                0 <= i < page_size ==> stamp(#[trigger] before[i]).spec_micros()
                    >= edge.spec_micros()
        },
{
    if let PageAt::Truncated { next_cursor } = page {
        let (at, edge) = choose|at: Instant, edge: int| #[trigger]
            key.ensures((&after.last(),), at) && #[trigger] micros_key(
                key,
                before[page_size as int],
                edge,
            ) && at.spec_micros() < edge && next_cursor == reported_instant(at.spec_micros(), at)
                && forall|i: int|
                after.len() <= i < page_size ==> micros_reach(key, #[trigger] before[i], edge);
        assert(after.last() == before[after.len() - 1]);
        assert(edge == stamp(before[page_size as int]).spec_micros());
        assert forall|i: int| after.len() <= i < page_size implies stamp(
            #[trigger] before[i],
        ).spec_micros() >= edge by {
            assert(micros_reach(key, before[i], edge));
        }
    }
    if let PageAt::WholeInstant { at } = page {
        let edge = choose|edge: int| #[trigger]
            micros_key(key, before[page_size as int], edge) && at == reported_instant(edge, now)
                && forall|i: int|
                0 <= i < page_size ==> micros_reach(key, #[trigger] before[i], edge);
        assert(edge == stamp(before[page_size as int]).spec_micros());
        assert forall|i: int| 0 <= i < page_size implies stamp(#[trigger] before[i]).spec_micros()
            >= edge by {
            assert(micros_reach(key, before[i], edge));
        }
    }
}

} // verus!
