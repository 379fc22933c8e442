//! Reading what a client is owed, one page at a time.

use crate::ids::Uuid;
use crate::instant::{cursor_millis, initial_sync, is_initial_sync, Instant};
use crate::sync::paging::{limit_of, probe_limit, trim_page, trim_size, Page};
use vstd::prelude::*;

verus! {

/// A row with the millisecond it was last written in.
pub trait Stamped: Sized {
    /// The millisecond this row was last written in.
    spec fn stamp(&self) -> i64;

    /// The client that wrote this row last.
    spec fn writer(&self) -> Uuid;

    /// The millisecond this row was last written in.
    fn stamp_of(&self) -> (ms: i64)
        ensures
            ms == self.stamp(),
    ;
}

/// One read of the rows a client is owed.
#[derive(Debug, Clone, Copy, PartialEq, Eq, Structural)]
pub struct DownloadQuery {
    /// Rows stamped after this millisecond.
    pub after_ms: i64,
    /// Rows stamped no later than this one.
    pub through_ms: Option<i64>,
    /// Whether the client's own writes are part of it.
    pub include_own: bool,
    pub limit: i64,
}

/// Whether a row is part of a read on behalf of a client.
pub open spec fn answers<T: Stamped>(row: T, query: DownloadQuery, client: Uuid) -> bool {
    &&& row.stamp() > query.after_ms
    &&& query.through_ms matches Some(ms) ==> row.stamp() <= ms
    &&& query.include_own || row.writer() != client
}

/// Whether a download begins with a read.
pub open spec fn begins(
    query: DownloadQuery,
    last_synced_at: Option<Instant>,
    page_size: Option<usize>,
) -> bool {
    &&& query.after_ms == (match last_synced_at {
        Some(at) => at.spec_millis(),
        None => 0,
    })
    &&& query.through_ms is None
    &&& query.include_own == initial_sync(last_synced_at)
    &&& query.limit == limit_of(page_size)
}

/// The read a download begins with: one row past the page, after the client's cursor. A
/// client's own writes are left out unless this is its first sync.
pub fn first_read(last_synced_at: Option<Instant>, page_size: Option<usize>) -> (q: DownloadQuery)
    requires
        last_synced_at is Some ==> last_synced_at->0.wf(),
    ensures
        begins(q, last_synced_at, page_size),
{
    DownloadQuery {
        after_ms: cursor_millis(last_synced_at),
        through_ms: None,
        include_own: is_initial_sync(last_synced_at),
        limit: probe_limit(page_size),
    }
}

/// What a page of rows turned out to be.
#[derive(Debug)]
pub enum DownloadPage<T> {
    /// The page to serve, and the client's next cursor where it was cut short.
    Serve { rows: Vec<T>, next_cursor_ms: Option<i64> },
    /// More than a page shares one millisecond, which is read whole and served instead.
    Reread { query: DownloadQuery, ms: i64 },
}

/// The number of rows a page may hold.
pub open spec fn page_bound(page_size: Option<usize>) -> usize {
    match page_size {
        Some(n) => n,
        None => usize::MAX,
    }
}

/// What a page cut from `rows` serves and hands back: everything if it fits, or the rows in
/// front of the last stretch that reaches the first row that did not fit, or, where there are
/// none in front, a second read of the one millisecond they share.
pub open spec fn is_page_of<T: Stamped>(
    rows: Seq<T>,
    query: DownloadQuery,
    page_size: Option<usize>,
    page: DownloadPage<T>,
) -> bool {
    let size = page_bound(page_size) as int;
    match page {
        DownloadPage::Serve { rows: kept, next_cursor_ms: None } => {
            rows.len() <= size && kept@ == rows
        },
        DownloadPage::Serve { rows: kept, next_cursor_ms: Some(ms) } => {
            &&& rows.len() > size
            &&& 0 < kept@.len() <= size
            &&& kept@ == rows.take(kept@.len() as int)
            &&& kept@.last().stamp() == ms
            &&& ms < rows[size].stamp()
            &&& forall|i: int|
                kept@.len() <= i < size ==> (#[trigger] rows[i]).stamp() >= rows[size].stamp()
        },
        DownloadPage::Reread { query: again, ms } => {
            &&& rows.len() > size
            &&& ms == rows[size].stamp()
            &&& forall|i: int| 0 <= i < size ==> (#[trigger] rows[i]).stamp() >= ms
            &&& again.after_ms == (if ms > i64::MIN {
                ms - 1
            } else {
                i64::MIN as int
            })
            &&& again.through_ms == Some(ms)
            &&& again.include_own == query.include_own
            &&& again.limit == i64::MAX
        },
    }
}

/// Cuts a page of rows so that it ends on a whole millisecond. `rows` are in ascending
/// order of their stamps and answer `query`.
pub fn cut_page<T: Stamped>(rows: Vec<T>, query: DownloadQuery, page_size: Option<usize>) -> (page:
    DownloadPage<T>)
    ensures
        is_page_of(rows@, query, page_size, page),
{
    let stamp = |row: &T| -> (ms: i64)
        ensures
            ms == row.stamp(),
        { row.stamp_of() };
    let mut kept = rows;
    let size = trim_size(page_size);
    let page = trim_page(&mut kept, size, stamp);
    match page {
        Page::Complete => DownloadPage::Serve { rows: kept, next_cursor_ms: None },
        Page::Truncated { next_cursor_ms } => DownloadPage::Serve {
            rows: kept,
            next_cursor_ms: Some(next_cursor_ms),
        },
        Page::WholeMillisecond { ms } => {
            let after_ms: i64 = if ms > i64::MIN {
                ms - 1
            } else {
                ms
            };
            let again = DownloadQuery {
                after_ms,
                through_ms: Some(ms),
                include_own: query.include_own,
                limit: i64::MAX,
            };
            DownloadPage::Reread { query: again, ms }
        },
    }
}

/// A millisecond as an instant.
pub open spec fn instant_at_millis(ms: int) -> Instant {
    Instant { secs: (ms / 1000) as i64, nanos: ((ms % 1000) * 1_000_000) as u32 }
}

fn millis_instant(ms: i64) -> (at: Instant)
    ensures
        at == instant_at_millis(ms as int),
{
    if ms >= 0 {
        let ms: u64 = ms as u64;
        Instant { secs: (ms / 1000) as i64, nanos: (ms % 1000) as u32 * 1_000_000 }
    } else {
        let below: u64 = (-(ms + 1)) as u64;
        let secs: i64 = -((below / 1000) as i64) - 1;
        Instant { secs, nanos: (999 - below % 1000) as u32 * 1_000_000 }
    }
}

fn micros_of(at: Instant) -> (us: i128)
    ensures
        us == at.spec_micros(),
{
    at.secs as i128 * 1_000_000 + (at.nanos / 1000) as i128
}

/// Where downloads were cut short: those cursored by milliseconds, then those by instants.
pub open spec fn cuts(cut_ms: Seq<i64>, cut_at: Seq<Instant>) -> Seq<Instant> {
    cut_ms.map_values(|ms: i64| instant_at_millis(ms as int)) + cut_at
}

/// The earliest of a list of instants, to the microsecond.
pub open spec fn earliest(cursors: Seq<Instant>) -> Instant
    decreases cursors.len(),
{
    if cursors.len() <= 1 {
        cursors[0]
    } else {
        let front = earliest(cursors.drop_last());
        if cursors.last().spec_micros() < front.spec_micros() {
            cursors.last()
        } else {
            front
        }
    }
}

/// What a reply says of where the client resumes.
#[derive(Debug, Clone, Copy, PartialEq, Eq, Structural)]
pub struct ReplyCursor {
    /// The client's next cursor.
    pub server_timestamp: Instant,
    /// Whether a download was cut short.
    pub has_more: bool,
}

/// Where a client resumes: at the server's clock, or, where downloads were cut short, at the
/// earliest point any of them was delivered up to.
pub open spec fn resumes_at(server: Instant, cut_ms: Seq<i64>, cut_at: Seq<Instant>) -> ReplyCursor {
    let cursors = cuts(cut_ms, cut_at);
    if cursors.len() == 0 {
        ReplyCursor { server_timestamp: server, has_more: false }
    } else {
        ReplyCursor { server_timestamp: earliest(cursors), has_more: true }
    }
}

/// Where a client resumes, given the cursors of the downloads that were cut short.
pub fn reply_cursor(server: Instant, cut_ms: &Vec<i64>, cut_at: &Vec<Instant>) -> (cursor:
    ReplyCursor)
    ensures
        cursor == resumes_at(server, cut_ms@, cut_at@),
{
    let ghost all = cuts(cut_ms@, cut_at@);
    let mut cursors: Vec<Instant> = Vec::new();
    let mut i: usize = 0;
    while i < cut_ms.len()
        invariant
            i <= cut_ms.len(),
            all == cuts(cut_ms@, cut_at@),
            cursors@ == all.take(i as int),
        decreases cut_ms.len() - i,
    {
        let at = millis_instant(cut_ms[i]);
        assert(all[i as int] == at);
        cursors.push(at);
        assert(cursors@ =~= all.take(i + 1));
        i = i + 1;
    }
    let mut j: usize = 0;
    while j < cut_at.len()
        invariant
            j <= cut_at.len(),
            all == cuts(cut_ms@, cut_at@),
            cursors@ == all.take(cut_ms@.len() + j),
        decreases cut_at.len() - j,
    {
        let at = cut_at[j];
        assert(all[cut_ms@.len() + j] == at);
        cursors.push(at);
        assert(cursors@ =~= all.take(cut_ms@.len() + j + 1));
        j = j + 1;
    }
    assert(cursors@ =~= all);
    if cursors.len() == 0 {
        return ReplyCursor { server_timestamp: server, has_more: false };
    }
    let mut first: Instant = cursors[0];
    let mut k: usize = 1;
    assert(all.take(1)[0] == all[0]);
    while k < cursors.len()
        invariant
            1 <= k <= cursors.len(),
            cursors@ == all,
            first == earliest(all.take(k as int)),
        decreases cursors.len() - k,
    {
        let at = cursors[k];
        proof {
            let next = all.take(k + 1);
            assert(next.drop_last() =~= all.take(k as int));
            assert(next.last() == at);
        }
        if micros_of(at) < micros_of(first) {
            first = at;
        }
        k = k + 1;
    }
    assert(all.take(k as int) =~= all);
    ReplyCursor { server_timestamp: first, has_more: true }
}

proof fn earliest_is_a_bound(cursors: Seq<Instant>)
    requires
        cursors.len() > 0,
    ensures
        forall|i: int|
            0 <= i < cursors.len() ==> earliest(cursors).spec_micros() <= (
            #[trigger] cursors[i]).spec_micros(),
        cursors.contains(earliest(cursors)),
    decreases cursors.len(),
{
    if cursors.len() == 1 {
        assert(cursors[0] == earliest(cursors));
    } else {
        let front = cursors.drop_last();
        earliest_is_a_bound(front);
        assert forall|i: int| 0 <= i < cursors.len() implies earliest(cursors).spec_micros() <= (
        #[trigger] cursors[i]).spec_micros() by {
            if i < front.len() {
                assert(front[i] == cursors[i]);
            }
        }
        if cursors.last().spec_micros() < earliest(front).spec_micros() {
            assert(cursors[cursors.len() - 1] == earliest(cursors));
        } else {
            let k = choose|k: int| 0 <= k < front.len() && front[k] == earliest(front);
            assert(cursors[k] == earliest(cursors));
        }
    }
}

proof fn millis_are_micros_floored(at: Instant)
    ensures
        at.spec_millis() == at.spec_micros() / 1000,
{
    let n = at.nanos as int;
    assert(n / 1_000_000 == (n / 1000) / 1000);
}

/// Sending a reply's timestamp back resumes where the downloads ended: the timestamp is one
/// of the points they were cut at, and no download is resumed past its own.
pub proof fn a_stored_timestamp_resumes_every_download(
    server: Instant,
    cut_ms: Seq<i64>,
    cut_at: Seq<Instant>,
)
    requires
        cut_ms.len() + cut_at.len() > 0,
    ensures
        resumes_at(server, cut_ms, cut_at).has_more,
        cuts(cut_ms, cut_at).contains(resumes_at(server, cut_ms, cut_at).server_timestamp),
        forall|i: int|
            0 <= i < cut_ms.len() ==> resumes_at(
                server,
                cut_ms,
                cut_at,
            ).server_timestamp.spec_millis() <= #[trigger] cut_ms[i],
        forall|i: int|
            0 <= i < cut_at.len() ==> resumes_at(
                server,
                cut_ms,
                cut_at,
            ).server_timestamp.spec_micros() <= (#[trigger] cut_at[i]).spec_micros(),
{
    let cursors = cuts(cut_ms, cut_at);
    let at = resumes_at(server, cut_ms, cut_at).server_timestamp;
    earliest_is_a_bound(cursors);
    millis_are_micros_floored(at);
    assert forall|i: int| 0 <= i < cut_ms.len() implies at.spec_millis() <= #[trigger] cut_ms[i] by {
        let ms = cut_ms[i] as int;
        let cursor = cursors[i];
        assert(cursor == instant_at_millis(ms));
        assert(ms == (ms / 1000) * 1000 + ms % 1000);
        assert(i64::MIN <= ms / 1000 <= i64::MAX);
        assert(0 <= ms % 1000 < 1000);
        assert(cursor.spec_micros() == ms * 1000);
    }
    assert forall|i: int| 0 <= i < cut_at.len() implies at.spec_micros() <= (
    #[trigger] cut_at[i]).spec_micros() by {
        assert(cursors[cut_ms.len() + i] == cut_at[i]);
    }
}

/// A download reads what was written after the client's last sync, to the millisecond, and what
/// the client wrote itself only where it has never synced before.
pub proof fn a_download_begins_after_the_last_sync(
    since: Option<Instant>,
    page_size: Option<usize>,
    query: DownloadQuery,
)
    requires
        since matches Some(at) ==> at.wf(),
        call_ensures(first_read, (since, page_size), query),
    ensures
        since is None ==> query.after_ms == 0 && query.include_own,
        since matches Some(at) ==> {
            &&& query.after_ms == at.secs * 1000 + at.nanos as int / 1_000_000
            &&& query.include_own <==> at.secs <= 0
        },
        query.through_ms is None,
        page_size is None ==> query.limit == i64::MAX,
        page_size matches Some(n) ==> n < i64::MAX ==> query.limit == n + 1,
{
}

/// A client resumes at the server's clock where everything was delivered, and otherwise at one
/// of the points that a download was cut at, which is behind none of the others.
pub proof fn a_client_resumes_at_the_earliest_cut(
    server: Instant,
    cut_ms: &Vec<i64>,
    cut_at: &Vec<Instant>,
    cursor: ReplyCursor,
)
    requires
        call_ensures(reply_cursor, (server, cut_ms, cut_at), cursor),
    ensures
        cursor.has_more <==> cut_ms@.len() + cut_at@.len() > 0,
        !cursor.has_more ==> cursor.server_timestamp == server,
        cursor.has_more ==> {
            let at = cursor.server_timestamp;
            &&& cut_at@.contains(at) || exists|i: int|
                0 <= i < cut_ms@.len() && at.secs * 1000_000 + at.nanos as int / 1000
                    == #[trigger] cut_ms@[i] * 1000
            &&& forall|i: int|
                0 <= i < cut_ms@.len() ==> at.secs * 1000_000 + at.nanos as int / 1000
                    <= #[trigger] cut_ms@[i] * 1000
            &&& forall|i: int|
                0 <= i < cut_at@.len() ==> at.secs * 1000_000 + at.nanos as int / 1000 <= (
                #[trigger] cut_at@[i]).secs * 1000_000 + cut_at@[i].nanos as int / 1000
        },
{
    let cursors = cuts(cut_ms@, cut_at@);
    let at = cursor.server_timestamp;
    assert(cursors.len() == cut_ms@.len() + cut_at@.len());
    if cursors.len() > 0 {
        earliest_is_a_bound(cursors);
        assert forall|i: int| 0 <= i < cut_ms@.len() implies (#[trigger] cursors[i]).spec_micros()
            == cut_ms@[i] * 1000 by {
            let ms = cut_ms@[i] as int;
            assert(cursors[i] == instant_at_millis(ms));
            assert(ms == (ms / 1000) * 1000 + ms % 1000);
        }
        assert forall|i: int| 0 <= i < cut_ms@.len() implies at.spec_micros() <= #[trigger] cut_ms@[i]
            * 1000 by {
            assert(cursors[i].spec_micros() == cut_ms@[i] * 1000);
        }
        assert forall|i: int| 0 <= i < cut_at@.len() implies at.spec_micros() <= (
        #[trigger] cut_at@[i]).spec_micros() by {
            assert(cursors[cut_ms@.len() + i] == cut_at@[i]);
        }
        let k = choose|k: int| 0 <= k < cursors.len() && cursors[k] == at;
        if k < cut_ms@.len() {
            assert(at.spec_micros() == cut_ms@[k] * 1000);
        } else {
            assert(cut_at@[k - cut_ms@.len()] == at);
        }
    }
}

} // verus!
