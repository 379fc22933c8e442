//! Points in time, to the nanosecond.

use vstd::prelude::*;

verus! {

/// The first second of the calendar: the year -262143 begins.
pub const FIRST_SECOND: i64 = -8_334_601_228_800;

/// The last second of the calendar: the year 262142 ends.
pub const LAST_SECOND: i64 = 8_210_266_876_799;

/// The first second an RFC 3339 date can name: the year 0 begins.
pub const FIRST_RFC_SECOND: i64 = -62_167_219_200;

/// The last second an RFC 3339 date can name: the year 9999 ends.
pub const LAST_RFC_SECOND: i64 = 253_402_300_799;

/// A point in time: whole seconds since the epoch and the nanoseconds past them. A leap
/// second is the second before it with a billion nanoseconds or more.
#[derive(Debug, Clone, Copy, PartialEq, Eq, Structural)]
pub struct Instant {
    pub secs: i64,
    pub nanos: u32,
}

impl Instant {
    /// Whether the calendar has this instant.
    pub open spec fn wf(self) -> bool {
        &&& FIRST_SECOND <= self.secs <= LAST_SECOND
        &&& self.nanos < 1_000_000_000 || (self.nanos < 2_000_000_000 && self.secs % 60 == 59)
    }

    pub open spec fn spec_millis(self) -> int {
        self.secs * 1000 + self.nanos as int / 1_000_000
    }

    pub open spec fn spec_micros(self) -> int {
        self.secs * 1_000_000 + self.nanos as int / 1000
    }

    /// Whether this instant comes after `other`.
    pub open spec fn is_after(self, other: Instant) -> bool {
        self.secs > other.secs || (self.secs == other.secs && self.nanos > other.nanos)
    }

    /// Milliseconds since the epoch.
    pub fn timestamp_millis(self) -> (ms: i64)
        requires
            self.wf(),
        ensures
            ms == self.spec_millis(),
    {
        self.secs * 1000 + (self.nanos / 1_000_000) as i64
    }

    /// Microseconds since the epoch.
    pub fn timestamp_micros(self) -> (us: i64)
        requires
            self.wf(),
        ensures
            us == self.spec_micros(),
    {
        self.secs * 1_000_000 + (self.nanos / 1000) as i64
    }

    /// Whether this instant comes after `other`.
    pub fn after(self, other: Instant) -> (later: bool)
        ensures
            later == self.is_after(other),
    {
        self.secs > other.secs || (self.secs == other.secs && self.nanos > other.nanos)
    }
}

/// The instant a microsecond count names, where the calendar has it.
pub open spec fn instant_at_micros(us: int) -> Option<Instant> {
    if FIRST_SECOND <= us / 1_000_000 <= LAST_SECOND {
        Some(
            Instant {
                secs: (us / 1_000_000) as i64,
                nanos: ((us % 1_000_000) * 1000) as u32,
            },
        )
    } else {
        None
    }
}

/// What `chrono::DateTime::parse_from_rfc3339` reads out of a text, in UTC.
pub uninterp spec fn rfc3339_instant(s: Seq<char>) -> Option<Instant>;

/// What `chrono::DateTime::to_rfc3339` writes for an instant in UTC.
pub uninterp spec fn rfc3339_text(secs: i64, nanos: u32) -> Seq<char>;

/// `chrono::DateTime::from_timestamp_micros`: the whole seconds below the count and the rest
/// as nanoseconds, or nothing where that second is outside the calendar.
#[verifier::external_body]
pub(crate) fn from_timestamp_micros(us: i64) -> (at: Option<Instant>)
    ensures
        at == instant_at_micros(us as int),
{
    chrono::DateTime::from_timestamp_micros(us).map(
        |t| Instant { secs: t.timestamp(), nanos: t.timestamp_subsec_nanos() },
    )
}

/// `chrono::DateTime::parse_from_rfc3339` followed by the change to UTC. The grammar is left
/// to the crate; what is claimed is that the result depends on the text alone and that an
/// instant that was read is one the calendar has.
#[verifier::external_body]
pub(crate) fn parse_rfc3339(s: &str) -> (at: Option<Instant>)
    ensures
        at == rfc3339_instant(s@),
        at is Some ==> at->0.wf(),
{
    chrono::DateTime::parse_from_rfc3339(s).ok().map(
        |t| Instant { secs: t.timestamp(), nanos: t.timestamp_subsec_nanos() },
    )
}

/// `chrono::DateTime::to_rfc3339` in UTC. The notation is left to the crate; what is claimed
/// is that the text depends on the instant alone and that `parse_from_rfc3339` reads the same
/// instant back, for instants outside leap seconds in the years 0 to 9999.
#[verifier::external_body]
pub(crate) fn format_rfc3339(at: Instant) -> (s: String)
    requires
        at.wf(),
    ensures
        s@ == rfc3339_text(at.secs, at.nanos),
        FIRST_RFC_SECOND <= at.secs <= LAST_RFC_SECOND && at.nanos < 1_000_000_000
            ==> rfc3339_instant(s@) == Some(at),
{
    chrono::DateTime::from_timestamp(at.secs, at.nanos).map(|t| t.to_rfc3339()).unwrap_or_default()
}

/// Whether a client's cursor makes this its first sync: it has none, or one at or before
/// the first second of the epoch.
pub open spec fn initial_sync(last_synced_at: Option<Instant>) -> bool {
    match last_synced_at {
        Some(at) => at.secs <= 0,
        None => true,
    }
}

/// Whether this is a client's first sync.
pub fn is_initial_sync(last_synced_at: Option<Instant>) -> (initial: bool)
    ensures
        initial == initial_sync(last_synced_at),
{
    match last_synced_at {
        Some(at) => at.secs <= 0,
        None => true,
    }
}

/// The millisecond a download reads after: the client's cursor, or the epoch.
pub fn cursor_millis(last_synced_at: Option<Instant>) -> (ms: i64)
    requires
        last_synced_at is Some ==> last_synced_at->0.wf(),
    ensures
        ms == (match last_synced_at {
            Some(at) => at.spec_millis(),
            None => 0,
        }),
{
    match last_synced_at {
        Some(at) => at.timestamp_millis(),
        None => 0,
    }
}

/// Instants are in a strict order: none comes after itself, one of two different instants comes
/// after the other, and what comes after a later instant comes after an earlier one.
pub proof fn instants_are_in_order(a: Instant, b: Instant, c: Instant)
    ensures
        !a.is_after(a),
        a.is_after(b) ==> !b.is_after(a),
        a != b ==> a.is_after(b) || b.is_after(a),
        a.is_after(b) && b.is_after(c) ==> a.is_after(c),
        a.secs > b.secs ==> a.is_after(b),
{
}

/// Counting in milliseconds or microseconds rounds down: an instant is no earlier than its count
/// and less than one unit later.
pub proof fn counts_round_down(a: Instant)
    ensures
        a.spec_micros() * 1000 <= a.secs * 1_000_000_000 + a.nanos,
        a.secs * 1_000_000_000 + a.nanos < (a.spec_micros() + 1) * 1000,
        a.spec_millis() * 1_000_000 <= a.secs * 1_000_000_000 + a.nanos,
        a.secs * 1_000_000_000 + a.nanos < (a.spec_millis() + 1) * 1_000_000,
{
    let n = a.nanos as int;
    assert(n / 1000 * 1000 <= n && n < (n / 1000 + 1) * 1000);
    assert(n / 1_000_000 * 1_000_000 <= n && n < (n / 1_000_000 + 1) * 1_000_000);
}

/// The instant a count names has that count, and lies within the calendar.
pub proof fn a_counted_instant_has_its_count(us: int)
    ensures
        instant_at_micros(us) matches Some(at) ==> at.spec_micros() == us && at.wf(),
        instant_at_micros(us) is Some <==> FIRST_SECOND * 1_000_000 <= us && us < (LAST_SECOND + 1)
            * 1_000_000,
{
    let r = us % 1_000_000;
    let q = us / 1_000_000;
    assert(us == q * 1_000_000 + r && 0 <= r && r < 1_000_000);
    assert((r * 1000) / 1000 == r);
}

/// A download reads after the client's cursor, rounded down to the millisecond, and after the
/// epoch where it has none.
pub proof fn a_download_reads_after_the_cursor(last_synced_at: Option<Instant>, ms: i64)
    requires
        call_ensures(cursor_millis, (last_synced_at,), ms),
    ensures
        match last_synced_at {
            None => ms == 0,
            Some(at) => ms * 1_000_000 <= at.secs * 1_000_000_000 + at.nanos && at.secs
                * 1_000_000_000 + at.nanos < (ms + 1) * 1_000_000,
        },
{
    if let Some(at) = last_synced_at {
        counts_round_down(at);
    }
}

/// An instant is later than another by its seconds, and within a second by its nanoseconds; a
/// client syncs for the first time if it has no cursor or one before the epoch's first second
/// has passed.
pub proof fn a_later_instant_has_more_seconds_or_nanoseconds(
    a: Instant,
    b: Instant,
    later: bool,
    since: Option<Instant>,
    first: bool,
)
    requires
        call_ensures(Instant::after, (a, b), later),
        call_ensures(is_initial_sync, (since,), first),
    ensures
        later <==> a.secs > b.secs || (a.secs == b.secs && a.nanos > b.nanos),
        first <==> since is None || since->0.secs <= 0,
{
}

} // verus!
