//! Whether a client has anything to sync.

use crate::error::{outcome, AppError, ErrorView};
use crate::instant::{
    format_rfc3339, parse_rfc3339, rfc3339_instant, rfc3339_text, Instant, FIRST_RFC_SECOND,
    LAST_RFC_SECOND,
};
use crate::sync::remote_mutations::{reads_grocery, reads_todo};
use crate::sync::scope_auth::{authorize_scope, scope_decision};
use crate::sync::types::{scope_name, Claims, SyncScope};
use crate::text::raw_text;
use vstd::prelude::*;

verus! {

/// How long a cached timestamp is kept, in seconds.
pub const CACHE_TTL_SECS: u64 = 86_400;

/// The key a user's last update is cached under.
pub open spec fn cache_key(user: Seq<char>, scope: SyncScope) -> Seq<char> {
    "user:"@ + user + ":last_update:"@ + scope_name(scope)
}

/// The key a user's last update is cached under.
pub fn get_cache_key(user_id: &str, scope: SyncScope) -> (key: String)
    ensures
        key@ == cache_key(user_id@, scope),
{
    let mut s = "user:".to_owned();
    s.append(user_id);
    s.append(":last_update:");
    s.append(scope.name());
    s
}

/// The scope a status request is about, where its token permits it. A request that names
/// none is about everything.
pub fn status_scope(claims: &Claims, scope: Option<SyncScope>) -> (r: Result<SyncScope, AppError>)
    ensures
        ({
            let asked = match scope {
                Some(scope) => scope,
                None => SyncScope::All,
            };
            outcome(r) == (match scope_decision(claims.product, asked) {
                Ok(_) => Ok(asked),
                Err(e) => Err::<SyncScope, ErrorView>(e),
            })
        }),
{
    let asked = match scope {
        Some(scope) => scope,
        None => SyncScope::All,
    };
    match authorize_scope(claims, asked) {
        Ok(_) => Ok(asked),
        Err(e) => Err(e),
    }
}

/// The collections a scope's status looks at.
#[derive(Debug, Clone, Copy, PartialEq, Eq, Structural)]
pub struct StatusReads {
    pub todo: bool,
    pub grocery: bool,
    pub configs: bool,
    pub drawings: bool,
}

/// The collections a scope's status looks at: drawings count for the scopes that see them.
pub open spec fn reads_of(scope: SyncScope) -> StatusReads {
    StatusReads {
        todo: reads_todo(scope),
        grocery: reads_grocery(scope),
        configs: scope == SyncScope::ScribbleKeep || scope == SyncScope::ScribbleKeepCloud,
        drawings: scope == SyncScope::ScribbleBox || scope == SyncScope::ScribbleKeepCloud,
    }
}

/// The collections a scope's status looks at.
pub fn status_reads(scope: SyncScope) -> (reads: StatusReads)
    ensures
        reads == reads_of(scope),
{
    StatusReads {
        todo: scope == SyncScope::All || scope == SyncScope::Todo,
        grocery: scope == SyncScope::All || scope == SyncScope::Grocery,
        configs: scope == SyncScope::ScribbleKeep || scope == SyncScope::ScribbleKeepCloud,
        drawings: scope == SyncScope::ScribbleBox || scope == SyncScope::ScribbleKeepCloud,
    }
}

/// The later of two instants.
pub open spec fn later(one: Instant, other: Instant) -> Instant {
    if other.is_after(one) {
        other
    } else {
        one
    }
}

/// The latest of the updates of several tables, and the epoch where none was ever updated.
pub open spec fn latest_of(updates: Seq<Option<Instant>>) -> Instant
    decreases updates.len(),
{
    if updates.len() == 0 {
        Instant { secs: 0, nanos: 0 }
    } else {
        let front = latest_of(updates.drop_last());
        match updates.last() {
            Some(at) => if updates.len() == 1 || !any_of(updates.drop_last()) {
                at
            } else {
                later(front, at)
            },
            None => front,
        }
    }
}

/// Whether any table was ever updated.
pub open spec fn any_of(updates: Seq<Option<Instant>>) -> bool {
    exists|i: int| 0 <= i < updates.len() && (#[trigger] updates[i]) is Some
}

/// The latest of the updates of several tables, and the epoch where none was ever updated.
pub fn latest_update(updates: &Vec<Option<Instant>>) -> (at: Instant)
    ensures
        at == latest_of(updates@),
{
    let mut found: Option<Instant> = None;
    let mut i: usize = 0;
    assert(updates@.take(0) =~= seq![]);
    while i < updates.len()
        invariant
            i <= updates.len(),
            found is Some <==> any_of(updates@.take(i as int)),
            latest_of(updates@.take(i as int)) == (match found {
                Some(at) => at,
                None => Instant { secs: 0, nanos: 0 },
            }),
        decreases updates.len() - i,
    {
        let ghost seen = updates@.take(i as int);
        let ghost next = updates@.take(i + 1);
        proof {
            assert(next.drop_last() =~= seen);
            assert(next.last() == updates@[i as int]);
            if any_of(seen) {
                let k = choose|k: int| 0 <= k < seen.len() && (#[trigger] seen[k]) is Some;
                assert(next[k] is Some);
            }
            if any_of(next) && updates@[i as int] is None {
                let k = choose|k: int| 0 <= k < next.len() && (#[trigger] next[k]) is Some;
                assert(seen[k] is Some);
            }
            if updates@[i as int] is Some {
                assert(next[i as int] is Some);
            }
        }
        if let Some(at) = updates[i] {
            found = match found {
                Some(before) => if at.after(before) {
                    Some(at)
                } else {
                    Some(before)
                },
                None => Some(at),
            };
        }
        i = i + 1;
    }
    assert(updates@.take(i as int) =~= updates@);
    match found {
        Some(at) => at,
        None => Instant { secs: 0, nanos: 0 },
    }
}

/// The timestamp the cache holds, where it holds one that can be read.
pub open spec fn cached_instant(cached: Option<Seq<char>>) -> Option<Instant> {
    match cached {
        Some(s) => rfc3339_instant(s),
        None => None,
    }
}

/// The timestamp the cache holds, where it holds one that can be read.
pub fn cached_timestamp(cached: Option<&str>) -> (at: Option<Instant>)
    ensures
        at == cached_instant(raw_text(cached)),
{
    match cached {
        Some(s) => parse_rfc3339(s),
        None => None,
    }
}

/// What the cache is told of a timestamp: a text that is read back as the same instant, for
/// instants outside leap seconds in the years 0 to 9999.
pub fn timestamp_to_cache(at: Instant) -> (s: String)
    requires
        at.wf(),
    ensures
        s@ == rfc3339_text(at.secs, at.nanos),
        FIRST_RFC_SECOND <= at.secs <= LAST_RFC_SECOND && at.nanos < 1_000_000_000
            ==> rfc3339_instant(s@) == Some(at),
{
    format_rfc3339(at)
}

/// The answer to a status request.
#[derive(Debug, Clone, Copy, PartialEq, Eq, Structural)]
pub struct SyncStatusResponse {
    pub needs_sync: bool,
    pub latest_version: Instant,
}

/// The answer to a status request: there is something to sync where the latest update came
/// after the client's last sync, or the client has never synced.
pub open spec fn status(latest: Instant, last_synced_at: Option<Instant>) -> SyncStatusResponse {
    SyncStatusResponse {
        needs_sync: match last_synced_at {
            Some(last) => latest.is_after(last),
            None => true,
        },
        latest_version: latest,
    }
}

/// The answer to a status request.
pub fn sync_status(latest: Instant, last_synced_at: Option<Instant>) -> (response: SyncStatusResponse)
    ensures
        response == status(latest, last_synced_at),
{
    let needs_sync = match last_synced_at {
        Some(last) => latest.after(last),
        None => true,
    };
    SyncStatusResponse { needs_sync, latest_version: latest }
}

/// What a status request comes to, given what the cache holds.
#[derive(Debug, Clone, Copy, PartialEq, Eq, Structural)]
pub enum StatusStep {
    /// The cache knows the latest update: this is the answer.
    Answer(SyncStatusResponse),
    /// The tables have to be asked for their updates.
    Read(StatusReads),
}

/// What a status request comes to: the cache answers where it holds a timestamp that can be
/// read, and the scope's tables are asked where it does not.
pub fn status_step(cached: Option<&str>, scope: SyncScope, last_synced_at: Option<Instant>) -> (step:
    StatusStep)
    ensures
        match cached_instant(raw_text(cached)) {
            Some(latest) => step == StatusStep::Answer(status(latest, last_synced_at)),
            None => step == StatusStep::Read(reads_of(scope)),
        },
{
    match cached_timestamp(cached) {
        Some(latest) => StatusStep::Answer(sync_status(latest, last_synced_at)),
        None => StatusStep::Read(status_reads(scope)),
    }
}

/// A status request answered from the tables, with what the cache is to be told.
#[derive(Debug)]
pub struct ReadStatus {
    pub response: SyncStatusResponse,
    pub to_cache: String,
}

proof fn the_latest_is_well_formed(updates: Seq<Option<Instant>>)
    requires
        forall|i: int|
            0 <= i < updates.len() ==> ((#[trigger] updates[i]) matches Some(at) ==> at.wf()),
    ensures
        latest_of(updates).wf(),
    decreases updates.len(),
{
    if updates.len() > 0 {
        let front = updates.drop_last();
        assert forall|i: int| 0 <= i < front.len() implies ((#[trigger] front[i]) matches Some(at)
            ==> at.wf()) by {
            assert(front[i] == updates[i]);
        }
        the_latest_is_well_formed(front);
        assert(updates[updates.len() - 1] == updates.last());
    }
}

/// The answer to a status request from the updates of the tables it reads: the latest of
/// them, which the cache is told too, so that it gives a later request the same latest update,
/// for instants outside leap seconds in the years 0 to 9999.
pub fn status_from_tables(updates: &Vec<Option<Instant>>, last_synced_at: Option<Instant>) -> (read:
    ReadStatus)
    requires
        forall|i: int|
            0 <= i < updates@.len() ==> ((#[trigger] updates@[i]) matches Some(at) ==> at.wf()),
    ensures
        read.response == status(latest_of(updates@), last_synced_at),
        read.to_cache@ == rfc3339_text(latest_of(updates@).secs, latest_of(updates@).nanos),
        FIRST_RFC_SECOND <= latest_of(updates@).secs <= LAST_RFC_SECOND && latest_of(updates@).nanos
            < 1_000_000_000 ==> cached_instant(Some(read.to_cache@)) == Some(latest_of(updates@)),
{
    proof {
        the_latest_is_well_formed(updates@);
    }
    let latest = latest_update(updates);
    ReadStatus {
        response: sync_status(latest, last_synced_at),
        to_cache: timestamp_to_cache(latest),
    }
}

/// A client that synced at the latest update, or later, has nothing to sync.
pub proof fn a_client_that_is_up_to_date_needs_no_sync(latest: Instant, last: Instant)
    requires
        latest == last || last.is_after(latest),
    ensures
        !status(latest, Some(last)).needs_sync,
{
}

/// No table was updated after the latest update, and where one was updated at all the latest
/// update is the update of one.
pub proof fn nothing_is_later_than_the_latest(updates: Seq<Option<Instant>>)
    ensures
        forall|i: int|
            0 <= i < updates.len() ==> ((#[trigger] updates[i]) matches Some(at) ==> !at.is_after(
                latest_of(updates),
            )),
        any_of(updates) ==> updates.contains(Some(latest_of(updates))),
    decreases updates.len(),
{
    if updates.len() > 0 {
        let front = updates.drop_last();
        nothing_is_later_than_the_latest(front);
        let n = updates.len() - 1;
        assert forall|i: int| 0 <= i < updates.len() implies ((#[trigger] updates[i]) matches Some(
            at,
        ) ==> !at.is_after(latest_of(updates))) by {
            if i < n {
                assert(front[i] == updates[i]);
                if updates[i] is Some {
                    assert(any_of(front));
                }
            }
        }
        if any_of(updates) {
            if updates.last() is Some && updates.last() == Some(latest_of(updates)) {
                assert(updates[n] == Some(latest_of(updates)));
            } else {
                let k = choose|k: int| 0 <= k < updates.len() && (#[trigger] updates[k]) is Some;
                if k < n {
                    assert(front[k] is Some);
                }
                assert(any_of(front));
                let j = choose|j: int| 0 <= j < front.len() && front[j] == Some(latest_of(front));
                assert(updates[j] == Some(latest_of(front)));
            }
        }
    }
}

/// A client is told to sync exactly if it has never synced or something was updated after its
/// last sync, and is told when the latest update was.
pub proof fn a_client_is_told_to_sync_if_something_came_later(
    latest: Instant,
    last_synced_at: Option<Instant>,
    response: SyncStatusResponse,
)
    requires
        call_ensures(sync_status, (latest, last_synced_at), response),
    ensures
        response.latest_version == latest,
        response.needs_sync <==> match last_synced_at {
            None => true,
            Some(last) => latest.secs > last.secs || (latest.secs == last.secs && latest.nanos
                > last.nanos),
        },
{
}

/// What each scope's status looks at: the household's scopes at their own collections, the two
/// Keep scopes at configs, and the tablet's own scope and the cloud's at drawings.
pub proof fn a_status_looks_at_what_its_scope_sees(scope: SyncScope, reads: StatusReads)
    requires
        call_ensures(status_reads, (scope,), reads),
    ensures
        match scope {
            SyncScope::All => reads.todo && reads.grocery && !reads.configs && !reads.drawings,
            SyncScope::Todo => reads.todo && !reads.grocery && !reads.configs && !reads.drawings,
            SyncScope::Grocery => !reads.todo && reads.grocery && !reads.configs && !reads.drawings,
            SyncScope::ScribbleBox => !reads.todo && !reads.grocery && !reads.configs
                && reads.drawings,
            SyncScope::ScribbleKeep => !reads.todo && !reads.grocery && reads.configs
                && !reads.drawings,
            SyncScope::ScribbleKeepCloud => !reads.todo && !reads.grocery && reads.configs
                && reads.drawings,
        },
{
}

/// A status is answered out of the cache exactly if the cache holds a timestamp that can be
/// read, and then as the tables would be answered for with that as their latest update.
pub proof fn a_cached_timestamp_answers_for_the_tables(
    cached: Option<&str>,
    scope: SyncScope,
    last_synced_at: Option<Instant>,
    next: StatusStep,
    reads: StatusReads,
    latest: Instant,
    response: SyncStatusResponse,
)
    requires
        call_ensures(status_step, (cached, scope, last_synced_at), next),
        call_ensures(status_reads, (scope,), reads),
        call_ensures(sync_status, (latest, last_synced_at), response),
    ensures
        cached is None ==> next == StatusStep::Read(reads),
        cached matches Some(s) ==> rfc3339_instant(s@) is None ==> next == StatusStep::Read(reads),
        cached matches Some(s) ==> rfc3339_instant(s@) == Some(latest) ==> next
            == StatusStep::Answer(response),
{
}

/// A status read out of the tables is that of the latest of their updates: no table was updated
/// after it, it is the update of one of them where any was updated at all, and the epoch
/// otherwise; and the cache is told that same instant.
pub proof fn a_status_is_that_of_the_latest_update(
    updates: &Vec<Option<Instant>>,
    last_synced_at: Option<Instant>,
    read: ReadStatus,
    i: int,
)
    requires
        call_ensures(status_from_tables, (updates, last_synced_at), read),
    ensures
        ({
            let latest = read.response.latest_version;
            &&& 0 <= i < updates@.len() ==> (updates@[i] matches Some(at) ==> !at.is_after(latest))
            &&& (exists|k: int| 0 <= k < updates@.len() && (#[trigger] updates@[k]) is Some)
                ==> updates@.contains(Some(latest))
            &&& !(exists|k: int| 0 <= k < updates@.len() && (#[trigger] updates@[k]) is Some)
                ==> latest.secs == 0 && latest.nanos == 0
            &&& read.to_cache@ == rfc3339_text(latest.secs, latest.nanos)
            &&& read.response.needs_sync <==> (last_synced_at matches Some(last)
                ==> latest.is_after(last))
        }),
{
    nothing_is_later_than_the_latest(updates@);
    nothing_updated_is_the_epoch(updates@);
}

proof fn nothing_updated_is_the_epoch(updates: Seq<Option<Instant>>)
    ensures
        !any_of(updates) ==> latest_of(updates).secs == 0 && latest_of(updates).nanos == 0,
    decreases updates.len(),
{
    if updates.len() > 0 && !any_of(updates) {
        let front = updates.drop_last();
        assert(updates[updates.len() - 1] == updates.last());
        if any_of(front) {
            let k = choose|k: int| 0 <= k < front.len() && (#[trigger] front[k]) is Some;
            assert(updates[k] is Some);
        }
        nothing_updated_is_the_epoch(front);
    }
}

/// The caches of two users, and of two scopes of one user, are kept under different keys, each
/// of which begins with its user.
pub proof fn each_scope_of_a_user_has_a_cache_of_its_own(
    user: Seq<char>,
    other: Seq<char>,
    scope: SyncScope,
    second: SyncScope,
)
    ensures
        cache_key(user, scope) == cache_key(other, scope) ==> user == other,
        cache_key(user, scope) == cache_key(user, second) ==> scope == second,
{
    let head = "user:"@;
    let tail = ":last_update:"@;
    let n = head.len() as int;
    let name = scope_name(scope);
    assert(cache_key(user, scope) =~= head + user + tail + name);
    if cache_key(user, scope) == cache_key(other, scope) {
        assert(cache_key(user, scope).len() == n + user.len() + tail.len() + name.len());
        assert(cache_key(other, scope).len() == n + other.len() + tail.len() + name.len());
        assert(cache_key(user, scope).subrange(n, n + user.len()) =~= user);
        assert(cache_key(other, scope).subrange(n, n + other.len()) =~= other);
    }
    let from = n + user.len() + tail.len();
    assert(cache_key(user, scope).skip(from) =~= name);
    assert(cache_key(user, second).skip(from) =~= scope_name(second));
    scope_names_are_distinct(scope, second);
}

proof fn scope_names_are_distinct(scope: SyncScope, second: SyncScope)
    ensures
        scope_name(scope) == scope_name(second) ==> scope == second,
{
    reveal_strlit("All");
    reveal_strlit("Todo");
    reveal_strlit("Grocery");
    reveal_strlit("ScribbleBox");
    reveal_strlit("ScribbleKeep");
    reveal_strlit("ScribbleKeepCloud");
    if scope_name(scope) == scope_name(second) {
        assert(scope_name(scope).len() == scope_name(second).len());
        assert(scope_name(scope)[0] == scope_name(second)[0]);
    }
}

/// A status is given for the scope that is asked for, or for everything where none is, exactly
/// if the token reaches it.
pub proof fn a_status_is_given_for_the_scope_asked_for(
    claims: &Claims,
    scope: Option<SyncScope>,
    r: Result<SyncScope, AppError>,
    asked: SyncScope,
    authorized: Result<(), AppError>,
)
    requires
        call_ensures(status_scope, (claims, scope), r),
        asked == (if scope is Some {
            scope->0
        } else {
            SyncScope::All
        }),
        call_ensures(crate::sync::scope_auth::authorize_scope, (claims, asked), authorized),
    ensures
        r is Ok <==> authorized is Ok,
        r matches Ok(given) ==> given == asked,
        r matches Err(e) ==> (authorized matches Err(f) && e@ == f@),
{
}

/// What a status read out of the tables leaves in the cache answers the same request the same
/// way, for instants outside leap seconds in the years 0 to 9999.
pub proof fn the_cache_answers_as_the_tables_did(
    updates: &Vec<Option<Instant>>,
    last_synced_at: Option<Instant>,
    read: ReadStatus,
    cached: &str,
    scope: SyncScope,
    next: StatusStep,
)
    requires
        call_ensures(status_from_tables, (updates, last_synced_at), read),
        FIRST_RFC_SECOND <= read.response.latest_version.secs <= LAST_RFC_SECOND,
        read.response.latest_version.nanos < 1_000_000_000,
        cached@ == read.to_cache@,
        call_ensures(status_step, (Some(cached), scope, last_synced_at), next),
    ensures
        next == StatusStep::Answer(read.response),
{
}

} // verus!
