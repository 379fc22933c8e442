//! Which rows the requests of a client that comes back deliver.
//!
//! A request past the epoch is owed what others wrote after its cursor, so a chain of them is a
//! chain over the rows others wrote, and delivers all of these. A first sync, one without a
//! cursor or with one in the first second of the epoch or before, is owed the client's own
//! rows too. Where its reply is cut short the requests after it are no first syncs any more: of
//! its own rows the client gets those that came with the first reply, and no others, and still
//! everything that others wrote.

use crate::ids::Uuid;
use crate::instant::{initial_sync, instant_at_micros, Instant};
use crate::sync::download::{
    answers, begins, is_page_of, page_bound, DownloadPage, DownloadQuery, Stamped,
};
use crate::sync::grocery::remote_mutations::{
    is_changed_page_of, owed, owed_changes, row_change, Changed, ChangedPage, Downloaded,
};
use crate::sync::resuming::{
    a_changed_page_is_a_link, a_cursor_advances, a_cursor_means_the_same_to_every_table,
    a_cut_is_past_the_cursor, a_page_is_a_link, all_owed, cut_of, cuts_are_the_tables, had,
    had_are_those_not_past, instants_of, is_chain, keys_of, next_cursor, owed_after, rises,
    settles, table_cuts, the_probe_tells, what_is_owed_shrinks,
};
use crate::text::opt_text;
use vstd::prelude::*;

verus! {

/// A row of a table: when it was written, in microseconds, and whether the client itself did.
pub struct Mark {
    pub key: int,
    pub own: bool,
}

/// When the rows of a table were written.
pub open spec fn all_keys(marks: Seq<Mark>) -> Seq<int> {
    marks.map_values(|m: Mark| m.key)
}

/// When the rows were written that others wrote.
pub open spec fn their_keys(marks: Seq<Mark>) -> Seq<int>
    decreases marks.len(),
{
    if marks.len() == 0 {
        seq![]
    } else if marks.last().own {
        their_keys(marks.drop_last())
    } else {
        their_keys(marks.drop_last()).push(marks.last().key)
    }
}

/// Whether a request with this cursor is a first sync.
pub open spec fn is_first(cursor: int) -> bool {
    cursor < 1_000_000
}

/// The rows a request with this cursor reads from: a first sync from all of them, a later one
/// from those that others wrote.
pub open spec fn reads(marks: Seq<Mark>, cursor: int) -> Seq<int> {
    if is_first(cursor) {
        all_keys(marks)
    } else {
        their_keys(marks)
    }
}

/// What a request reads from, table by table.
pub open spec fn read_tables(tables: Seq<Seq<Mark>>, cursor: int) -> Seq<Seq<int>> {
    tables.map_values(|marks: Seq<Mark>| reads(marks, cursor))
}

/// The rows others wrote, table by table.
pub open spec fn their_tables(tables: Seq<Seq<Mark>>) -> Seq<Seq<int>> {
    tables.map_values(|marks: Seq<Mark>| their_keys(marks))
}

/// Whether tables are in the order their rows were written in.
pub open spec fn in_order(tables: Seq<Seq<Mark>>) -> bool {
    forall|t: int| 0 <= t < tables.len() ==> rises(all_keys(#[trigger] tables[t]))
}

/// Whether a client whose first request has the first of `cursors`, and that comes back as
/// told, asks at each of the others in turn, and is told at the last that there is no more.
pub open spec fn is_sync_chain(tables: Seq<Seq<Mark>>, size: int, cursors: Seq<int>) -> bool {
    &&& cursors.len() > 0
    &&& forall|k: int|
        0 <= k < cursors.len() - 1 ==> next_cursor(
            read_tables(tables, #[trigger] cursors[k]),
            cursors[k],
            size,
        ) == Some(cursors[k + 1])
    &&& next_cursor(read_tables(tables, cursors.last()), cursors.last(), size) is None
}

/// Whether a key is among those the reply to a request with this cursor reaches.
pub open spec fn reaches(marks: Seq<Mark>, cursor: int, size: int, key: int) -> bool {
    key > cursor && match cut_of(owed_after(reads(marks, cursor), cursor), size) {
        None => true,
        Some(cut) => key <= cut,
    }
}

/// Whether the reply to a request with this cursor carries row `i`.
pub open spec fn sends(marks: Seq<Mark>, cursor: int, size: int, i: int) -> bool {
    (is_first(cursor) || !marks[i].own) && reaches(marks, cursor, size, marks[i].key)
}

/// What others wrote is in order where everything is, and is what is not the client's own.
proof fn their_keys_are_theirs(marks: Seq<Mark>)
    requires
        rises(all_keys(marks)),
    ensures
        rises(their_keys(marks)),
        forall|j: int|
            0 <= j < their_keys(marks).len() ==> exists|i: int|
                0 <= i < marks.len() && !(#[trigger] marks[i]).own && marks[i].key
                    == #[trigger] their_keys(marks)[j],
    decreases marks.len(),
{
    if marks.len() > 0 {
        let front = marks.drop_last();
        let last = marks.last();
        assert forall|i: int, j: int| 0 <= i <= j < all_keys(front).len() implies all_keys(front)[i]
            <= all_keys(front)[j] by {
            assert(all_keys(marks)[i] <= all_keys(marks)[j]);
        }
        their_keys_are_theirs(front);
        let some = their_keys(front);
        assert forall|j: int| 0 <= j < some.len() implies exists|i: int|
            0 <= i < marks.len() && !(#[trigger] marks[i]).own && marks[i].key
                == #[trigger] some[j] by {
            let i = choose|i: int|
                0 <= i < front.len() && !(#[trigger] front[i]).own && front[i].key == some[j];
            assert(marks[i] == front[i]);
        }
        let all = their_keys(marks);
        assert forall|i: int, j: int| 0 <= i <= j < all.len() implies all[i] <= all[j] by {
            if i < some.len() && j == some.len() {
                let k = choose|k: int|
                    0 <= k < front.len() && !(#[trigger] front[k]).own && front[k].key == some[i];
                assert(all_keys(marks)[k] <= all_keys(marks)[marks.len() - 1]);
            }
        }
        assert forall|j: int| 0 <= j < all.len() implies exists|i: int|
            0 <= i < marks.len() && !(#[trigger] marks[i]).own && marks[i].key
                == #[trigger] all[j] by {
            if j < some.len() {
                assert(all[j] == some[j]);
            } else {
                assert(!marks[marks.len() - 1].own && marks[marks.len() - 1].key == all[j]);
            }
        }
    }
}

proof fn what_is_read_is_in_order(tables: Seq<Seq<Mark>>, cursor: int)
    requires
        in_order(tables),
    ensures
        forall|t: int|
            0 <= t < tables.len() ==> rises(#[trigger] read_tables(tables, cursor)[t]),
        forall|t: int| 0 <= t < tables.len() ==> rises(#[trigger] their_tables(tables)[t]),
{
    assert forall|t: int| 0 <= t < tables.len() implies rises(
        #[trigger] read_tables(tables, cursor)[t],
    ) by {
        their_keys_are_theirs(tables[t]);
    }
    assert forall|t: int| 0 <= t < tables.len() implies rises(#[trigger] their_tables(tables)[t]) by {
        their_keys_are_theirs(tables[t]);
    }
}

proof fn a_sync_chain_ascends(
    tables: Seq<Seq<Mark>>,
    size: int,
    cursors: Seq<int>,
    j: int,
    k: int,
)
    requires
        in_order(tables),
        size >= 0,
        is_sync_chain(tables, size, cursors),
        0 <= j <= k < cursors.len(),
    ensures
        cursors[j] <= cursors[k],
    decreases k - j,
{
    if j < k {
        a_sync_chain_ascends(tables, size, cursors, j, k - 1);
        what_is_read_is_in_order(tables, cursors[k - 1]);
        assert(next_cursor(read_tables(tables, cursors[k - 1]), cursors[k - 1], size) == Some(
            cursors[k - 1 + 1],
        ));
        a_cursor_advances(read_tables(tables, cursors[k - 1]), cursors[k - 1], size);
    }
}

/// The reply that settles a row reaches it.
proof fn settled_by(
    tables: Seq<Seq<Mark>>,
    size: int,
    cursors: Seq<int>,
    k: int,
    t: int,
    key: int,
) -> (j: int)
    requires
        in_order(tables),
        size >= 0,
        is_sync_chain(tables, size, cursors),
        0 <= k < cursors.len(),
        0 <= t < tables.len(),
        key > cursors[k],
    ensures
        k <= j < cursors.len(),
        settles(cursors, j, key),
        reaches(tables[t], cursors[j], size, key),
    decreases cursors.len() - k,
{
    let now = read_tables(tables, cursors[k]);
    what_is_read_is_in_order(tables, cursors[k]);
    assert(now[t] == reads(tables[t], cursors[k]));
    if k + 1 < cursors.len() {
        assert(next_cursor(now, cursors[k], size) == Some(cursors[k + 1]));
        a_cursor_advances(now, cursors[k], size);
        if key <= cursors[k + 1] {
            k
        } else {
            settled_by(tables, size, cursors, k + 1, t, key)
        }
    } else {
        assert(cursors[k] == cursors.last());
        cuts_are_the_tables(now, cursors[k], size);
        if let Some(cut) = cut_of(owed_after(now[t], cursors[k]), size) {
            assert(table_cuts(now, cursors[k], size).contains(cut));
        }
        k
    }
}

/// Everything that others wrote past the cursor a client starts from is delivered, whether it
/// starts with a first sync or not: exactly one of the replies settles a row, and it carries
/// it.
pub proof fn everything_others_wrote_is_delivered(
    tables: Seq<Seq<Mark>>,
    size: int,
    cursors: Seq<int>,
    t: int,
    i: int,
)
    requires
        in_order(tables),
        size >= 0,
        is_sync_chain(tables, size, cursors),
        0 <= t < tables.len(),
        0 <= i < tables[t].len(),
        !tables[t][i].own,
        tables[t][i].key > cursors[0],
    ensures
        exists|k: int|
            0 <= k < cursors.len() && #[trigger] settles(cursors, k, tables[t][i].key) && sends(
                tables[t],
                cursors[k],
                size,
                i,
            ),
        forall|j: int, k: int|
            0 <= j < cursors.len() && 0 <= k < cursors.len() && #[trigger] settles(
                cursors,
                j,
                tables[t][i].key,
            ) && #[trigger] settles(cursors, k, tables[t][i].key) ==> j == k,
{
    let key = tables[t][i].key;
    let k = settled_by(tables, size, cursors, 0, t, key);
    assert(settles(cursors, k, key) && sends(tables[t], cursors[k], size, i));
    assert forall|j: int, k: int|
        0 <= j < k < cursors.len() && #[trigger] settles(cursors, j, key) implies !(
        #[trigger] settles(cursors, k, key)) by {
        a_sync_chain_ascends(tables, size, cursors, j + 1, k);
    }
}

/// A chain that starts past the epoch is a chain over the rows others wrote.
pub proof fn a_later_sync_reads_what_others_wrote(
    tables: Seq<Seq<Mark>>,
    size: int,
    cursors: Seq<int>,
)
    requires
        in_order(tables),
        size >= 0,
        is_sync_chain(tables, size, cursors),
        !is_first(cursors[0]),
    ensures
        is_chain(their_tables(tables), size, cursors),
        forall|k: int|
            0 <= k < cursors.len() ==> read_tables(tables, #[trigger] cursors[k]) == their_tables(
                tables,
            ),
{
    assert forall|k: int| 0 <= k < cursors.len() implies read_tables(tables, #[trigger] cursors[k])
        == their_tables(tables) by {
        a_sync_chain_ascends(tables, size, cursors, 0, k);
        assert(read_tables(tables, cursors[k]) =~= their_tables(tables));
    }
    assert(read_tables(tables, cursors[cursors.len() - 1]) == their_tables(tables));
    assert forall|k: int| 0 <= k < cursors.len() - 1 implies #[trigger] next_cursor(
        their_tables(tables),
        cursors[k],
        size,
    ) == Some(cursors[k + 1]) by {
        assert(read_tables(tables, cursors[k]) == their_tables(tables));
    }
}

/// What a chain delivers that begins with a first sync, out of tables written after the first
/// second of the epoch. The first reply carries the client's own rows like any others, up to
/// where it was cut; no later reply carries one. A first reply that was not cut carries
/// everything. The replies after a cut one are a chain over the rows others wrote.
pub proof fn what_a_first_sync_delivers(tables: Seq<Seq<Mark>>, size: int, cursors: Seq<int>)
    requires
        in_order(tables),
        size >= 0,
        is_sync_chain(tables, size, cursors),
        is_first(cursors[0]),
        forall|t: int, i: int|
            0 <= t < tables.len() && 0 <= i < tables[t].len() ==> !is_first(
                (#[trigger] tables[t][i]).key,
            ),
    ensures
        forall|t: int, i: int|
            0 <= t < tables.len() && 0 <= i < tables[t].len() ==> (sends(
                #[trigger] tables[t],
                cursors[0],
                size,
                i,
            ) <==> reaches(tables[t], cursors[0], size, (#[trigger] tables[t][i]).key)),
        forall|t: int, i: int, k: int|
            0 <= t < tables.len() && 0 <= i < tables[t].len() && 0 < k < cursors.len()
                && tables[t][i].own ==> !#[trigger] sends(tables[t], cursors[k], size, i),
        cursors.len() == 1 ==> forall|t: int, i: int|
            0 <= t < tables.len() && 0 <= i < tables[t].len() && tables[t][i].key > cursors[0]
                ==> #[trigger] sends(tables[t], cursors[0], size, i),
        cursors.len() > 1 ==> is_chain(their_tables(tables), size, cursors.skip(1)),
{
    if cursors.len() == 1 {
        assert forall|t: int, i: int|
            0 <= t < tables.len() && 0 <= i < tables[t].len() && tables[t][i].key
                > cursors[0] implies #[trigger] sends(tables[t], cursors[0], size, i) by {
            let k = settled_by(tables, size, cursors, 0, t, tables[t][i].key);
        }
    } else {
        let now = read_tables(tables, cursors[0]);
        what_is_read_is_in_order(tables, cursors[0]);
        assert(next_cursor(now, cursors[0], size) == Some(cursors[1]));
        a_cursor_advances(now, cursors[0], size);
        let t = choose|t: int|
            0 <= t < now.len() && cut_of(owed_after(#[trigger] now[t], cursors[0]), size) == Some(
                cursors[1],
            );
        let at = a_cut_is_past_the_cursor(now[t], cursors[0], size);
        assert(now[t][at] == tables[t][at].key);
        assert(!is_first(cursors[1]));
        let rest = cursors.skip(1);
        assert forall|k: int| 0 <= k < rest.len() - 1 implies next_cursor(
            read_tables(tables, #[trigger] rest[k]),
            rest[k],
            size,
        ) == Some(rest[k + 1]) by {
            assert(rest[k] == cursors[k + 1]);
            assert(next_cursor(read_tables(tables, cursors[k + 1]), cursors[k + 1], size) == Some(
                cursors[k + 1 + 1],
            ));
        }
        assert(rest.last() == cursors.last());
        a_later_sync_reads_what_others_wrote(tables, size, rest);
        assert forall|t: int, i: int, k: int|
            0 <= t < tables.len() && 0 <= i < tables[t].len() && 0 < k < cursors.len()
                && tables[t][i].own implies !#[trigger] sends(tables[t], cursors[k], size, i) by {
            a_sync_chain_ascends(tables, size, cursors, 1, k);
        }
    }
}

/// Coming back comes to an end, from a first sync as from any other.
pub proof fn a_sync_chain_ends(tables: Seq<Seq<Mark>>, size: int, cursor: int)
    requires
        in_order(tables),
        size >= 0,
    ensures
        exists|cursors: Seq<int>| #[trigger]
            is_sync_chain(tables, size, cursors) && cursors[0] == cursor,
    decreases all_owed(every_table(tables), cursor),
{
    let now = read_tables(tables, cursor);
    what_is_read_is_in_order(tables, cursor);
    match next_cursor(now, cursor, size) {
        None => {
            assert(is_sync_chain(tables, size, seq![cursor]));
        },
        Some(next) => {
            a_cursor_advances(now, cursor, size);
            let t = choose|t: int|
                0 <= t < now.len() && cut_of(owed_after(#[trigger] now[t], cursor), size) == Some(
                    next,
                );
            let at = a_cut_is_past_the_cursor(now[t], cursor, size);
            let all = every_table(tables);
            assert forall|t: int| 0 <= t < all.len() implies rises(#[trigger] all[t]) by {
                assert(rises(all_keys(tables[t])));
            }
            let i = if is_first(cursor) {
                at
            } else {
                their_keys_are_theirs(tables[t]);
                choose|i: int|
                    0 <= i < tables[t].len() && !(#[trigger] tables[t][i]).own && tables[t][i].key
                        == their_keys(tables[t])[at]
            };
            assert(all[t][i] == next);
            had_are_those_not_past(all[t], cursor);
            what_is_owed_shrinks(all, cursor, next);
            a_sync_chain_ends(tables, size, next);
            let rest = choose|cursors: Seq<int>| #[trigger]
                is_sync_chain(tables, size, cursors) && cursors[0] == next;
            let cursors = seq![cursor] + rest;
            assert forall|k: int| 0 <= k < cursors.len() - 1 implies next_cursor(
                read_tables(tables, #[trigger] cursors[k]),
                cursors[k],
                size,
            ) == Some(cursors[k + 1]) by {
                if k > 0 {
                    assert(cursors[k] == rest[k - 1]);
                    assert(next_cursor(read_tables(tables, rest[k - 1]), rest[k - 1], size) == Some(
                        rest[k - 1 + 1],
                    ));
                }
            }
            assert(cursors.last() == rest.last());
            assert(is_sync_chain(tables, size, cursors));
        },
    }
}

/// When the rows were written, table by table.
pub open spec fn every_table(tables: Seq<Seq<Mark>>) -> Seq<Seq<int>> {
    tables.map_values(|marks: Seq<Mark>| all_keys(marks))
}

/// The cursor a client sends, in microseconds: one that has none starts from the epoch.
pub open spec fn cursor_of(since: Option<Instant>) -> int {
    match since {
        Some(at) => at.spec_micros(),
        None => 0,
    }
}

/// Whether an instant is one a table can hold: one of the calendar in whole microseconds, and
/// no leap second.
pub open spec fn is_storable(at: Instant) -> bool {
    at.wf() && at.nanos < 1_000_000_000 && at.nanos % 1000 == 0
}

/// A request is a first sync by its cursor in microseconds exactly if it is by its instant,
/// outside leap seconds.
pub proof fn a_first_sync_is_one_in_microseconds(since: Option<Instant>)
    requires
        since matches Some(at) ==> at.nanos < 1_000_000_000,
    ensures
        initial_sync(since) <==> is_first(cursor_of(since)),
{
}

/// One more row at the end of a table is owed exactly if it is past the cursor, and if it is
/// not nothing is.
proof fn one_more_is_owed(keys: Seq<int>, key: int, cursor: int)
    requires
        rises(keys.push(key)),
    ensures
        owed_after(keys.push(key), cursor) == (if key <= cursor {
            seq![]
        } else {
            owed_after(keys, cursor).push(key)
        }),
        key <= cursor ==> owed_after(keys, cursor).len() == 0,
{
    let more = keys.push(key);
    assert(more.drop_last() =~= keys);
    assert forall|i: int, j: int| 0 <= i <= j < keys.len() implies keys[i] <= keys[j] by {
        assert(more[i] <= more[j]);
    }
    had_are_those_not_past(keys, cursor);
    had_are_those_not_past(more, cursor);
    if key <= cursor {
        if had(keys, cursor) < keys.len() {
            let h = had(keys, cursor) as int;
            assert(more[h] <= more[keys.len() as int]);
            assert(keys[h] > cursor);
        }
        assert(owed_after(more, cursor) =~= seq![]);
    } else {
        assert(owed_after(more, cursor) =~= owed_after(keys, cursor).push(key));
    }
}

/// One more row at the end of a table is read by a first sync, and by a later one where
/// somebody else wrote it.
proof fn one_more_is_read(marks: Seq<Mark>, m: Mark, cursor: int)
    requires
        rises(all_keys(marks.push(m))),
    ensures
        rises(all_keys(marks)),
        rises(reads(marks.push(m), cursor)),
        reads(marks.push(m), cursor) == (if is_first(cursor) || !m.own {
            reads(marks, cursor).push(m.key)
        } else {
            reads(marks, cursor)
        }),
{
    let more = marks.push(m);
    assert(more.drop_last() =~= marks);
    assert(all_keys(more) =~= all_keys(marks).push(m.key));
    assert forall|i: int, j: int| 0 <= i <= j < all_keys(marks).len() implies all_keys(marks)[i]
        <= all_keys(marks)[j] by {
        assert(all_keys(more)[i] <= all_keys(more)[j]);
    }
    their_keys_are_theirs(more);
}

/// The rows of a table that stamps them by instant, as a client sees them.
pub open spec fn marks_of_changed<T>(rows: Seq<Changed<T>>, client: Seq<char>) -> Seq<Mark> {
    rows.map_values(
        |c: Changed<T>|
            Mark {
                key: c.updated_at.spec_micros(),
                own: opt_text(c.updated_by_client) == Some(client),
            },
    )
}

/// The rows a client is owed out of a table that stamps them by instant.
pub open spec fn owed_rows<T>(
    rows: Seq<Changed<T>>,
    since: Option<Instant>,
    client: Seq<char>,
) -> Seq<Changed<T>>
    decreases rows.len(),
{
    if rows.len() == 0 {
        seq![]
    } else if owed(rows.last(), since, client) {
        owed_rows(rows.drop_last(), since, client).push(rows.last())
    } else {
        owed_rows(rows.drop_last(), since, client)
    }
}

/// What a request is owed out of a table that stamps its rows by instant is what the chain
/// says: past the epoch the rows others wrote after the cursor, and on a first sync all of
/// them, where they were written after its cursor.
pub proof fn the_owed_rows_are_the_chains<T>(
    rows: Seq<Changed<T>>,
    since: Option<Instant>,
    client: Seq<char>,
)
    requires
        rises(instants_of(rows)),
        forall|i: int| 0 <= i < rows.len() ==> is_storable((#[trigger] rows[i]).updated_at),
        since matches Some(at) ==> at.nanos < 1_000_000_000,
        initial_sync(since) ==> forall|i: int|
            0 <= i < rows.len() ==> (#[trigger] rows[i]).updated_at.spec_micros() > cursor_of(
                since,
            ),
    ensures
        instants_of(owed_rows(rows, since, client)) == owed_after(
            reads(marks_of_changed(rows, client), cursor_of(since)),
            cursor_of(since),
        ),
    decreases rows.len(),
{
    let cursor = cursor_of(since);
    let marks = marks_of_changed(rows, client);
    if rows.len() == 0 {
        assert(instants_of(owed_rows(rows, since, client)) =~= seq![]);
        assert(reads(marks, cursor) =~= seq![]);
        assert(owed_after(reads(marks, cursor), cursor) =~= seq![]);
    } else {
        let front = rows.drop_last();
        let last = rows.last();
        let some = marks_of_changed(front, client);
        let m = marks.last();
        assert(marks =~= some.push(m));
        assert(all_keys(marks) =~= instants_of(rows));
        one_more_is_read(some, m, cursor);
        assert(all_keys(some) =~= instants_of(front));
        assert forall|i: int| 0 <= i < front.len() implies is_storable(
            (#[trigger] front[i]).updated_at,
        ) && (initial_sync(since) ==> front[i].updated_at.spec_micros() > cursor) by {
            assert(front[i] == rows[i]);
        }
        the_owed_rows_are_the_chains(front, since, client);
        let mine = owed_rows(front, since, client);
        assert(rows[rows.len() - 1] == last);
        if is_first(cursor) || !m.own {
            one_more_is_owed(reads(some, cursor), m.key, cursor);
        }
        if !initial_sync(since) {
            let at = since->0;
            later_in_microseconds(last.updated_at, at);
        }
        if owed(last, since, client) {
            assert(instants_of(mine.push(last)) =~= instants_of(mine).push(m.key));
        } else if !m.own {
            assert(instants_of(mine) =~= seq![]);
        }
    }
}

/// A row comes after a cursor exactly if it does in microseconds.
proof fn later_in_microseconds(row: Instant, at: Instant)
    requires
        is_storable(row),
        at.nanos < 1_000_000_000,
    ensures
        row.is_after(at) <==> row.spec_micros() > at.spec_micros(),
{
    let n = row.nanos as int;
    assert(n == (n / 1000) * 1000);
}

/// What is owed is sent: a reply leaves out none of the rows it read.
pub proof fn what_is_owed_is_sent<T: Downloaded>(
    rows: Seq<Changed<T>>,
    since: Option<Instant>,
    client: Seq<char>,
)
    ensures
        owed_changes(rows, since, client) == owed_rows(rows, since, client).map_values(
            |c: Changed<T>| row_change(c.row),
        ),
    decreases rows.len(),
{
    let sent = |c: Changed<T>| row_change(c.row);
    if rows.len() == 0 {
        assert(owed_rows(rows, since, client).map_values(sent) =~= seq![]);
    } else {
        let front = rows.drop_last();
        what_is_owed_is_sent(front, since, client);
        let mine = owed_rows(front, since, client);
        assert(mine.push(rows.last()).map_values(sent) =~= mine.map_values(sent).push(
            row_change(rows.last().row),
        ));
    }
}

/// The rows of a table that stamps them in milliseconds, as a client sees them.
pub open spec fn marks_of_stamped<T: Stamped>(rows: Seq<T>, client: Uuid) -> Seq<Mark> {
    rows.map_values(
        |row: T| Mark { key: row.stamp() as int * 1000, own: row.writer() == client },
    )
}

/// The rows that answer a read on behalf of a client.
pub open spec fn answering<T: Stamped>(rows: Seq<T>, query: DownloadQuery, client: Uuid) -> Seq<T>
    decreases rows.len(),
{
    if rows.len() == 0 {
        seq![]
    } else if answers(rows.last(), query, client) {
        answering(rows.drop_last(), query, client).push(rows.last())
    } else {
        answering(rows.drop_last(), query, client)
    }
}

/// What the read a download begins with finds is what the chain says: past the epoch the rows
/// others wrote after the cursor, and on a first sync everything after it.
pub proof fn the_rows_read_are_the_chains<T: Stamped>(
    rows: Seq<T>,
    query: DownloadQuery,
    since: Option<Instant>,
    page_size: Option<usize>,
    client: Uuid,
)
    requires
        rises(keys_of(rows)),
        begins(query, since, page_size),
        since matches Some(at) ==> at.nanos < 1_000_000_000,
    ensures
        keys_of(answering(rows, query, client)) == owed_after(
            reads(marks_of_stamped(rows, client), cursor_of(since)),
            cursor_of(since),
        ),
    decreases rows.len(),
{
    let cursor = cursor_of(since);
    let marks = marks_of_stamped(rows, client);
    if rows.len() == 0 {
        assert(keys_of(answering(rows, query, client)) =~= seq![]);
        assert(reads(marks, cursor) =~= seq![]);
        assert(owed_after(reads(marks, cursor), cursor) =~= seq![]);
    } else {
        let front = rows.drop_last();
        let last = rows.last();
        let some = marks_of_stamped(front, client);
        let m = marks.last();
        assert(marks =~= some.push(m));
        assert(all_keys(marks) =~= keys_of(rows));
        one_more_is_read(some, m, cursor);
        assert(all_keys(some) =~= keys_of(front));
        the_rows_read_are_the_chains(front, query, since, page_size, client);
        let found = answering(front, query, client);
        if is_first(cursor) || !m.own {
            one_more_is_owed(reads(some, cursor), m.key, cursor);
        }
        if let Some(at) = since {
            a_cursor_means_the_same_to_every_table(at, last.stamp());
        }
        if answers(last, query, client) {
            assert(keys_of(found.push(last)) =~= keys_of(found).push(m.key));
        } else if is_first(cursor) || !m.own {
            assert(keys_of(found) =~= seq![]);
        }
    }
}

/// As many rows as a read is limited to, from the front.
pub open spec fn limited<T>(rows: Seq<T>, limit: int) -> Seq<T> {
    rows.take(if limit < rows.len() {
        limit
    } else {
        rows.len() as int
    })
}

/// Rows left out of a read past its limit do not count among those a client has had at a key
/// below one that was read.
proof fn a_limit_hides_nothing_in_front(keys: Seq<int>, limit: int, at: int, key: int)
    requires
        rises(keys),
        0 <= at < limit,
        at < keys.len(),
        key < keys[at],
    ensures
        rises(limited(keys, limit)),
        had(limited(keys, limit), key) == had(keys, key),
        had(keys, key) <= at,
{
    let some = limited(keys, limit);
    assert forall|i: int, j: int| 0 <= i <= j < some.len() implies some[i] <= some[j] by {
        assert(keys[i] <= keys[j]);
    }
    had_are_those_not_past(keys, key);
    had_are_those_not_past(some, key);
    assert(some[at] == keys[at]);
    let a = had(keys, key) as int;
    let b = had(some, key) as int;
    if a < b {
        assert(some[a] <= key);
        assert(keys[a] == some[a]);
    }
    if b < a {
        assert(keys[b] <= key);
        assert(some[b] == keys[b]);
    }
}

/// Reading one millisecond whole finds the front of what the first read was owed, where nothing
/// in it is earlier.
proof fn a_second_read_finds_the_front<T: Stamped>(
    rows: Seq<T>,
    query: DownloadQuery,
    again: DownloadQuery,
    client: Uuid,
    ms: i64,
)
    requires
        rises(keys_of(rows)),
        query.through_ms is None,
        query.after_ms < ms,
        again.after_ms == ms - 1,
        again.through_ms == Some(ms),
        again.include_own == query.include_own,
        forall|i: int|
            0 <= i < answering(rows, query, client).len() ==> (#[trigger] answering(
                rows,
                query,
                client,
            )[i]).stamp() >= ms,
    ensures
        rises(keys_of(answering(rows, query, client))),
        forall|i: int|
            0 <= i < answering(rows, query, client).len() && rows.len() > 0 ==> (
            #[trigger] answering(rows, query, client)[i]).stamp() <= rows.last().stamp(),
        answering(rows, again, client) == answering(rows, query, client).take(
            had(keys_of(answering(rows, query, client)), ms * 1000) as int,
        ),
    decreases rows.len(),
{
    let read = answering(rows, query, client);
    if rows.len() == 0 {
        assert(read.take(had(keys_of(read), ms * 1000) as int) =~= seq![]);
    } else {
        let front = rows.drop_last();
        let last = rows.last();
        let some = answering(front, query, client);
        assert forall|i: int, j: int| 0 <= i <= j < keys_of(front).len() implies keys_of(front)[i]
            <= keys_of(front)[j] by {
            assert(keys_of(rows)[i] <= keys_of(rows)[j]);
        }
        assert forall|i: int| 0 <= i < some.len() implies (#[trigger] some[i]).stamp() >= ms by {
            assert(read[i] == some[i]);
        }
        a_second_read_finds_the_front(front, query, again, client, ms);
        assert forall|i: int| 0 <= i < some.len() implies (#[trigger] some[i]).stamp()
            <= last.stamp() by {
            if front.len() > 0 {
                assert(keys_of(rows)[front.len() - 1] <= keys_of(rows)[rows.len() - 1]);
                assert(front.last() == rows[front.len() - 1]);
            }
        }
        if answers(last, query, client) {
            assert(read[some.len() as int] == last);
            let keys = keys_of(some);
            let more = keys_of(read);
            assert(more =~= keys.push(last.stamp() as int * 1000));
            assert forall|i: int, j: int| 0 <= i <= j < more.len() implies more[i] <= more[j] by {
                if j < keys.len() {
                    assert(keys[i] <= keys[j]);
                } else if i < keys.len() {
                    assert(some[i].stamp() <= last.stamp());
                }
            }
            assert(more.drop_last() =~= keys);
            had_are_those_not_past(keys, ms * 1000);
            had_are_those_not_past(more, ms * 1000);
            if last.stamp() == ms {
                if had(keys, ms * 1000) < keys.len() {
                    let h = had(keys, ms * 1000) as int;
                    assert(some[h].stamp() <= last.stamp());
                }
                assert(some.take(some.len() as int) =~= some);
                assert(read.take(read.len() as int) =~= read);
            } else {
                assert(read.take(had(keys, ms * 1000) as int) =~= some.take(
                    had(keys, ms * 1000) as int,
                ));
            }
        }
    }
}

/// What a reply serves of a table that stamps its rows in milliseconds is what the chain says
/// it sends: what the client is owed, up to the chain's cut, whether in one read or in two.
pub proof fn a_served_page_is_the_chains<T: Stamped>(
    rows: Seq<T>,
    query: DownloadQuery,
    since: Option<Instant>,
    page_size: Option<usize>,
    client: Uuid,
    page: DownloadPage<T>,
)
    requires
        rises(keys_of(rows)),
        begins(query, since, page_size),
        since matches Some(at) ==> at.nanos < 1_000_000_000,
        page_bound(page_size) < query.limit,
        is_page_of(
            limited(answering(rows, query, client), query.limit as int),
            query,
            page_size,
            page,
        ),
    ensures
        ({
            let read = answering(rows, query, client);
            let cut = cut_of(
                owed_after(
                    reads(marks_of_stamped(rows, client), cursor_of(since)),
                    cursor_of(since),
                ),
                page_bound(page_size) as int,
            );
            match page {
                DownloadPage::Serve { rows: kept, next_cursor_ms: None } => cut is None && kept@
                    == read,
                DownloadPage::Serve { rows: kept, next_cursor_ms: Some(ms) } => cut == Some(
                    ms * 1000,
                ) && kept@ == read.take(had(keys_of(read), ms * 1000) as int),
                DownloadPage::Reread { query: again, ms } => cut == Some(ms * 1000) && answering(
                    rows,
                    again,
                    client,
                ) == read.take(had(keys_of(read), ms * 1000) as int),
            }
        }),
{
    let read = answering(rows, query, client);
    let limit = query.limit as int;
    let size = page_bound(page_size) as int;
    let first = limited(read, limit);
    let keys = keys_of(read);
    the_rows_read_are_the_chains(rows, query, since, page_size, client);
    let table = reads(marks_of_stamped(rows, client), cursor_of(since));
    assert(rises(keys)) by {
        assert(all_keys(marks_of_stamped(rows, client)) =~= keys_of(rows));
        their_keys_are_theirs(marks_of_stamped(rows, client));
        had_are_those_not_past(table, cursor_of(since));
        assert forall|i: int, j: int| 0 <= i <= j < keys.len() implies keys[i] <= keys[j] by {
            let h = had(table, cursor_of(since)) as int;
            assert(keys[i] == table[h + i] && keys[j] == table[h + j]);
        }
    }
    assert(keys_of(first) =~= limited(keys, limit));
    assert forall|i: int, j: int| 0 <= i <= j < keys_of(first).len() implies keys_of(first)[i]
        <= keys_of(first)[j] by {
        assert(keys[i] <= keys[j]);
    }
    the_probe_tells(keys, size, limit);
    a_page_is_a_link(first, query, page_size, page);
    match page {
        DownloadPage::Serve { rows: kept, next_cursor_ms: None } => {
            assert(first =~= read);
        },
        DownloadPage::Serve { rows: kept, next_cursor_ms: Some(ms) } => {
            assert(first[size] == read[size]);
            assert(ms * 1000 < keys[size]);
            a_limit_hides_nothing_in_front(keys, limit, size, ms * 1000);
            let n = had(keys, ms * 1000) as int;
            assert(kept@ =~= read.take(n));
        },
        DownloadPage::Reread { query: again, ms } => {
            assert(first[size] == read[size]);
            every_answer_answers(rows, query, client);
            assert(answers(read[size], query, client));
            assert forall|i: int| 0 <= i < read.len() implies (#[trigger] read[i]).stamp()
                >= ms by {
                if i < size {
                    assert(first[i] == read[i]);
                } else {
                    assert(keys[size] <= keys[i]);
                }
            }
            a_second_read_finds_the_front(rows, query, again, client, ms);
        },
    }
}

proof fn every_answer_answers<T: Stamped>(rows: Seq<T>, query: DownloadQuery, client: Uuid)
    ensures
        forall|i: int|
            0 <= i < answering(rows, query, client).len() ==> answers(
                #[trigger] answering(rows, query, client)[i],
                query,
                client,
            ),
    decreases rows.len(),
{
    if rows.len() > 0 {
        every_answer_answers(rows.drop_last(), query, client);
        let some = answering(rows.drop_last(), query, client);
        let read = answering(rows, query, client);
        assert forall|i: int| 0 <= i < read.len() implies answers(
            #[trigger] read[i],
            query,
            client,
        ) by {
            if i < some.len() {
                assert(read[i] == some[i]);
            }
        }
    }
}

/// The rows a client is owed that were written at one instant.
pub open spec fn owed_at<T>(
    rows: Seq<Changed<T>>,
    since: Option<Instant>,
    client: Seq<char>,
    at: Instant,
) -> Seq<Changed<T>>
    decreases rows.len(),
{
    if rows.len() == 0 {
        seq![]
    } else if owed(rows.last(), since, client) && rows.last().updated_at == at {
        owed_at(rows.drop_last(), since, client, at).push(rows.last())
    } else {
        owed_at(rows.drop_last(), since, client, at)
    }
}

/// An instant a table can hold is told apart from others by its microseconds.
proof fn storable_by_microseconds(one: Instant, other: Instant)
    requires
        is_storable(one),
        is_storable(other),
    ensures
        instant_at_micros(one.spec_micros()) == Some(one),
        one.spec_micros() == other.spec_micros() ==> one == other,
{
    let n = one.nanos as int;
    let m = other.nanos as int;
    assert(n == (n / 1000) * 1000 && m == (m / 1000) * 1000);
    assert(0 <= n / 1000 < 1_000_000 && 0 <= m / 1000 < 1_000_000);
    let us = one.spec_micros();
    assert(us / 1_000_000 == one.secs && us % 1_000_000 == n / 1000);
}

proof fn what_is_owed_is_storable<T>(
    rows: Seq<Changed<T>>,
    since: Option<Instant>,
    client: Seq<char>,
)
    requires
        forall|i: int| 0 <= i < rows.len() ==> is_storable((#[trigger] rows[i]).updated_at),
    ensures
        forall|i: int|
            0 <= i < owed_rows(rows, since, client).len() ==> is_storable(
                (#[trigger] owed_rows(rows, since, client)[i]).updated_at,
            ),
    decreases rows.len(),
{
    if rows.len() > 0 {
        let front = rows.drop_last();
        assert forall|i: int| 0 <= i < front.len() implies is_storable(
            (#[trigger] front[i]).updated_at,
        ) by {
            assert(front[i] == rows[i]);
        }
        what_is_owed_is_storable(front, since, client);
        let some = owed_rows(front, since, client);
        let mine = owed_rows(rows, since, client);
        assert forall|i: int| 0 <= i < mine.len() implies is_storable(
            (#[trigger] mine[i]).updated_at,
        ) by {
            if i < some.len() {
                assert(mine[i] == some[i]);
            } else {
                assert(mine[i] == rows[rows.len() - 1]);
            }
        }
    }
}

/// Reading one instant whole finds the front of what a client is owed, where nothing in it is
/// earlier.
proof fn one_instant_is_the_front<T>(
    rows: Seq<Changed<T>>,
    since: Option<Instant>,
    client: Seq<char>,
    at: Instant,
)
    requires
        rises(instants_of(rows)),
        is_storable(at),
        forall|i: int| 0 <= i < rows.len() ==> is_storable((#[trigger] rows[i]).updated_at),
        forall|i: int|
            0 <= i < owed_rows(rows, since, client).len() ==> (#[trigger] owed_rows(
                rows,
                since,
                client,
            )[i]).updated_at.spec_micros() >= at.spec_micros(),
    ensures
        rises(instants_of(owed_rows(rows, since, client))),
        forall|i: int|
            0 <= i < owed_rows(rows, since, client).len() && rows.len() > 0 ==> (
            #[trigger] owed_rows(rows, since, client)[i]).updated_at.spec_micros()
                <= rows.last().updated_at.spec_micros(),
        owed_at(rows, since, client, at) == owed_rows(rows, since, client).take(
            had(instants_of(owed_rows(rows, since, client)), at.spec_micros()) as int,
        ),
    decreases rows.len(),
{
    let mine = owed_rows(rows, since, client);
    let us = at.spec_micros();
    if rows.len() == 0 {
        assert(mine.take(had(instants_of(mine), us) as int) =~= seq![]);
    } else {
        let front = rows.drop_last();
        let last = rows.last();
        let some = owed_rows(front, since, client);
        assert forall|i: int, j: int|
            0 <= i <= j < instants_of(front).len() implies instants_of(front)[i] <= instants_of(
            front,
        )[j] by {
            assert(instants_of(rows)[i] <= instants_of(rows)[j]);
        }
        assert forall|i: int| 0 <= i < front.len() implies is_storable(
            (#[trigger] front[i]).updated_at,
        ) by {
            assert(front[i] == rows[i]);
        }
        assert forall|i: int| 0 <= i < some.len() implies (
        #[trigger] some[i]).updated_at.spec_micros() >= us by {
            assert(mine[i] == some[i]);
        }
        one_instant_is_the_front(front, since, client, at);
        assert forall|i: int| 0 <= i < some.len() implies (
        #[trigger] some[i]).updated_at.spec_micros() <= last.updated_at.spec_micros() by {
            if front.len() > 0 {
                assert(instants_of(rows)[front.len() - 1] <= instants_of(rows)[rows.len() - 1]);
                assert(front.last() == rows[front.len() - 1]);
            }
        }
        assert(is_storable(rows[rows.len() - 1].updated_at));
        storable_by_microseconds(last.updated_at, at);
        if owed(last, since, client) {
            assert(mine[some.len() as int] == last);
            let keys = instants_of(some);
            let more = instants_of(mine);
            assert(more =~= keys.push(last.updated_at.spec_micros()));
            assert forall|i: int, j: int| 0 <= i <= j < more.len() implies more[i] <= more[j] by {
                if j < keys.len() {
                    assert(keys[i] <= keys[j]);
                } else if i < keys.len() {
                    assert(some[i].updated_at.spec_micros() <= last.updated_at.spec_micros());
                }
            }
            assert(more.drop_last() =~= keys);
            had_are_those_not_past(keys, us);
            had_are_those_not_past(more, us);
            if last.updated_at == at {
                if had(keys, us) < keys.len() {
                    let h = had(keys, us) as int;
                    assert(some[h].updated_at.spec_micros() <= last.updated_at.spec_micros());
                }
                assert(some.take(some.len() as int) =~= some);
                assert(mine.take(mine.len() as int) =~= mine);
            } else {
                assert(mine.take(had(keys, us) as int) =~= some.take(had(keys, us) as int));
            }
        }
    }
}

/// What a reply serves of a table that stamps its rows by instant is what the chain says it
/// sends: what the client is owed, up to the chain's cut, whether in one read or in two.
pub proof fn a_served_page_of_instants_is_the_chains<T>(
    rows: Seq<Changed<T>>,
    since: Option<Instant>,
    client: Seq<char>,
    page_size: Option<usize>,
    limit: int,
    now: Instant,
    page: ChangedPage<T>,
)
    requires
        rises(instants_of(rows)),
        forall|i: int| 0 <= i < rows.len() ==> is_storable((#[trigger] rows[i]).updated_at),
        since matches Some(at) ==> at.nanos < 1_000_000_000,
        initial_sync(since) ==> forall|i: int|
            0 <= i < rows.len() ==> (#[trigger] rows[i]).updated_at.spec_micros() > cursor_of(
                since,
            ),
        page_bound(page_size) < limit,
        is_changed_page_of(limited(owed_rows(rows, since, client), limit), page_size, now, page),
    ensures
        ({
            let mine = owed_rows(rows, since, client);
            let cut = cut_of(
                owed_after(
                    reads(marks_of_changed(rows, client), cursor_of(since)),
                    cursor_of(since),
                ),
                page_bound(page_size) as int,
            );
            match page {
                ChangedPage::Serve { rows: kept, next_cursor: None } => cut is None && kept@ == mine,
                ChangedPage::Serve { rows: kept, next_cursor: Some(at) } => cut == Some(
                    at.spec_micros(),
                ) && kept@ == mine.take(had(instants_of(mine), at.spec_micros()) as int),
                ChangedPage::Reread { at } => cut == Some(at.spec_micros()) && owed_at(
                    rows,
                    since,
                    client,
                    at,
                ) == mine.take(had(instants_of(mine), at.spec_micros()) as int),
            }
        }),
{
    let mine = owed_rows(rows, since, client);
    let size = page_bound(page_size) as int;
    let first = limited(mine, limit);
    let keys = instants_of(mine);
    the_owed_rows_are_the_chains(rows, since, client);
    what_is_owed_is_storable(rows, since, client);
    let table = reads(marks_of_changed(rows, client), cursor_of(since));
    assert(rises(keys)) by {
        assert(all_keys(marks_of_changed(rows, client)) =~= instants_of(rows));
        their_keys_are_theirs(marks_of_changed(rows, client));
        had_are_those_not_past(table, cursor_of(since));
        assert forall|i: int, j: int| 0 <= i <= j < keys.len() implies keys[i] <= keys[j] by {
            let h = had(table, cursor_of(since)) as int;
            assert(keys[i] == table[h + i] && keys[j] == table[h + j]);
        }
    }
    assert(instants_of(first) =~= limited(keys, limit));
    assert forall|i: int, j: int| 0 <= i <= j < instants_of(first).len() implies instants_of(
        first,
    )[i] <= instants_of(first)[j] by {
        assert(keys[i] <= keys[j]);
    }
    assert forall|i: int| 0 <= i < first.len() implies instant_at_micros(
        (#[trigger] first[i]).updated_at.spec_micros(),
    ) is Some by {
        assert(first[i] == mine[i]);
        storable_by_microseconds(mine[i].updated_at, mine[i].updated_at);
    }
    the_probe_tells(keys, size, limit);
    a_changed_page_is_a_link(first, page_size, now, page);
    match page {
        ChangedPage::Serve { rows: kept, next_cursor: None } => {
            assert(first =~= mine);
        },
        ChangedPage::Serve { rows: kept, next_cursor: Some(at) } => {
            let last = kept@.last();
            assert(last == mine[kept@.len() - 1]);
            storable_by_microseconds(last.updated_at, last.updated_at);
            assert(first[size] == mine[size]);
            assert(at.spec_micros() < keys[size]);
            a_limit_hides_nothing_in_front(keys, limit, size, at.spec_micros());
            let n = had(keys, at.spec_micros()) as int;
            assert(kept@ =~= mine.take(n));
        },
        ChangedPage::Reread { at } => {
            assert(first[size] == mine[size]);
            storable_by_microseconds(mine[size].updated_at, mine[size].updated_at);
            assert(at == mine[size].updated_at);
            assert forall|i: int| 0 <= i < mine.len() implies (
            #[trigger] mine[i]).updated_at.spec_micros() >= at.spec_micros() by {
                if i < size {
                    assert(first[i] == mine[i]);
                } else {
                    assert(keys[size] <= keys[i]);
                }
            }
            one_instant_is_the_front(rows, since, client, at);
        },
    }
}

} // verus!
