//! Coming back for the rest: what a chain of paged replies delivers.
//!
//! A client that is told there is more sends the reply's timestamp back and asks again. Here a
//! table is the ascending keys of the rows a client is owed out of it, in microseconds; rows
//! stamped in milliseconds have the thousandfold. A reply pages every table on its own and
//! resumes at the earliest point any of them was cut at.
//!
//! What is owed out of a table depends on the cursor: [`crate::sync::catching_up`] says which
//! rows these are, and carries the laws over to the requests a client sends.

use crate::instant::{instant_at_micros, Instant};
use crate::sync::download::{
    cuts, earliest, instant_at_millis, is_page_of, page_bound, resumes_at, DownloadPage,
    DownloadQuery, Stamped,
};
use crate::sync::grocery::remote_mutations::{is_changed_page_of, Changed, ChangedPage};
use vstd::prelude::*;

verus! {

/// Whether keys ascend.
pub open spec fn rises(keys: Seq<int>) -> bool {
    forall|i: int, j: int| 0 <= i <= j < keys.len() ==> keys[i] <= keys[j]
}

/// How many rows a client at `cursor` has had: those up to the last one not past it.
pub open spec fn had(keys: Seq<int>, cursor: int) -> nat
    decreases keys.len(),
{
    if keys.len() == 0 {
        0
    } else if keys.last() <= cursor {
        keys.len()
    } else {
        had(keys.drop_last(), cursor)
    }
}

/// The rows a client at `cursor` is still owed.
pub open spec fn owed_after(keys: Seq<int>, cursor: int) -> Seq<int> {
    keys.skip(had(keys, cursor) as int)
}

/// The last key below `edge`, or else `edge`.
pub open spec fn last_below(keys: Seq<int>, edge: int) -> int
    decreases keys.len(),
{
    if keys.len() == 0 {
        edge
    } else if keys.last() < edge {
        keys.last()
    } else {
        last_below(keys.drop_last(), edge)
    }
}

/// The key a page of `size` rows ends with, where not everything fits: the last one that it
/// holds whole, or the one key that does not fit a page.
pub open spec fn cut_of(owed: Seq<int>, size: int) -> Option<int> {
    if owed.len() <= size {
        None
    } else {
        Some(last_below(owed.take(size), owed[size]))
    }
}

/// Whether the reply to a client at `cursor` delivers row `i`.
pub open spec fn delivers(keys: Seq<int>, cursor: int, size: int, i: int) -> bool {
    keys[i] > cursor && match cut_of(owed_after(keys, cursor), size) {
        None => true,
        Some(cut) => keys[i] <= cut,
    }
}

/// The keys a reply's tables were cut at, in the order of the tables.
pub open spec fn table_cuts(tables: Seq<Seq<int>>, cursor: int, size: int) -> Seq<int>
    decreases tables.len(),
{
    if tables.len() == 0 {
        seq![]
    } else {
        let front = table_cuts(tables.drop_last(), cursor, size);
        match cut_of(owed_after(tables.last(), cursor), size) {
            None => front,
            Some(cut) => front.push(cut),
        }
    }
}

/// The least of some keys.
pub open spec fn least(keys: Seq<int>) -> int
    decreases keys.len(),
{
    if keys.len() <= 1 {
        keys[0]
    } else {
        let front = least(keys.drop_last());
        if keys.last() < front {
            keys.last()
        } else {
            front
        }
    }
}

/// Where a client at `cursor` is told to resume, where it is told there is more.
pub open spec fn next_cursor(tables: Seq<Seq<int>>, cursor: int, size: int) -> Option<int> {
    let all = table_cuts(tables, cursor, size);
    if all.len() == 0 {
        None
    } else {
        Some(least(all))
    }
}

/// Whether a client that asks at the first of `cursors` and comes back as told asks at each of
/// the others in turn, and is told at the last that there is no more.
pub open spec fn is_chain(tables: Seq<Seq<int>>, size: int, cursors: Seq<int>) -> bool {
    &&& cursors.len() > 0
    &&& forall|k: int|
        0 <= k < cursors.len() - 1 ==> #[trigger] next_cursor(tables, cursors[k], size) == Some(
            cursors[k + 1],
        )
    &&& next_cursor(tables, cursors.last(), size) is None
}

pub(crate) proof fn had_are_those_not_past(keys: Seq<int>, cursor: int)
    requires
        rises(keys),
    ensures
        had(keys, cursor) <= keys.len(),
        forall|i: int|
            0 <= i < keys.len() ==> (i < had(keys, cursor) <==> #[trigger] keys[i] <= cursor),
    decreases keys.len(),
{
    if keys.len() > 0 {
        let front = keys.drop_last();
        if keys.last() <= cursor {
            assert forall|i: int| 0 <= i < keys.len() implies #[trigger] keys[i] <= cursor by {
                assert(keys[i] <= keys[keys.len() - 1]);
            }
        } else {
            had_are_those_not_past(front, cursor);
            assert forall|i: int| 0 <= i < keys.len() implies (i < had(keys, cursor)
                <==> #[trigger] keys[i] <= cursor) by {
                if i < front.len() {
                    assert(front[i] == keys[i]);
                }
            }
        }
    }
}

proof fn last_below_is_one_of_them(keys: Seq<int>, edge: int)
    requires
        rises(keys),
        forall|i: int| 0 <= i < keys.len() ==> #[trigger] keys[i] <= edge,
    ensures
        last_below(keys, edge) == edge || keys.contains(last_below(keys, edge)),
        last_below(keys, edge) <= edge,
        last_below(keys, edge) == edge ==> forall|i: int|
            0 <= i < keys.len() ==> #[trigger] keys[i] == edge,
        forall|i: int|
            0 <= i < keys.len() && #[trigger] keys[i] < edge ==> keys[i] <= last_below(keys, edge),
    decreases keys.len(),
{
    if keys.len() > 0 {
        let front = keys.drop_last();
        if keys.last() < edge {
            assert(keys[keys.len() - 1] == last_below(keys, edge));
            assert forall|i: int| 0 <= i < keys.len() implies #[trigger] keys[i] <= last_below(
                keys,
                edge,
            ) by {
                assert(keys[i] <= keys[keys.len() - 1]);
            }
        } else {
            assert forall|i: int| 0 <= i < front.len() implies #[trigger] front[i] <= edge by {
                assert(keys[i] <= edge);
            }
            last_below_is_one_of_them(front, edge);
            if front.contains(last_below(front, edge)) {
                let k = choose|k: int| 0 <= k < front.len() && front[k] == last_below(front, edge);
                assert(keys[k] == last_below(keys, edge));
            }
            assert(keys[keys.len() - 1] == edge);
            assert forall|i: int| 0 <= i < keys.len() && last_below(keys, edge)
                == edge implies #[trigger] keys[i] == edge by {
                if i < front.len() {
                    assert(front[i] == keys[i]);
                }
            }
            assert forall|i: int| 0 <= i < keys.len() && #[trigger] keys[i] < edge implies keys[i]
                <= last_below(keys, edge) by {
                if i < front.len() {
                    assert(front[i] == keys[i]);
                }
            }
        }
    }
}

/// A table is cut past the cursor, at the key of one of its rows.
pub(crate) proof fn a_cut_is_past_the_cursor(keys: Seq<int>, cursor: int, size: int) -> (at: int)
    requires
        rises(keys),
        size >= 0,
        cut_of(owed_after(keys, cursor), size) is Some,
    ensures
        had(keys, cursor) <= at < keys.len(),
        keys[at] == cut_of(owed_after(keys, cursor), size)->0,
        keys[at] > cursor,
{
    let owed = owed_after(keys, cursor);
    let h = had(keys, cursor) as int;
    had_are_those_not_past(keys, cursor);
    let page = owed.take(size);
    assert forall|i: int, j: int| 0 <= i <= j < page.len() implies page[i] <= page[j] by {
        assert(keys[h + i] <= keys[h + j]);
    }
    assert forall|i: int| 0 <= i < page.len() implies #[trigger] page[i] <= owed[size] by {
        assert(keys[h + i] <= keys[h + size]);
    }
    last_below_is_one_of_them(page, owed[size]);
    let cut = last_below(page, owed[size]);
    let at = if cut == owed[size] {
        h + size
    } else {
        let k = choose|k: int| 0 <= k < page.len() && page[k] == cut;
        h + k
    };
    assert(keys[at] == cut);
    at
}

proof fn least_is_a_bound(keys: Seq<int>)
    requires
        keys.len() > 0,
    ensures
        keys.contains(least(keys)),
        forall|i: int| 0 <= i < keys.len() ==> least(keys) <= #[trigger] keys[i],
    decreases keys.len(),
{
    if keys.len() == 1 {
        assert(keys[0] == least(keys));
    } else {
        let front = keys.drop_last();
        least_is_a_bound(front);
        assert forall|i: int| 0 <= i < keys.len() implies least(keys) <= #[trigger] keys[i] by {
            if i < front.len() {
                assert(front[i] == keys[i]);
            }
        }
        if keys.last() < least(front) {
            assert(keys[keys.len() - 1] == least(keys));
        } else {
            let k = choose|k: int| 0 <= k < front.len() && front[k] == least(front);
            assert(keys[k] == least(keys));
        }
    }
}

/// Every cut of a table is among the reply's cuts, and every cut is a table's.
pub(crate) proof fn cuts_are_the_tables(tables: Seq<Seq<int>>, cursor: int, size: int)
    ensures
        forall|t: int|
            0 <= t < tables.len() ==> (cut_of(owed_after(#[trigger] tables[t], cursor), size)
                matches Some(cut) ==> table_cuts(tables, cursor, size).contains(cut)),
        forall|c: int|
            table_cuts(tables, cursor, size).contains(c) ==> exists|t: int|
                0 <= t < tables.len() && cut_of(owed_after(#[trigger] tables[t], cursor), size)
                    == Some(c),
    decreases tables.len(),
{
    if tables.len() > 0 {
        let front = tables.drop_last();
        let some = table_cuts(front, cursor, size);
        let all = table_cuts(tables, cursor, size);
        cuts_are_the_tables(front, cursor, size);
        assert forall|t: int| 0 <= t < tables.len() implies (cut_of(
            owed_after(#[trigger] tables[t], cursor),
            size,
        ) matches Some(cut) ==> all.contains(cut)) by {
            if t < front.len() {
                assert(front[t] == tables[t]);
                if let Some(cut) = cut_of(owed_after(tables[t], cursor), size) {
                    let k = choose|k: int| 0 <= k < some.len() && some[k] == cut;
                    assert(all[k] == cut);
                }
            } else if let Some(cut) = cut_of(owed_after(tables[t], cursor), size) {
                assert(all[some.len() as int] == cut);
            }
        }
        assert forall|c: int| all.contains(c) implies exists|t: int|
            0 <= t < tables.len() && cut_of(owed_after(#[trigger] tables[t], cursor), size)
                == Some(c) by {
            let k = choose|k: int| 0 <= k < all.len() && all[k] == c;
            if k < some.len() {
                assert(some[k] == c);
                assert(table_cuts(front, cursor, size).contains(c));
                let t = choose|t: int|
                    0 <= t < front.len() && cut_of(owed_after(#[trigger] front[t], cursor), size)
                        == Some(c);
                assert(tables[t] == front[t]);
            } else {
                assert(tables[tables.len() - 1] == tables.last());
            }
        }
    }
}

/// A client never resumes where it was: the cursor it is handed is past the one it sent, and
/// past no cut.
pub(crate) proof fn a_cursor_advances(tables: Seq<Seq<int>>, cursor: int, size: int)
    requires
        forall|t: int| 0 <= t < tables.len() ==> rises(#[trigger] tables[t]),
        size >= 0,
        next_cursor(tables, cursor, size) is Some,
    ensures
        next_cursor(tables, cursor, size)->0 > cursor,
        forall|t: int|
            0 <= t < tables.len() ==> (cut_of(owed_after(#[trigger] tables[t], cursor), size)
                matches Some(cut) ==> next_cursor(tables, cursor, size)->0 <= cut),
        exists|t: int|
            0 <= t < tables.len() && cut_of(owed_after(#[trigger] tables[t], cursor), size)
                == next_cursor(tables, cursor, size),
{
    let all = table_cuts(tables, cursor, size);
    let next = least(all);
    least_is_a_bound(all);
    cuts_are_the_tables(tables, cursor, size);
    let t = choose|t: int|
        0 <= t < tables.len() && cut_of(owed_after(#[trigger] tables[t], cursor), size) == Some(
            next,
        );
    let at = a_cut_is_past_the_cursor(tables[t], cursor, size);
    assert forall|t: int| 0 <= t < tables.len() implies (cut_of(
        owed_after(#[trigger] tables[t], cursor),
        size,
    ) matches Some(cut) ==> next <= cut) by {
        if let Some(cut) = cut_of(owed_after(tables[t], cursor), size) {
            let k = choose|k: int| 0 <= k < all.len() && all[k] == cut;
            assert(least(all) <= all[k]);
        }
    }
}

proof fn delivered_from(
    tables: Seq<Seq<int>>,
    size: int,
    cursors: Seq<int>,
    k: int,
    t: int,
    i: int,
) -> (j: int)
    requires
        forall|t: int| 0 <= t < tables.len() ==> rises(#[trigger] tables[t]),
        size >= 0,
        is_chain(tables, size, cursors),
        0 <= k < cursors.len(),
        0 <= t < tables.len(),
        0 <= i < tables[t].len(),
        tables[t][i] > cursors[k],
    ensures
        k <= j < cursors.len(),
        delivers(tables[t], cursors[j], size, i),
    decreases cursors.len() - k,
{
    if delivers(tables[t], cursors[k], size, i) {
        k
    } else {
        let cut = cut_of(owed_after(tables[t], cursors[k]), size);
        assert(cut is Some);
        cuts_are_the_tables(tables, cursors[k], size);
        let all = table_cuts(tables, cursors[k], size);
        assert(all.contains(cut->0));
        assert(all.len() > 0);
        assert(next_cursor(tables, cursors[k], size) is Some);
        if k == cursors.len() - 1 {
            assert(cursors[k] == cursors.last());
        }
        a_cursor_advances(tables, cursors[k], size);
        assert(next_cursor(tables, cursors[k], size) == Some(cursors[k + 1]));
        delivered_from(tables, size, cursors, k + 1, t, i)
    }
}

/// Coming back until nothing more is announced delivers everything: whatever the tables hold
/// past the cursor a client starts from, one of the replies it gets carries it.
pub proof fn every_owed_row_is_delivered(
    tables: Seq<Seq<int>>,
    size: int,
    cursors: Seq<int>,
    t: int,
    i: int,
)
    requires
        forall|t: int| 0 <= t < tables.len() ==> rises(#[trigger] tables[t]),
        size >= 0,
        is_chain(tables, size, cursors),
        0 <= t < tables.len(),
        0 <= i < tables[t].len(),
        tables[t][i] > cursors[0],
    ensures
        exists|k: int|
            0 <= k < cursors.len() && delivers(tables[t], #[trigger] cursors[k], size, i),
{
    let k = delivered_from(tables, size, cursors, 0, t, i);
    assert(delivers(tables[t], cursors[k], size, i));
}

proof fn a_chain_ascends(tables: Seq<Seq<int>>, size: int, cursors: Seq<int>, j: int, k: int)
    requires
        forall|t: int| 0 <= t < tables.len() ==> rises(#[trigger] tables[t]),
        size >= 0,
        is_chain(tables, size, cursors),
        0 <= j <= k < cursors.len(),
    ensures
        cursors[j] <= cursors[k],
    decreases k - j,
{
    if j < k {
        a_chain_ascends(tables, size, cursors, j, k - 1);
        assert(next_cursor(tables, cursors[k - 1], size) == Some(cursors[k - 1 + 1]));
        a_cursor_advances(tables, cursors[k - 1], size);
    }
}

/// Of one table nothing is delivered twice: each row it holds past the starting cursor comes
/// with exactly one of the replies. (With several, a table that was not cut is read again from
/// where the earliest cut was.)
pub proof fn one_table_is_delivered_once(keys: Seq<int>, size: int, cursors: Seq<int>, i: int)
    requires
        rises(keys),
        size >= 0,
        is_chain(seq![keys], size, cursors),
        0 <= i < keys.len(),
        keys[i] > cursors[0],
    ensures
        exists|k: int| 0 <= k < cursors.len() && delivers(keys, #[trigger] cursors[k], size, i),
        forall|j: int, k: int|
            0 <= j < cursors.len() && 0 <= k < cursors.len() && delivers(
                keys,
                #[trigger] cursors[j],
                size,
                i,
            ) && delivers(keys, #[trigger] cursors[k], size, i) ==> j == k,
{
    let tables = seq![keys];
    assert(tables[0] == keys);
    every_owed_row_is_delivered(tables, size, cursors, 0, i);
    assert forall|j: int, k: int|
        0 <= j < k < cursors.len() && delivers(keys, #[trigger] cursors[j], size, i) implies !delivers(
        keys,
        #[trigger] cursors[k],
        size,
        i,
    ) by {
        assert(next_cursor(tables, cursors[j], size) == Some(cursors[j + 1]));
        a_cursor_advances(tables, cursors[j], size);
        assert(cut_of(owed_after(tables[0], cursors[j]), size) == Some(cursors[j + 1]));
        a_chain_ascends(tables, size, cursors, j + 1, k);
    }
}

/// Whether reply `k` of a chain settles a key: it is past the cursor the client sent, and not
/// past the one it was told to resume at.
pub open spec fn settles(cursors: Seq<int>, k: int, key: int) -> bool {
    cursors[k] < key && (k + 1 < cursors.len() ==> key <= cursors[k + 1])
}

proof fn settled_from(
    tables: Seq<Seq<int>>,
    size: int,
    cursors: Seq<int>,
    k: int,
    t: int,
    i: int,
) -> (j: int)
    requires
        forall|t: int| 0 <= t < tables.len() ==> rises(#[trigger] tables[t]),
        size >= 0,
        is_chain(tables, size, cursors),
        0 <= k < cursors.len(),
        0 <= t < tables.len(),
        0 <= i < tables[t].len(),
        tables[t][i] > cursors[k],
    ensures
        k <= j < cursors.len(),
        settles(cursors, j, tables[t][i]),
        delivers(tables[t], cursors[j], size, i),
    decreases cursors.len() - k,
{
    if k + 1 < cursors.len() {
        assert(next_cursor(tables, cursors[k], size) == Some(cursors[k + 1]));
        a_cursor_advances(tables, cursors[k], size);
        if tables[t][i] <= cursors[k + 1] {
            k
        } else {
            settled_from(tables, size, cursors, k + 1, t, i)
        }
    } else {
        assert(cursors[k] == cursors.last());
        cuts_are_the_tables(tables, cursors[k], size);
        if let Some(cut) = cut_of(owed_after(tables[t], cursors[k]), size) {
            assert(table_cuts(tables, cursors[k], size).contains(cut));
        }
        k
    }
}

/// With any number of tables, each row past the starting cursor is settled by exactly one of
/// the replies, and comes with that reply. What comes twice is past the cursor the reply before
/// handed back.
pub proof fn every_owed_row_is_settled_once(
    tables: Seq<Seq<int>>,
    size: int,
    cursors: Seq<int>,
    t: int,
    i: int,
)
    requires
        forall|t: int| 0 <= t < tables.len() ==> rises(#[trigger] tables[t]),
        size >= 0,
        is_chain(tables, size, cursors),
        0 <= t < tables.len(),
        0 <= i < tables[t].len(),
        tables[t][i] > cursors[0],
    ensures
        exists|k: int|
            0 <= k < cursors.len() && #[trigger] settles(cursors, k, tables[t][i]) && delivers(
                tables[t],
                cursors[k],
                size,
                i,
            ),
        forall|j: int, k: int|
            0 <= j < cursors.len() && 0 <= k < cursors.len() && #[trigger] settles(
                cursors,
                j,
                tables[t][i],
            ) && #[trigger] settles(cursors, k, tables[t][i]) ==> j == k,
        forall|j: int, k: int|
            0 <= j < k < cursors.len() && #[trigger] delivers(tables[t], cursors[j], size, i)
                && #[trigger] delivers(tables[t], cursors[k], size, i) ==> tables[t][i] > cursors[j
                + 1],
{
    let key = tables[t][i];
    let k = settled_from(tables, size, cursors, 0, t, i);
    assert(settles(cursors, k, key));
    assert forall|j: int, k: int|
        0 <= j < k < cursors.len() && #[trigger] settles(cursors, j, key) implies !(
        #[trigger] settles(cursors, k, key)) by {
        a_chain_ascends(tables, size, cursors, j + 1, k);
    }
    assert forall|j: int, k: int|
        0 <= j < k < cursors.len() && #[trigger] delivers(tables[t], cursors[j], size, i)
            && #[trigger] delivers(tables[t], cursors[k], size, i) implies key > cursors[j
        + 1] by {
        a_chain_ascends(tables, size, cursors, j + 1, k);
    }
}

/// The rows a client at `cursor` is still owed, over all tables.
pub open spec fn all_owed(tables: Seq<Seq<int>>, cursor: int) -> int
    decreases tables.len(),
{
    if tables.len() == 0 {
        0
    } else {
        all_owed(tables.drop_last(), cursor) + owed_after(tables.last(), cursor).len()
    }
}

pub(crate) proof fn what_is_owed_shrinks(tables: Seq<Seq<int>>, cursor: int, next: int)
    requires
        forall|t: int| 0 <= t < tables.len() ==> rises(#[trigger] tables[t]),
        cursor <= next,
    ensures
        0 <= all_owed(tables, next) <= all_owed(tables, cursor),
        (exists|t: int, at: int|
            0 <= t < tables.len() && had(tables[t], cursor) <= at < tables[t].len()
                && #[trigger] tables[t][at] == next) ==> all_owed(tables, next) < all_owed(
            tables,
            cursor,
        ),
    decreases tables.len(),
{
    if tables.len() > 0 {
        let front = tables.drop_last();
        let last = tables[tables.len() - 1];
        assert forall|t: int| 0 <= t < front.len() implies rises(#[trigger] front[t]) by {
            assert(front[t] == tables[t]);
        }
        what_is_owed_shrinks(front, cursor, next);
        had_are_those_not_past(last, cursor);
        had_are_those_not_past(last, next);
        let h = had(last, cursor) as int;
        if h > 0 {
            assert(last[h - 1] <= cursor);
        }
        assert(had(last, next) >= h);
        if exists|t: int, at: int|
            0 <= t < tables.len() && had(tables[t], cursor) <= at < tables[t].len()
                && #[trigger] tables[t][at] == next {
            let (t, at) = choose|t: int, at: int|
                0 <= t < tables.len() && had(tables[t], cursor) <= at < tables[t].len()
                    && #[trigger] tables[t][at] == next;
            if t < front.len() {
                assert(front[t][at] == next);
            } else {
                assert(last[at] <= next);
                assert(at < had(last, next));
            }
        }
    }
}

/// Coming back comes to an end: from any cursor the replies lead to one that announces no
/// more.
pub proof fn a_chain_ends(tables: Seq<Seq<int>>, size: int, cursor: int)
    requires
        forall|t: int| 0 <= t < tables.len() ==> rises(#[trigger] tables[t]),
        size >= 0,
    ensures
        exists|cursors: Seq<int>| #[trigger]
            is_chain(tables, size, cursors) && cursors[0] == cursor,
    decreases all_owed(tables, cursor),
{
    match next_cursor(tables, cursor, size) {
        None => {
            assert(is_chain(tables, size, seq![cursor]));
        },
        Some(next) => {
            a_cursor_advances(tables, cursor, size);
            let t = choose|t: int|
                0 <= t < tables.len() && cut_of(owed_after(#[trigger] tables[t], cursor), size)
                    == Some(next);
            let at = a_cut_is_past_the_cursor(tables[t], cursor, size);
            assert(tables[t][at] == next);
            what_is_owed_shrinks(tables, cursor, next);
            a_chain_ends(tables, size, next);
            let rest = choose|cursors: Seq<int>| #[trigger]
                is_chain(tables, size, cursors) && cursors[0] == next;
            let cursors = seq![cursor] + rest;
            assert forall|k: int| 0 <= k < cursors.len() - 1 implies #[trigger] next_cursor(
                tables,
                cursors[k],
                size,
            ) == Some(cursors[k + 1]) by {
                if k > 0 {
                    assert(cursors[k] == rest[k - 1]);
                    assert(next_cursor(tables, rest[k - 1], size) == Some(rest[k - 1 + 1]));
                }
            }
            assert(cursors.last() == rest.last());
            assert(is_chain(tables, size, cursors));
        },
    }
}

/// A page holds no more rows than it may, unless they all have one key.
pub proof fn a_page_is_bounded(keys: Seq<int>, cursor: int, size: int)
    requires
        rises(keys),
        size >= 0,
    ensures
        cut_of(owed_after(keys, cursor), size) matches Some(cut) ==> had(keys, cut) - had(
            keys,
            cursor,
        ) <= size || forall|i: int|
            had(keys, cursor) <= i < had(keys, cut) ==> #[trigger] keys[i] == cut,
        cut_of(owed_after(keys, cursor), size) is None ==> owed_after(keys, cursor).len() <= size,
{
    if cut_of(owed_after(keys, cursor), size) is Some {
        let owed = owed_after(keys, cursor);
        let h = had(keys, cursor) as int;
        had_are_those_not_past(keys, cursor);
        let cut = cut_of(owed, size)->0;
        had_are_those_not_past(keys, cut);
        let page = owed.take(size);
        assert forall|i: int, j: int| 0 <= i <= j < page.len() implies page[i] <= page[j] by {
            assert(keys[h + i] <= keys[h + j]);
        }
        assert forall|i: int| 0 <= i < page.len() implies #[trigger] page[i] <= owed[size] by {
            assert(keys[h + i] <= keys[h + size]);
        }
        last_below_is_one_of_them(page, owed[size]);
        assert(owed[size] == keys[h + size]);
        if cut == owed[size] {
            assert forall|i: int| h <= i < had(keys, cut) implies #[trigger] keys[i] == cut by {
                if i < h + size {
                    assert(page[i - h] == keys[i]);
                } else {
                    assert(keys[h + size] <= keys[i]);
                }
            }
        } else {
            assert(!(h + size < had(keys, cut)));
        }
    }
}

/// A page holds no more rows than it may wherever no key is shared by more rows than a page
/// holds.
pub proof fn a_page_of_an_uncrowded_table_is_bounded(keys: Seq<int>, cursor: int, size: int)
    requires
        rises(keys),
        size >= 0,
        forall|i: int, j: int| 0 <= i && i + size <= j < keys.len() ==> keys[i] < keys[j],
    ensures
        match cut_of(owed_after(keys, cursor), size) {
            None => owed_after(keys, cursor).len() <= size,
            Some(cut) => had(keys, cut) - had(keys, cursor) <= size,
        },
{
    a_page_is_bounded(keys, cursor, size);
    if let Some(cut) = cut_of(owed_after(keys, cursor), size) {
        had_are_those_not_past(keys, cursor);
        had_are_those_not_past(keys, cut);
        let h = had(keys, cursor) as int;
        if had(keys, cut) - h > size {
            assert(keys[h] < keys[h + size]);
        }
    }
}

/// One row past the page is enough to tell: reading more of what is owed changes no cut.
pub proof fn the_probe_tells(owed: Seq<int>, size: int, limit: int)
    requires
        0 <= size < limit,
    ensures
        cut_of(owed.take(if limit < owed.len() {
            limit
        } else {
            owed.len() as int
        }), size) == cut_of(owed, size),
{
    if owed.len() > size {
        let n = if limit < owed.len() {
            limit
        } else {
            owed.len() as int
        };
        assert(owed.take(n).take(size) =~= owed.take(size));
    }
}

/// A cursor means the same to every table: a row stamped in milliseconds is past a client's
/// cursor in milliseconds exactly if it is in microseconds.
pub proof fn a_cursor_means_the_same_to_every_table(at: Instant, ms: i64)
    ensures
        ms > at.spec_millis() <==> ms * 1000 > at.spec_micros(),
{
    let n = at.nanos as int;
    assert(n / 1_000_000 == (n / 1000) / 1000);
}

/// The keys of rows stamped in milliseconds.
pub open spec fn keys_of<T: Stamped>(rows: Seq<T>) -> Seq<int> {
    rows.map_values(|row: T| row.stamp() as int * 1000)
}

proof fn a_kept_page_ends_at(keys: Seq<int>, size: int, kept: int)
    requires
        rises(keys),
        0 < kept <= size < keys.len(),
        keys[kept - 1] < keys[size],
        forall|i: int| kept <= i < size ==> #[trigger] keys[i] >= keys[size],
    ensures
        cut_of(keys, size) == Some(keys[kept - 1]),
        had(keys, keys[kept - 1]) == kept,
{
    let page = keys.take(size);
    let edge = keys[size];
    assert forall|i: int| 0 <= i < page.len() implies #[trigger] page[i] <= edge by {
        assert(keys[i] <= keys[size]);
    }
    last_below_is_one_of_them(page, edge);
    let cut = last_below(page, edge);
    assert(page[kept - 1] < edge);
    assert(cut != edge);
    let k = choose|k: int| 0 <= k < page.len() && page[k] == cut;
    if k >= kept {
        assert(keys[k] >= keys[size]);
    }
    assert(keys[k] <= keys[kept - 1]);
    assert(page[kept - 1] <= cut);
    had_are_those_not_past(keys, cut);
    let h = had(keys, cut) as int;
    if h > kept {
        assert(keys[kept] <= cut);
        if kept < size {
            assert(keys[kept] >= keys[size]);
        }
    }
    if h < kept {
        assert(keys[kept - 1] > cut);
    }
}

proof fn a_stalled_page_ends_at(keys: Seq<int>, size: int)
    requires
        rises(keys),
        0 <= size < keys.len(),
        forall|i: int| 0 <= i < size ==> #[trigger] keys[i] >= keys[size],
    ensures
        cut_of(keys, size) == Some(keys[size]),
{
    let page = keys.take(size);
    let edge = keys[size];
    assert forall|i: int| 0 <= i < page.len() implies #[trigger] page[i] <= edge by {
        assert(keys[i] <= keys[size]);
    }
    last_below_is_one_of_them(page, edge);
    if last_below(page, edge) != edge {
        let k = choose|k: int| 0 <= k < page.len() && page[k] == last_below(page, edge);
        assert(keys[k] >= keys[size]);
    }
}

/// A page of rows stamped in milliseconds is cut where the chain says: its cursor is the cut,
/// and the rows it serves, or reads again, are those up to there.
pub proof fn a_page_is_a_link<T: Stamped>(
    rows: Seq<T>,
    query: DownloadQuery,
    page_size: Option<usize>,
    page: DownloadPage<T>,
)
    requires
        rises(keys_of(rows)),
        is_page_of(rows, query, page_size, page),
    ensures
        match page {
            DownloadPage::Serve { rows: kept, next_cursor_ms } => match next_cursor_ms {
                None => cut_of(keys_of(rows), page_bound(page_size) as int) is None,
                Some(ms) => cut_of(keys_of(rows), page_bound(page_size) as int) == Some(ms * 1000)
                    && kept@ == rows.take(had(keys_of(rows), ms * 1000) as int),
            },
            DownloadPage::Reread { query: again, ms } => cut_of(
                keys_of(rows),
                page_bound(page_size) as int,
            ) == Some(ms * 1000) && again.through_ms == Some(ms) && (ms > i64::MIN
                ==> again.after_ms == ms - 1),
        },
{
    let keys = keys_of(rows);
    let size = page_bound(page_size) as int;
    match page {
        DownloadPage::Serve { rows: kept, next_cursor_ms: None } => {},
        DownloadPage::Serve { rows: kept, next_cursor_ms: Some(ms) } => {
            let n = kept@.len() as int;
            assert(kept@.last() == rows[n - 1]);
            assert(keys[n - 1] == ms * 1000);
            assert forall|i: int| n <= i < size implies #[trigger] keys[i] >= keys[size] by {
                assert(rows[i].stamp() >= rows[size].stamp());
            }
            a_kept_page_ends_at(keys, size, n);
        },
        DownloadPage::Reread { query: again, ms } => {
            assert forall|i: int| 0 <= i < size implies #[trigger] keys[i] >= keys[size] by {
                assert(rows[i].stamp() >= ms);
            }
            a_stalled_page_ends_at(keys, size);
        },
    }
}

/// The keys of rows stamped by instant.
pub open spec fn instants_of<T>(rows: Seq<Changed<T>>) -> Seq<int> {
    rows.map_values(|c: Changed<T>| c.updated_at.spec_micros())
}

/// A page of rows stamped by instant is cut where the chain says, for instants that have a
/// microsecond of their own in the calendar.
pub proof fn a_changed_page_is_a_link<T>(
    rows: Seq<Changed<T>>,
    page_size: Option<usize>,
    now: Instant,
    page: ChangedPage<T>,
)
    requires
        rises(instants_of(rows)),
        is_changed_page_of(rows, page_size, now, page),
        forall|i: int|
            0 <= i < rows.len() ==> instant_at_micros(
                (#[trigger] rows[i]).updated_at.spec_micros(),
            ) is Some,
    ensures
        match page {
            ChangedPage::Serve { rows: kept, next_cursor } => match next_cursor {
                None => cut_of(instants_of(rows), page_bound(page_size) as int) is None,
                Some(at) => cut_of(instants_of(rows), page_bound(page_size) as int) == Some(
                    at.spec_micros(),
                ) && kept@ == rows.take(had(instants_of(rows), at.spec_micros()) as int),
            },
            ChangedPage::Reread { at } => cut_of(instants_of(rows), page_bound(page_size) as int)
                == Some(at.spec_micros()),
        },
{
    let keys = instants_of(rows);
    let size = page_bound(page_size) as int;
    match page {
        ChangedPage::Serve { rows: kept, next_cursor: None } => {},
        ChangedPage::Serve { rows: kept, next_cursor: Some(at) } => {
            let n = kept@.len() as int;
            assert(kept@.last() == rows[n - 1]);
            named_micros_are_kept(rows[n - 1].updated_at.spec_micros());
            assert(keys[n - 1] == at.spec_micros());
            assert forall|i: int| n <= i < size implies #[trigger] keys[i] >= keys[size] by {
                assert(rows[i].updated_at.spec_micros() >= rows[size].updated_at.spec_micros());
            }
            a_kept_page_ends_at(keys, size, n);
        },
        ChangedPage::Reread { at } => {
            named_micros_are_kept(rows[size].updated_at.spec_micros());
            assert forall|i: int| 0 <= i < size implies #[trigger] keys[i] >= keys[size] by {
                assert(rows[i].updated_at.spec_micros() >= rows[size].updated_at.spec_micros());
            }
            a_stalled_page_ends_at(keys, size);
        },
    }
}

proof fn named_micros_are_kept(us: int)
    ensures
        instant_at_micros(us) matches Some(at) ==> at.spec_micros() == us,
{
    assert(us == (us / 1_000_000) * 1_000_000 + us % 1_000_000);
    assert(0 <= us % 1_000_000 < 1_000_000);
    assert(((us % 1_000_000) * 1000) / 1000 == us % 1_000_000);
}

proof fn the_earliest_is_the_least(cursors: Seq<Instant>)
    requires
        cursors.len() > 0,
    ensures
        earliest(cursors).spec_micros() == least(
            cursors.map_values(|at: Instant| at.spec_micros()),
        ),
    decreases cursors.len(),
{
    if cursors.len() > 1 {
        the_earliest_is_the_least(cursors.drop_last());
        assert(cursors.map_values(|at: Instant| at.spec_micros()).drop_last()
            =~= cursors.drop_last().map_values(|at: Instant| at.spec_micros()));
    }
}

/// A reply hands back the cursor the chain goes on with, and announces more exactly while it
/// does: given where its tables were cut, those cursored by milliseconds first.
pub proof fn a_reply_is_a_link(
    server: Instant,
    cut_ms: Seq<i64>,
    cut_at: Seq<Instant>,
    tables: Seq<Seq<int>>,
    cursor: int,
    size: int,
)
    requires
        table_cuts(tables, cursor, size) == cut_ms.map_values(|ms: i64| ms as int * 1000)
            + cut_at.map_values(|at: Instant| at.spec_micros()),
    ensures
        match next_cursor(tables, cursor, size) {
            None => resumes_at(server, cut_ms, cut_at).server_timestamp == server && !resumes_at(
                server,
                cut_ms,
                cut_at,
            ).has_more,
            Some(next) => resumes_at(server, cut_ms, cut_at).server_timestamp.spec_micros() == next
                && resumes_at(server, cut_ms, cut_at).has_more,
        },
{
    let all = table_cuts(tables, cursor, size);
    let cursors = cuts(cut_ms, cut_at);
    assert(cursors.len() == all.len());
    assert forall|i: int| 0 <= i < all.len() implies #[trigger] cursors[i].spec_micros()
        == all[i] by {
        if i < cut_ms.len() {
            let ms = cut_ms[i] as int;
            assert(cursors[i] == instant_at_millis(ms));
            assert(ms == (ms / 1000) * 1000 + ms % 1000);
            assert(i64::MIN <= ms / 1000 <= i64::MAX);
            assert(0 <= ms % 1000 < 1000);
            assert(cursors[i].spec_micros() == ms * 1000);
        } else {
            assert(cursors[i] == cut_at[i - cut_ms.len()]);
        }
    }
    assert(cursors.map_values(|at: Instant| at.spec_micros()) =~= all);
    if all.len() > 0 {
        the_earliest_is_the_least(cursors);
    }
}

} // verus!
