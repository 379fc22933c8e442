//! Who may touch which row: its owner, and the live members of the list it is on.

use crate::sync::lookup::{row_named, Keyed, RowIndex};
use crate::sync::types::{ChangeDelta, Payload};
use crate::text::{is_text, opt_text, texts};
use vstd::hash_set::StringHashSet;
use vstd::prelude::*;

verus! {

/// Whether a list is among `lists`.
pub open spec fn on_list(list: Option<String>, lists: Seq<Seq<char>>) -> bool {
    list is Some && lists.contains(list->0@)
}

/// Whether `user` may touch a row: they own it, or it is on a list they are a live member
/// of.
pub open spec fn may_touch(
    owner: Option<String>,
    list: Option<String>,
    user: Seq<char>,
    lists: Seq<Seq<char>>,
) -> bool {
    opt_text(owner) == Some(user) || on_list(list, lists)
}

/// Whether a list is among `lists`.
pub fn is_on_list(list: &Option<String>, lists: &StringHashSet, Ghost(all): Ghost<Seq<Seq<char>>>) -> (b: bool)
    requires
        forall|s: Seq<char>| #[trigger] lists@.contains(s) <==> all.contains(s),
    ensures
        b == on_list(*list, all),
{
    match list {
        Some(list) => lists.contains(list.as_str()),
        None => false,
    }
}

/// Whether `user` may touch a row.
pub fn can_touch(
    owner: &Option<String>,
    list: &Option<String>,
    user: &str,
    lists: &StringHashSet,
    Ghost(all): Ghost<Seq<Seq<char>>>,
) -> (b: bool)
    requires
        forall|s: Seq<char>| #[trigger] lists@.contains(s) <==> all.contains(s),
    ensures
        b == may_touch(*owner, *list, user@, all),
{
    is_text(owner, user) || is_on_list(list, lists, Ghost(all))
}

/// Something that may be on a list.
pub trait Listed {
    /// The list this is on.
    spec fn list(&self) -> Option<Seq<char>>;

    /// The list this is on.
    fn list_of(&self) -> (l: Option<String>)
        ensures
            opt_text(l) == self.list(),
    ;
}

/// The rows a batch names: each change's own id, and the id its document carries.
pub open spec fn named_rows<T: Keyed>(changes: Seq<ChangeDelta<T>>) -> Seq<Seq<char>>
    decreases changes.len(),
{
    if changes.len() == 0 {
        seq![]
    } else {
        let named = named_rows(changes.drop_last()).push(changes.last().id@);
        match changes.last().data {
            Payload::Item(item) => named.push(item.key()),
            _ => named,
        }
    }
}

/// The rows a batch names, which are the rows to read before it is decided: each change's own
/// id, and the id its document carries.
pub fn rows_to_read<T: Keyed>(changes: &Vec<ChangeDelta<T>>) -> (ids: Vec<String>)
    ensures
        texts(ids@) == named_rows(changes@),
{
    let mut ids: Vec<String> = Vec::new();
    let mut i: usize = 0;
    assert(texts(ids@) =~= named_rows(changes@.take(0)));
    while i < changes.len()
        invariant
            i <= changes.len(),
            texts(ids@) == named_rows(changes@.take(i as int)),
        decreases changes.len() - i,
    {
        let ghost before = texts(ids@);
        let change = &changes[i];
        proof {
            assert(changes@.take(i + 1).drop_last() =~= changes@.take(i as int));
            assert(changes@.take(i + 1).last() == *change);
        }
        ids.push(change.id.clone());
        assert(texts(ids@) =~= before.push(change.id@));
        if let Payload::Item(item) = &change.data {
            let ghost named = texts(ids@);
            ids.push(item.key_text());
            assert(texts(ids@) =~= named.push(item.key()));
        }
        i = i + 1;
    }
    assert(changes@.take(changes.len() as int) =~= changes@);
    ids
}

/// Whether a change is about `list`: its item is on the list, or a stored row it names is.
pub open spec fn names_list<T: Listed + Keyed, R: Listed + Keyed>(
    change: ChangeDelta<T>,
    rows: Seq<R>,
    list: Seq<char>,
) -> bool {
    ||| (change.data matches Payload::Item(item) && item.list() == Some(list))
    ||| (row_named(rows, change.id@) matches Some(row) && row.list() == Some(list))
    ||| (change.data matches Payload::Item(item) && row_named(rows, item.key()) matches Some(row)
        && row.list() == Some(list))
}

/// Adds `list` to `found` unless it is there already.
fn note_list(found: &mut Vec<String>, seen: &mut StringHashSet, list: Option<String>)
    requires
        texts(old(found)@).no_duplicates(),
        forall|s: Seq<char>| #[trigger] old(seen)@.contains(s) <==> texts(old(found)@).contains(s),
    ensures
        texts(final(found)@).no_duplicates(),
        forall|s: Seq<char>| #[trigger] final(seen)@.contains(s) <==> texts(final(found)@).contains(s),
        forall|s: Seq<char>| #[trigger]
            final(seen)@.contains(s) <==> old(seen)@.contains(s) || opt_text(list) == Some(s),
{
    if let Some(list) = list {
        if !seen.contains(list.as_str()) {
            let ghost before = texts(found@);
            let ghost name = list@;
            seen.insert(list.clone());
            found.push(list);
            proof {
                let after = texts(found@);
                assert(after =~= before.push(name));
                assert forall|s: Seq<char>| #[trigger] seen@.contains(s) <==> after.contains(s) by {
                    if after.contains(s) {
                        let k = choose|k: int| 0 <= k < after.len() && after[k] == s;
                        if k < before.len() {
                            assert(before[k] == s);
                        }
                    }
                    if before.contains(s) {
                        let k = choose|k: int| 0 <= k < before.len() && before[k] == s;
                        assert(after[k] == s);
                    }
                    if s == name {
                        assert(after[before.len() as int] == s);
                    }
                }
                assert(!before.contains(name));
                assert(after.no_duplicates());
            }
        }
    }
}

/// The lists a batch of changes is about, each once: those whose membership decides it.
pub fn lists_named<T: Listed + Keyed, R: Listed + Keyed>(
    changes: &Vec<ChangeDelta<T>>,
    rows: &Vec<R>,
) -> (lists: Vec<String>)
    ensures
        texts(lists@).no_duplicates(),
        forall|list: Seq<char>| #[trigger]
            texts(lists@).contains(list) <==> exists|i: int|
                0 <= i < changes@.len() && names_list(#[trigger] changes@[i], rows@, list),
{
    let index = RowIndex::of(rows);
    let mut found: Vec<String> = Vec::new();
    let mut seen = StringHashSet::new();
    assert(texts(found@) =~= Seq::<Seq<char>>::empty());
    let mut i: usize = 0;
    while i < changes.len()
        invariant
            i <= changes.len(),
            index.indexes(rows@),
            texts(found@).no_duplicates(),
            forall|s: Seq<char>| #[trigger] seen@.contains(s) <==> texts(found@).contains(s),
            forall|s: Seq<char>| #[trigger]
                seen@.contains(s) <==> exists|k: int|
                    0 <= k < i && names_list(#[trigger] changes@[k], rows@, s),
        decreases changes.len() - i,
    {
        let ghost seen0 = seen@;
        let change = &changes[i];
        if let Payload::Item(item) = &change.data {
            note_list(&mut found, &mut seen, item.list_of());
            if let Some(row) = index.find(rows, item.key_text().as_str()) {
                note_list(&mut found, &mut seen, row.list_of());
            }
        }
        if let Some(row) = index.find(rows, change.id.as_str()) {
            note_list(&mut found, &mut seen, row.list_of());
        }
        proof {
            assert forall|s: Seq<char>| #[trigger] seen@.contains(s) <==> exists|k: int|
                0 <= k < i + 1 && names_list(#[trigger] changes@[k], rows@, s) by {
                assert(seen@.contains(s) <==> seen0.contains(s) || names_list(
                    changes@[i as int],
                    rows@,
                    s,
                ));
                if seen0.contains(s) {
                    let k = choose|k: int|
                        0 <= k < i && names_list(#[trigger] changes@[k], rows@, s);
                    assert(names_list(changes@[k], rows@, s));
                }
            }
        }
        i = i + 1;
    }
    proof {
        assert forall|list: Seq<char>| #[trigger]
            texts(found@).contains(list) <==> exists|i: int|
            0 <= i < changes@.len() && names_list(#[trigger] changes@[i], rows@, list) by {
            assert(seen@.contains(list) <==> texts(found@).contains(list));
        }
    }
    found
}

/// A batch names the row each change is about and the row its document carries, and no other.
pub proof fn a_batch_names_its_changes_and_their_documents<T: Keyed>(
    changes: &Vec<ChangeDelta<T>>,
    ids: Vec<String>,
    id: Seq<char>,
)
    requires
        call_ensures(rows_to_read::<T>, (changes,), ids),
    ensures
        texts(ids@).contains(id) <==> exists|i: int|
            0 <= i < changes@.len() && ((#[trigger] changes@[i]).id@ == id || (
            changes@[i].data matches Payload::Item(item) && item.key() == id)),
{
    named_rows_are_named(changes@, id);
}

proof fn named_rows_are_named<T: Keyed>(changes: Seq<ChangeDelta<T>>, id: Seq<char>)
    ensures
        named_rows(changes).contains(id) <==> exists|i: int|
            0 <= i < changes.len() && ((#[trigger] changes[i]).id@ == id || (
            changes[i].data matches Payload::Item(item) && item.key() == id)),
    decreases changes.len(),
{
    if changes.len() > 0 {
        let front = changes.drop_last();
        let last = changes.last();
        named_rows_are_named(front, id);
        let before = named_rows(front);
        let named = before.push(last.id@);
        let all = named_rows(changes);
        let own = last.id@ == id || (last.data matches Payload::Item(item) && item.key() == id);
        assert(changes[changes.len() - 1] == last);
        if before.contains(id) {
            let k = choose|k: int| 0 <= k < before.len() && before[k] == id;
            assert(named[k] == id);
            assert(all[k] == id);
            let i = choose|i: int|
                0 <= i < front.len() && ((#[trigger] front[i]).id@ == id || (
                front[i].data matches Payload::Item(item) && item.key() == id));
            assert(changes[i] == front[i]);
        }
        if own {
            if last.id@ == id {
                assert(named[before.len() as int] == id);
                assert(all[before.len() as int] == id);
            } else {
                assert(all[named.len() as int] == id);
            }
        }
        if all.contains(id) && !own {
            let k = choose|k: int| 0 <= k < all.len() && all[k] == id;
            assert(k < before.len());
            assert(before[k] == id);
        }
        if (exists|i: int|
            0 <= i < changes.len() && ((#[trigger] changes[i]).id@ == id || (
            changes[i].data matches Payload::Item(item) && item.key() == id))) && !own {
            let i = choose|i: int|
                0 <= i < changes.len() && ((#[trigger] changes[i]).id@ == id || (
                changes[i].data matches Payload::Item(item) && item.key() == id));
            assert(front[i] == changes[i]);
        }
    }
}

/// Whoever owns a row may touch it, and so may whoever is on the list it is on; nobody else may.
pub proof fn a_row_is_touched_by_its_own(
    owner: Option<String>,
    list: Option<String>,
    user: Seq<char>,
    lists: Seq<Seq<char>>,
)
    ensures
        may_touch(owner, list, user, lists) <==> {
            ||| (owner matches Some(o) && o@ == user)
            ||| (list matches Some(l) && lists.contains(l@))
        },
{
}

} // verus!
