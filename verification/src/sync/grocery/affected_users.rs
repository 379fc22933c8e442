//! Whose caches a request's grocery changes reach.
//!
//! Lists are shared: everybody who can see a list that was touched has to learn of it. The
//! basis is the ids a request names, which bound what it wrote.

use crate::sync::grocery::grocery_item_store_info::GroceryItemStoreInfoChangeDelta;
use crate::sync::request::SyncRequest;
use crate::sync::types::ChangeDelta;
use crate::text::{opt_text, same_text, texts};
use vstd::hash_set::StringHashSet;
use vstd::prelude::*;

verus! {

/// The ids of a list of changes.
pub open spec fn changed_ids<T>(changes: Seq<ChangeDelta<T>>) -> Seq<Seq<char>> {
    changes.map_values(|c: ChangeDelta<T>| c.id@)
}

/// The ids of a list of changes.
pub fn ids_of<T>(changes: &Vec<ChangeDelta<T>>) -> (ids: Vec<String>)
    ensures
        texts(ids@) == changed_ids(changes@),
{
    let mut ids: Vec<String> = Vec::new();
    let mut i: usize = 0;
    assert(texts(ids@) =~= changed_ids(changes@.take(0)));
    while i < changes.len()
        invariant
            i <= changes.len(),
            texts(ids@) == changed_ids(changes@.take(i as int)),
        decreases changes.len() - i,
    {
        let ghost before = ids@;
        ids.push(changes[i].id.clone());
        assert(texts(ids@) =~= texts(before).push(changes@[i as int].id@));
        assert(texts(ids@) =~= changed_ids(changes@.take(i + 1)));
        i = i + 1;
    }
    assert(changes@.take(i as int) =~= changes@);
    ids
}

/// The stores of a list of store entries.
pub open spec fn named_stores(changes: Seq<GroceryItemStoreInfoChangeDelta>) -> Seq<Seq<char>> {
    changes.map_values(|c: GroceryItemStoreInfoChangeDelta| c.store_id@)
}

fn stores_of(changes: &Vec<GroceryItemStoreInfoChangeDelta>) -> (ids: Vec<String>)
    ensures
        texts(ids@) == named_stores(changes@),
{
    let mut ids: Vec<String> = Vec::new();
    let mut i: usize = 0;
    assert(texts(ids@) =~= named_stores(changes@.take(0)));
    while i < changes.len()
        invariant
            i <= changes.len(),
            texts(ids@) == named_stores(changes@.take(i as int)),
        decreases changes.len() - i,
    {
        let ghost before = ids@;
        ids.push(changes[i].store_id.clone());
        assert(texts(ids@) =~= texts(before).push(changes@[i as int].store_id@));
        assert(texts(ids@) =~= named_stores(changes@.take(i + 1)));
        i = i + 1;
    }
    assert(changes@.take(i as int) =~= changes@);
    ids
}

/// The rows a request names, by table.
#[derive(Debug)]
pub struct TouchedRows {
    pub lists: Vec<String>,
    pub members: Vec<String>,
    pub stores: Vec<String>,
    pub categories: Vec<String>,
    pub items: Vec<String>,
    /// The stores of the entries a request names: an entry reaches a list through its store.
    pub entry_stores: Vec<String>,
}

/// The rows a request names, from which the lists it touched are found.
pub fn touched_rows(request: &SyncRequest) -> (rows: TouchedRows)
    ensures
        texts(rows.lists@) == changed_ids(request.grocery_list_changes@),
        texts(rows.members@) == changed_ids(request.grocery_list_member_changes@),
        texts(rows.stores@) == changed_ids(request.store_changes@),
        texts(rows.categories@) == changed_ids(request.category_changes@),
        texts(rows.items@) == changed_ids(request.grocery_changes@),
        texts(rows.entry_stores@) == named_stores(request.grocery_item_store_info_changes@),
{
    TouchedRows {
        lists: ids_of(&request.grocery_list_changes),
        members: ids_of(&request.grocery_list_member_changes),
        stores: ids_of(&request.store_changes),
        categories: ids_of(&request.category_changes),
        items: ids_of(&request.grocery_changes),
        entry_stores: stores_of(&request.grocery_item_store_info_changes),
    }
}

/// A list a request touched.
#[derive(Debug)]
pub struct TouchedList {
    pub id: String,
    pub owner_id: Option<String>,
}

/// A membership of a list, whether or not it has been given up.
#[derive(Debug)]
pub struct Membership {
    pub list_id: String,
    pub user_id: String,
}

/// Whether a list is owned by a user.
pub open spec fn owns(lists: Seq<TouchedList>, user: Seq<char>, list: Seq<char>) -> bool {
    exists|i: int|
        0 <= i < lists.len() && (#[trigger] lists[i]).id@ == list && opt_text(lists[i].owner_id)
            == Some(user)
}

/// Whether a user has, or had, a membership of a list.
pub open spec fn belongs(members: Seq<Membership>, user: Seq<char>, list: Seq<char>) -> bool {
    exists|j: int|
        0 <= j < members.len() && (#[trigger] members[j]).list_id@ == list
            && members[j].user_id@ == user
}

/// Whether a list is among those touched.
pub open spec fn is_touched(lists: Seq<TouchedList>, list: Seq<char>) -> bool {
    exists|i: int| 0 <= i < lists.len() && (#[trigger] lists[i]).id@ == list
}

/// Whether a user is party to a touched list: its owner, or on it.
pub open spec fn party(
    lists: Seq<TouchedList>,
    members: Seq<Membership>,
    user: Seq<char>,
    list: Seq<char>,
) -> bool {
    is_touched(lists, list) && (owns(lists, user, list) || belongs(members, user, list))
}

/// Whether a user has to hear of a caller's request: both are party to a list it touched.
pub open spec fn affected(
    lists: Seq<TouchedList>,
    members: Seq<Membership>,
    caller: Seq<char>,
    user: Seq<char>,
) -> bool {
    exists|list: Seq<char>| #[trigger]
        party(lists, members, caller, list) && party(lists, members, user, list)
}

/// The touched lists a user is party to.
fn lists_of(lists: &Vec<TouchedList>, members: &Vec<Membership>, user: &str) -> (set: StringHashSet)
    ensures
        forall|list: Seq<char>| #[trigger]
            set@.contains(list) <==> party(lists@, members@, user@, list),
{
    let mut touched = StringHashSet::new();
    let mut set = StringHashSet::new();
    let mut i: usize = 0;
    while i < lists.len()
        invariant
            i <= lists.len(),
            forall|list: Seq<char>| #[trigger]
                touched@.contains(list) <==> is_touched(lists@.take(i as int), list),
            forall|list: Seq<char>| #[trigger]
                set@.contains(list) <==> owns(lists@.take(i as int), user@, list),
        decreases lists.len() - i,
    {
        touched.insert(lists[i].id.clone());
        let mine = match &lists[i].owner_id {
            Some(owner) => same_text(owner.as_str(), user),
            None => false,
        };
        if mine {
            set.insert(lists[i].id.clone());
        }
        proof {
            let seen = lists@.take(i as int);
            let next = lists@.take(i + 1);
            let row = lists@[i as int];
            assert forall|list: Seq<char>| #[trigger] touched@.contains(list) <==> is_touched(
                next,
                list,
            ) by {
                if is_touched(seen, list) {
                    let k = choose|k: int| 0 <= k < seen.len() && (#[trigger] seen[k]).id@ == list;
                    assert(next[k].id@ == list);
                }
                if row.id@ == list {
                    assert(next[i as int].id@ == list);
                }
                if is_touched(next, list) && row.id@ != list {
                    let k = choose|k: int| 0 <= k < next.len() && (#[trigger] next[k]).id@ == list;
                    assert(seen[k].id@ == list);
                }
            }
            assert forall|list: Seq<char>| #[trigger] set@.contains(list) <==> owns(
                next,
                user@,
                list,
            ) by {
                if owns(seen, user@, list) {
                    let k = choose|k: int|
                        0 <= k < seen.len() && (#[trigger] seen[k]).id@ == list && opt_text(
                            seen[k].owner_id,
                        ) == Some(user@);
                    assert(next[k].id@ == list);
                }
                if mine && row.id@ == list {
                    assert(next[i as int].id@ == list);
                }
                if owns(next, user@, list) {
                    let k = choose|k: int|
                        0 <= k < next.len() && (#[trigger] next[k]).id@ == list && opt_text(
                            next[k].owner_id,
                        ) == Some(user@);
                    if k < i {
                        assert(seen[k].id@ == list);
                    }
                }
            }
        }
        i = i + 1;
    }
    assert(lists@.take(i as int) =~= lists@);
    let mut j: usize = 0;
    while j < members.len()
        invariant
            j <= members.len(),
            forall|list: Seq<char>| #[trigger]
                touched@.contains(list) <==> is_touched(lists@, list),
            forall|list: Seq<char>| #[trigger]
                set@.contains(list) <==> owns(lists@, user@, list) || (is_touched(lists@, list)
                    && belongs(members@.take(j as int), user@, list)),
        decreases members.len() - j,
    {
        let member = &members[j];
        let mine = same_text(member.user_id.as_str(), user) && touched.contains(
            member.list_id.as_str(),
        );
        if mine {
            set.insert(member.list_id.clone());
        }
        proof {
            let seen = members@.take(j as int);
            let next = members@.take(j + 1);
            let row = members@[j as int];
            assert forall|list: Seq<char>| #[trigger] set@.contains(list) <==> owns(
                lists@,
                user@,
                list,
            ) || (is_touched(lists@, list) && belongs(next, user@, list)) by {
                if belongs(seen, user@, list) {
                    let k = choose|k: int|
                        0 <= k < seen.len() && (#[trigger] seen[k]).list_id@ == list
                            && seen[k].user_id@ == user@;
                    assert(next[k].list_id@ == list);
                }
                if mine && row.list_id@ == list {
                    assert(next[j as int].list_id@ == list);
                    assert(touched@.contains(list));
                }
                if belongs(next, user@, list) && is_touched(lists@, list) {
                    let k = choose|k: int|
                        0 <= k < next.len() && (#[trigger] next[k]).list_id@ == list
                            && next[k].user_id@ == user@;
                    if k < j {
                        assert(seen[k].list_id@ == list);
                    } else {
                        assert(touched@.contains(list));
                    }
                }
            }
        }
        j = j + 1;
    }
    assert(members@.take(j as int) =~= members@);
    proof {
        assert forall|list: Seq<char>| #[trigger] set@.contains(list) <==> party(
            lists@,
            members@,
            user@,
            list,
        ) by {
            if owns(lists@, user@, list) {
                let k = choose|k: int|
                    0 <= k < lists@.len() && (#[trigger] lists@[k]).id@ == list && opt_text(
                        lists@[k].owner_id,
                    ) == Some(user@);
                assert(is_touched(lists@, list));
            }
        }
    }
    set
}

/// Adds a user that is not in the list yet.
fn add_user(users: &mut Vec<String>, seen: &mut StringHashSet, user: &String)
    requires
        texts(old(users)@).no_duplicates(),
        forall|u: Seq<char>| #[trigger] old(seen)@.contains(u) <==> texts(old(users)@).contains(u),
    ensures
        texts(final(users)@).no_duplicates(),
        forall|u: Seq<char>| #[trigger]
            final(seen)@.contains(u) <==> texts(final(users)@).contains(u),
        forall|u: Seq<char>| #[trigger]
            texts(final(users)@).contains(u) <==> texts(old(users)@).contains(u) || u == user@,
{
    if !seen.contains(user.as_str()) {
        seen.insert(user.clone());
        users.push(user.clone());
        proof {
            let before = texts(old(users)@);
            let after = texts(users@);
            assert(after =~= before.push(user@));
            assert forall|u: Seq<char>| #[trigger] after.contains(u) <==> before.contains(u) || u
                == user@ by {
                if before.contains(u) {
                    let k = choose|k: int| 0 <= k < before.len() && before[k] == u;
                    assert(after[k] == u);
                }
                if u == user@ {
                    assert(after[before.len() as int] == u);
                }
            }
        }
    }
}

/// Whose caches a caller's request reaches: everybody who is party to a touched list the
/// caller is party to, each once. Memberships count even when they have been given up: a
/// member who was just removed has to hear of it too.
pub fn find_affected_grocery_users(
    user_id: &str,
    lists: &Vec<TouchedList>,
    members: &Vec<Membership>,
) -> (users: Vec<String>)
    ensures
        texts(users@).no_duplicates(),
        forall|u: Seq<char>| #[trigger]
            texts(users@).contains(u) <==> affected(lists@, members@, user_id@, u),
{
    let reachable = lists_of(lists, members, user_id);
    let mut users: Vec<String> = Vec::new();
    let mut seen = StringHashSet::new();
    let mut i: usize = 0;
    assert(texts(users@) =~= Seq::<Seq<char>>::empty());
    while i < lists.len()
        invariant
            i <= lists.len(),
            texts(users@).no_duplicates(),
            forall|list: Seq<char>| #[trigger]
                reachable@.contains(list) <==> party(lists@, members@, user_id@, list),
            forall|u: Seq<char>| #[trigger] seen@.contains(u) <==> texts(users@).contains(u),
            forall|u: Seq<char>| #[trigger]
                texts(users@).contains(u) <==> exists|k: int|
                    0 <= k < i && reachable@.contains((#[trigger] lists@[k]).id@) && opt_text(
                        lists@[k].owner_id,
                    ) == Some(u),
        decreases lists.len() - i,
    {
        let ghost before = texts(users@);
        if reachable.contains(lists[i].id.as_str()) {
            if let Some(owner) = &lists[i].owner_id {
                add_user(&mut users, &mut seen, owner);
            }
        }
        proof {
            let at = i as int;
            assert forall|u: Seq<char>| #[trigger] texts(users@).contains(u) <==> exists|k: int|
                0 <= k < at + 1 && reachable@.contains((#[trigger] lists@[k]).id@) && opt_text(
                    lists@[k].owner_id,
                ) == Some(u) by {
                if before.contains(u) {
                    let k = choose|k: int|
                        0 <= k < at && reachable@.contains((#[trigger] lists@[k]).id@) && opt_text(
                            lists@[k].owner_id,
                        ) == Some(u);
                    assert(reachable@.contains(lists@[k].id@));
                } else if texts(users@).contains(u) {
                    assert(reachable@.contains(lists@[at].id@));
                }
            }
        }
        i = i + 1;
    }
    let ghost owners = texts(users@);
    let mut j: usize = 0;
    while j < members.len()
        invariant
            j <= members.len(),
            texts(users@).no_duplicates(),
            forall|u: Seq<char>| #[trigger] seen@.contains(u) <==> texts(users@).contains(u),
            forall|u: Seq<char>| #[trigger]
                texts(users@).contains(u) <==> owners.contains(u) || exists|k: int|
                    0 <= k < j && reachable@.contains((#[trigger] members@[k]).list_id@)
                        && members@[k].user_id@ == u,
        decreases members.len() - j,
    {
        let ghost before = texts(users@);
        if reachable.contains(members[j].list_id.as_str()) {
            add_user(&mut users, &mut seen, &members[j].user_id);
        }
        proof {
            let at = j as int;
            assert forall|u: Seq<char>| #[trigger] texts(users@).contains(u) <==> owners.contains(u)
                || exists|k: int|
                0 <= k < at + 1 && reachable@.contains((#[trigger] members@[k]).list_id@)
                    && members@[k].user_id@ == u by {
                if before.contains(u) && !owners.contains(u) {
                    let k = choose|k: int|
                        0 <= k < at && reachable@.contains((#[trigger] members@[k]).list_id@)
                            && members@[k].user_id@ == u;
                    assert(reachable@.contains(members@[k].list_id@));
                } else if texts(users@).contains(u) && !before.contains(u) {
                    assert(reachable@.contains(members@[at].list_id@));
                }
            }
        }
        j = j + 1;
    }
    proof {
        assert forall|u: Seq<char>| #[trigger] texts(users@).contains(u) <==> affected(
            lists@,
            members@,
            user_id@,
            u,
        ) by {
            if owners.contains(u) {
                let k = choose|k: int|
                    0 <= k < lists@.len() && reachable@.contains((#[trigger] lists@[k]).id@)
                        && opt_text(lists@[k].owner_id) == Some(u);
                let list = lists@[k].id@;
                assert(owns(lists@, u, list));
                assert(party(lists@, members@, user_id@, list) && party(lists@, members@, u, list));
            } else if texts(users@).contains(u) {
                let k = choose|k: int|
                    0 <= k < members@.len() && reachable@.contains(
                        (#[trigger] members@[k]).list_id@,
                    ) && members@[k].user_id@ == u;
                let list = members@[k].list_id@;
                assert(belongs(members@, u, list));
                assert(party(lists@, members@, user_id@, list) && party(lists@, members@, u, list));
            }
            if affected(lists@, members@, user_id@, u) {
                let list = choose|list: Seq<char>| #[trigger]
                    party(lists@, members@, user_id@, list) && party(lists@, members@, u, list);
                assert(reachable@.contains(list));
                if owns(lists@, u, list) {
                    let k = choose|k: int|
                        0 <= k < lists@.len() && (#[trigger] lists@[k]).id@ == list && opt_text(
                            lists@[k].owner_id,
                        ) == Some(u);
                    assert(reachable@.contains(lists@[k].id@));
                    assert(owners.contains(u));
                } else {
                    let k = choose|k: int|
                        0 <= k < members@.len() && (#[trigger] members@[k]).list_id@ == list
                            && members@[k].user_id@ == u;
                    assert(reachable@.contains(members@[k].list_id@));
                }
            }
        }
    }
    users
}

/// A caller steers nobody's caches but those of people they share a touched list with: a
/// caller who is party to none of the touched lists reaches nobody, and who is reached is
/// party to one.
pub proof fn a_stranger_reaches_nobody(
    lists: Seq<TouchedList>,
    members: Seq<Membership>,
    caller: Seq<char>,
    user: Seq<char>,
)
    ensures
        (forall|list: Seq<char>| !#[trigger] party(lists, members, caller, list)) ==> !affected(
            lists,
            members,
            caller,
            user,
        ),
        affected(lists, members, caller, user) ==> affected(lists, members, user, caller),
{
    if affected(lists, members, caller, user) {
        let list = choose|list: Seq<char>| #[trigger]
            party(lists, members, caller, list) && party(lists, members, user, list);
        assert(party(lists, members, user, list) && party(lists, members, caller, list));
    }
}

/// Whether somebody sees a list: they own it, or are or were on it.
pub open spec fn sees(list: TouchedList, members: Seq<Membership>, user: Seq<char>) -> bool {
    ||| (list.owner_id matches Some(owner) && owner@ == user)
    ||| (exists|j: int|
        0 <= j < members.len() && (#[trigger] members[j]).list_id@ == list.id@
            && members[j].user_id@ == user)
}

/// Everybody who sees a list that was touched hears of it from everybody who does, once, and
/// who hears of it sees a list that the caller sees too.
pub proof fn those_who_share_a_list_hear_of_each_other(
    caller: &str,
    lists: &Vec<TouchedList>,
    members: &Vec<Membership>,
    users: Vec<String>,
    user: Seq<char>,
)
    requires
        call_ensures(find_affected_grocery_users, (caller, lists, members), users),
    ensures
        forall|i: int|
            0 <= i < lists@.len() && sees(#[trigger] lists@[i], members@, caller@) && sees(
                lists@[i],
                members@,
                user,
            ) ==> texts(users@).contains(user),
        texts(users@).contains(user) ==> exists|i: int, k: int|
            0 <= i < lists@.len() && 0 <= k < lists@.len() && lists@[i].id@ == lists@[k].id@
                && #[trigger] sees(lists@[i], members@, caller@) && #[trigger] sees(
                lists@[k],
                members@,
                user,
            ),
        forall|i: int, k: int|
            0 <= i < k < users@.len() ==> (#[trigger] users@[i])@ != (#[trigger] users@[k])@,
{
    assert forall|i: int|
        0 <= i < lists@.len() && sees(#[trigger] lists@[i], members@, caller@) && sees(
            lists@[i],
            members@,
            user,
        ) implies texts(users@).contains(user) by {
        let list = lists@[i].id@;
        sight_makes_party(lists@, members@, caller@, i);
        sight_makes_party(lists@, members@, user, i);
        assert(party(lists@, members@, caller@, list) && party(lists@, members@, user, list));
        assert(affected(lists@, members@, caller@, user));
    }
    if texts(users@).contains(user) {
        assert(affected(lists@, members@, caller@, user));
        let list = choose|list: Seq<char>| #[trigger]
            party(lists@, members@, caller@, list) && party(lists@, members@, user, list);
        let i = party_has_sight(lists@, members@, caller@, list);
        let k = party_has_sight(lists@, members@, user, list);
        assert(sees(lists@[i], members@, caller@) && sees(lists@[k], members@, user));
    }
    assert forall|i: int, k: int| 0 <= i < k < users@.len() implies (#[trigger] users@[i])@ != (
    #[trigger] users@[k])@ by {
        assert(texts(users@)[i] == users@[i]@);
        assert(texts(users@)[k] == users@[k]@);
    }
}

proof fn sight_makes_party(
    lists: Seq<TouchedList>,
    members: Seq<Membership>,
    user: Seq<char>,
    i: int,
)
    requires
        0 <= i < lists.len(),
        sees(lists[i], members, user),
    ensures
        party(lists, members, user, lists[i].id@),
{
    let list = lists[i].id@;
    assert(is_touched(lists, list));
    if lists[i].owner_id matches Some(owner) && owner@ == user {
        assert(owns(lists, user, list));
    } else {
        let j = choose|j: int|
            0 <= j < members.len() && (#[trigger] members[j]).list_id@ == list
                && members[j].user_id@ == user;
        assert(belongs(members, user, list));
    }
}

proof fn party_has_sight(
    lists: Seq<TouchedList>,
    members: Seq<Membership>,
    user: Seq<char>,
    list: Seq<char>,
) -> (i: int)
    requires
        party(lists, members, user, list),
    ensures
        0 <= i < lists.len(),
        lists[i].id@ == list,
        sees(lists[i], members, user),
{
    if owns(lists, user, list) {
        choose|i: int|
            0 <= i < lists.len() && (#[trigger] lists[i]).id@ == list && opt_text(lists[i].owner_id)
                == Some(user)
    } else {
        let i = choose|i: int| 0 <= i < lists.len() && (#[trigger] lists[i]).id@ == list;
        let j = choose|j: int|
            0 <= j < members.len() && (#[trigger] members[j]).list_id@ == list
                && members[j].user_id@ == user;
        assert(members[j].list_id@ == lists[i].id@);
        i
    }
}

/// The rows a request touches are those its changes are about, one for one and table by table;
/// an entry counts for its store.
pub proof fn the_rows_touched_are_those_changed(request: &SyncRequest, rows: TouchedRows, i: int)
    requires
        call_ensures(touched_rows, (request,), rows),
    ensures
        rows.lists@.len() == request.grocery_list_changes@.len(),
        rows.members@.len() == request.grocery_list_member_changes@.len(),
        rows.stores@.len() == request.store_changes@.len(),
        rows.categories@.len() == request.category_changes@.len(),
        rows.items@.len() == request.grocery_changes@.len(),
        rows.entry_stores@.len() == request.grocery_item_store_info_changes@.len(),
        0 <= i < rows.lists@.len() ==> rows.lists@[i]@ == request.grocery_list_changes@[i].id@,
        0 <= i < rows.members@.len() ==> rows.members@[i]@
            == request.grocery_list_member_changes@[i].id@,
        0 <= i < rows.stores@.len() ==> rows.stores@[i]@ == request.store_changes@[i].id@,
        0 <= i < rows.categories@.len() ==> rows.categories@[i]@ == request.category_changes@[i].id@,
        0 <= i < rows.items@.len() ==> rows.items@[i]@ == request.grocery_changes@[i].id@,
        0 <= i < rows.entry_stores@.len() ==> rows.entry_stores@[i]@
            == request.grocery_item_store_info_changes@[i].store_id@,
{
    assert(texts(rows.lists@).len() == rows.lists@.len());
    assert(texts(rows.members@).len() == rows.members@.len());
    assert(texts(rows.stores@).len() == rows.stores@.len());
    assert(texts(rows.categories@).len() == rows.categories@.len());
    assert(texts(rows.items@).len() == rows.items@.len());
    assert(texts(rows.entry_stores@).len() == rows.entry_stores@.len());
    if 0 <= i < rows.lists@.len() {
        assert(texts(rows.lists@)[i] == rows.lists@[i]@);
    }
    if 0 <= i < rows.members@.len() {
        assert(texts(rows.members@)[i] == rows.members@[i]@);
    }
    if 0 <= i < rows.stores@.len() {
        assert(texts(rows.stores@)[i] == rows.stores@[i]@);
    }
    if 0 <= i < rows.categories@.len() {
        assert(texts(rows.categories@)[i] == rows.categories@[i]@);
    }
    if 0 <= i < rows.items@.len() {
        assert(texts(rows.items@)[i] == rows.items@[i]@);
    }
    if 0 <= i < rows.entry_stores@.len() {
        assert(texts(rows.entry_stores@)[i] == rows.entry_stores@[i]@);
    }
}

} // verus!
