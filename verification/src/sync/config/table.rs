//! Why the lookups of a batch can be trusted.
//!
//! The laws here are about the table of configs as a whole: what was read up front stays
//! true of every id and key that is not marked, whatever the batch writes, and a write that
//! lands where it was resolved to breaks neither of the table's unique keys.

use crate::ids::Uuid;
use crate::sync::config::cache::{
    asked, either_row, existing_of, id_set, key_set, key_token, target_of, tokens_are_distinct,
    visible, CacheView, CachedConfig, ConfigTarget, TargetFacts,
};
use crate::text::texts;
use vstd::prelude::*;

verus! {

/// Whether a row sits under a key of a device of an account.
pub open spec fn sits(row: CachedConfig, user: Uuid, device: Uuid, key: Seq<char>) -> bool {
    row.user_id == user && row.device_uuid == device && row.key@ == key
}

/// The table's unique keys: every row stands under its own id, and no two rows sit under one
/// key of one device of one account.
pub open spec fn table_ok(t: Map<u128, CachedConfig>) -> bool {
    &&& forall|id: u128| #[trigger] t.contains_key(id) ==> t[id].id.bits == id
    &&& forall|a: u128, b: u128|
        #![trigger t.contains_key(a), t.contains_key(b)]
        t.contains_key(a) && t.contains_key(b) && sits(
            t[a],
            t[b].user_id,
            t[b].device_uuid,
            t[b].key@,
        ) ==> a == b
}

/// The row under an id, within the account and, where one is named, the device.
pub open spec fn table_row(
    t: Map<u128, CachedConfig>,
    user: Uuid,
    id: Uuid,
    device: Option<Uuid>,
) -> Option<CachedConfig> {
    if t.contains_key(id.bits) && visible(t[id.bits], user, device) {
        Some(t[id.bits])
    } else {
        None
    }
}

/// The row under a key of a device of an account.
pub open spec fn row_at_key(
    t: Map<u128, CachedConfig>,
    user: Uuid,
    device: Uuid,
    key: Seq<char>,
) -> Option<CachedConfig> {
    if exists|id: u128| #[trigger] t.contains_key(id) && sits(t[id], user, device, key) {
        Some(
            t[choose|id: u128| #[trigger] t.contains_key(id) && sits(t[id], user, device, key)],
        )
    } else {
        None
    }
}

/// What the table says of the rows a write could land on.
pub open spec fn table_facts(
    t: Map<u128, CachedConfig>,
    user: Uuid,
    device: Uuid,
    id: Uuid,
    key: Seq<char>,
) -> TargetFacts {
    TargetFacts {
        existing: existing_of(
            either_row(row_at_key(t, user, device, key), table_row(t, user, id, Some(device))),
        ),
        id_taken: t.contains_key(id.bits),
    }
}

/// Whether what the cache holds is true of the table, for every id and key it still answers.
pub open spec fn agrees(c: CacheView, t: Map<u128, CachedConfig>, user: Uuid) -> bool {
    &&& forall|id: Uuid| #[trigger]
        c.id_fresh(id) ==> {
            &&& c.taken.contains(id.bits) <==> t.contains_key(id.bits)
            &&& c.rows.contains_key(id.bits) <==> t.contains_key(id.bits) && t[id.bits].user_id
                == user
            &&& c.rows.contains_key(id.bits) ==> c.rows[id.bits] == t[id.bits]
        }
    &&& forall|device: Uuid, key: Seq<char>| #[trigger]
        c.key_fresh(device, key) ==> c.row_under(device, key) == row_at_key(t, user, device, key)
}

/// Whether the database answered the lookups of a batch from this table.
pub open spec fn answered(
    t: Map<u128, CachedConfig>,
    user: Uuid,
    ids: Seq<Uuid>,
    keys: Seq<String>,
    taken: Seq<Uuid>,
    under_ids: Seq<CachedConfig>,
    under_keys: Seq<CachedConfig>,
) -> bool {
    &&& forall|id: Uuid| #[trigger]
        taken.contains(id) <==> ids.contains(id) && t.contains_key(id.bits)
    &&& forall|row: CachedConfig| #[trigger]
        under_ids.contains(row) <==> ids.contains(row.id) && t.contains_key(row.id.bits)
            && t[row.id.bits] == row && row.user_id == user
    &&& forall|row: CachedConfig| #[trigger]
        under_keys.contains(row) <==> texts(keys).contains(row.key@) && t.contains_key(row.id.bits)
            && t[row.id.bits] == row && row.user_id == user
}

proof fn row_at_key_is(t: Map<u128, CachedConfig>, user: Uuid, device: Uuid, key: Seq<char>, id: u128)
    requires
        table_ok(t),
        t.contains_key(id),
        sits(t[id], user, device, key),
    ensures
        row_at_key(t, user, device, key) == Some(t[id]),
{
    let found = choose|id: u128| #[trigger] t.contains_key(id) && sits(t[id], user, device, key);
    assert(t.contains_key(found) && sits(t[found], user, device, key));
    assert(found == id);
}

/// Whether everything in the cache is a row of the account, under its id and its key.
spec fn mirrors(c: CacheView, t: Map<u128, CachedConfig>, user: Uuid) -> bool {
    &&& forall|id: u128| #[trigger]
        c.rows.contains_key(id) ==> t.contains_key(id) && c.rows[id] == t[id] && t[id].user_id
            == user
    &&& forall|token: Seq<char>| #[trigger]
        c.keys.contains_key(token) ==> c.rows.contains_key(c.keys[token].bits) && token
            == key_token(
            c.rows[c.keys[token].bits].device_uuid,
            c.rows[c.keys[token].bits].key@,
        )
}

proof fn rows_enter(c: CacheView, rows: Seq<CachedConfig>, t: Map<u128, CachedConfig>, user: Uuid)
    requires
        table_ok(t),
        mirrors(c, t, user),
        forall|i: int|
            0 <= i < rows.len() ==> t.contains_key((#[trigger] rows[i]).id.bits) && t[rows[i].id.bits]
                == rows[i] && rows[i].user_id == user,
    ensures
        mirrors(c.with_rows(rows), t, user),
        forall|i: int|
            0 <= i < rows.len() ==> c.with_rows(rows).rows.contains_key(
                (#[trigger] rows[i]).id.bits,
            ) && c.with_rows(rows).keys.contains_key(key_token(rows[i].device_uuid, rows[i].key@)),
        forall|id: u128| #[trigger]
            c.rows.contains_key(id) ==> c.with_rows(rows).rows.contains_key(id),
        forall|token: Seq<char>| #[trigger]
            c.keys.contains_key(token) ==> c.with_rows(rows).keys.contains_key(token),
        c.with_rows(rows) == (CacheView {
            rows: c.with_rows(rows).rows,
            keys: c.with_rows(rows).keys,
            ..c
        }),
    decreases rows.len(),
{
    if rows.len() > 0 {
        let front = rows.drop_last();
        let row = rows.last();
        assert forall|i: int| 0 <= i < front.len() implies t.contains_key(
            (#[trigger] front[i]).id.bits,
        ) && t[front[i].id.bits] == front[i] && front[i].user_id == user by {
            assert(front[i] == rows[i]);
        }
        rows_enter(c, front, t, user);
        assert(row == rows[rows.len() - 1]);
        let before = c.with_rows(front);
        let after = c.with_rows(rows);
        let token = key_token(row.device_uuid, row.key@);
        assert forall|other: Seq<char>| #[trigger] after.keys.contains_key(other) implies after.rows.contains_key(
            after.keys[other].bits,
        ) && other == key_token(
            after.rows[after.keys[other].bits].device_uuid,
            after.rows[after.keys[other].bits].key@,
        ) by {
            if other != token {
                assert(before.keys.contains_key(other));
                assert(before.rows[before.keys[other].bits] == t[before.keys[other].bits]);
            }
        }
        assert forall|i: int| 0 <= i < rows.len() implies after.rows.contains_key(
            (#[trigger] rows[i]).id.bits,
        ) && after.keys.contains_key(key_token(rows[i].device_uuid, rows[i].key@)) by {
            if i < front.len() {
                assert(front[i] == rows[i]);
            }
        }
    }
}

/// A row under a mirrored key is the table's row there.
proof fn mirrored_key(c: CacheView, t: Map<u128, CachedConfig>, user: Uuid, device: Uuid, key: Seq<char>)
    requires
        table_ok(t),
        mirrors(c, t, user),
        forall|id: u128| #[trigger]
            t.contains_key(id) && sits(t[id], user, device, key) ==> c.keys.contains_key(
                key_token(device, key),
            ),
    ensures
        c.row_under(device, key) == row_at_key(t, user, device, key),
{
    let token = key_token(device, key);
    if c.keys.contains_key(token) {
        let id = c.keys[token].bits;
        let row = c.rows[id];
        tokens_are_distinct(device, device, device, key, row.device_uuid, row.key@);
        assert(t.contains_key(id) && sits(t[id], user, device, key));
        row_at_key_is(t, user, device, key, id);
    } else {
        assert(!(exists|id: u128| #[trigger] t.contains_key(id) && sits(t[id], user, device, key)));
    }
}

/// What a batch reads up front is true of the table it was read from.
pub proof fn a_loaded_cache_is_true(
    t: Map<u128, CachedConfig>,
    user: Uuid,
    ids: Seq<Uuid>,
    keys: Seq<String>,
    taken: Seq<Uuid>,
    under_ids: Seq<CachedConfig>,
    under_keys: Seq<CachedConfig>,
)
    requires
        table_ok(t),
        answered(t, user, ids, keys, taken, under_ids, under_keys),
    ensures
        agrees(asked(ids, keys, taken).with_rows(under_ids).with_rows(under_keys), t, user),
{
    let empty = asked(ids, keys, taken);
    let half = empty.with_rows(under_ids);
    let c = half.with_rows(under_keys);
    assert forall|i: int| 0 <= i < under_ids.len() implies t.contains_key(
        (#[trigger] under_ids[i]).id.bits,
    ) && t[under_ids[i].id.bits] == under_ids[i] && under_ids[i].user_id == user by {
        assert(under_ids.contains(under_ids[i]));
    }
    assert forall|i: int| 0 <= i < under_keys.len() implies t.contains_key(
        (#[trigger] under_keys[i]).id.bits,
    ) && t[under_keys[i].id.bits] == under_keys[i] && under_keys[i].user_id == user by {
        assert(under_keys.contains(under_keys[i]));
    }
    rows_enter(empty, under_ids, t, user);
    rows_enter(half, under_keys, t, user);
    assert forall|id: Uuid| #[trigger] c.id_fresh(id) implies {
        &&& c.taken.contains(id.bits) <==> t.contains_key(id.bits)
        &&& c.rows.contains_key(id.bits) <==> t.contains_key(id.bits) && t[id.bits].user_id == user
        &&& c.rows.contains_key(id.bits) ==> c.rows[id.bits] == t[id.bits]
    } by {
        assert(Uuid { bits: id.bits } == id);
        assert(id_set(ids).contains(id.bits));
        assert(ids.contains(id));
        assert(c.taken == id_set(taken));
        assert(c.taken.contains(id.bits) == taken.contains(id));
        if t.contains_key(id.bits) && t[id.bits].user_id == user {
            let row = t[id.bits];
            assert(row.id == id);
            assert(under_ids.contains(row));
            let i = choose|i: int| 0 <= i < under_ids.len() && under_ids[i] == row;
            assert(half.rows.contains_key(under_ids[i].id.bits));
        }
    }
    assert forall|device: Uuid, key: Seq<char>| #[trigger] c.key_fresh(device, key) implies c.row_under(
        device,
        key,
    ) == row_at_key(t, user, device, key) by {
        assert(key_set(keys).contains(key));
        assert(texts(keys).contains(key));
        assert forall|id: u128| #[trigger]
            t.contains_key(id) && sits(t[id], user, device, key) implies c.keys.contains_key(
            key_token(device, key),
        ) by {
            let row = t[id];
            assert(row.id.bits == id);
            assert(under_keys.contains(row));
            let i = choose|i: int| 0 <= i < under_keys.len() && under_keys[i] == row;
            assert(c.keys.contains_key(key_token(under_keys[i].device_uuid, under_keys[i].key@)));
        }
        mirrored_key(c, t, user, device, key);
    }
}

/// A fresh answer of the cache is the answer the database would give.
pub proof fn a_fresh_answer_is_the_tables(
    c: CacheView,
    t: Map<u128, CachedConfig>,
    user: Uuid,
    device: Uuid,
    id: Uuid,
    key: Seq<char>,
)
    requires
        agrees(c, t, user),
    ensures
        c.id_fresh(id) ==> c.row(user, id, None) == table_row(t, user, id, None),
        c.id_fresh(id) ==> c.row(user, id, Some(device)) == table_row(t, user, id, Some(device)),
        c.target_fresh(id, device, key) ==> c.facts(user, device, id, key) == table_facts(
            t,
            user,
            device,
            id,
            key,
        ),
{
    if c.id_fresh(id) {
        assert(c.rows.contains_key(id.bits) <==> t.contains_key(id.bits) && t[id.bits].user_id
            == user);
    }
    if c.target_fresh(id, device, key) {
        assert(c.key_fresh(device, key));
    }
}

/// The table after a resolved write: the row it lands on, if any, has become `row`.
pub open spec fn after_write(
    t: Map<u128, CachedConfig>,
    target: ConfigTarget,
    row: CachedConfig,
) -> Map<u128, CachedConfig> {
    match target.existing {
        Some(existing) => t.remove(existing.id.bits).insert(target.new_id.bits, row),
        None => t.insert(target.new_id.bits, row),
    }
}

proof fn facts_point_into_the_table(
    t: Map<u128, CachedConfig>,
    user: Uuid,
    device: Uuid,
    id: Uuid,
    key: Seq<char>,
)
    requires
        table_ok(t),
    ensures
        table_facts(t, user, device, id, key).existing matches Some(e) ==> t.contains_key(e.id.bits)
            && t[e.id.bits].id == e.id && t[e.id.bits].user_id == user && t[e.id.bits].device_uuid
            == device && t[e.id.bits].key == e.key && (row_at_key(t, user, device, key) is Some
            ==> e.key@ == key),
        table_facts(t, user, device, id, key).existing is None ==> row_at_key(
            t,
            user,
            device,
            key,
        ) is None,
{
    if row_at_key(t, user, device, key) is Some {
        let found = choose|id: u128| #[trigger]
            t.contains_key(id) && sits(t[id], user, device, key);
        assert(t.contains_key(found) && sits(t[found], user, device, key));
    }
}

/// A write that lands where it was resolved to collides with no other row: the id it takes
/// is its own row's or free, and the table's unique keys hold after it.
pub proof fn a_resolved_write_collides_with_nothing(
    t: Map<u128, CachedConfig>,
    user: Uuid,
    device: Uuid,
    submitted: Uuid,
    fresh: Uuid,
    row: CachedConfig,
)
    requires
        table_ok(t),
        !t.contains_key(fresh.bits),
        row.user_id == user,
        row.device_uuid == device,
        row.id == target_of(
            table_facts(t, user, device, submitted, row.key@),
            submitted,
            fresh,
        ).new_id,
    ensures
        ({
            let target = target_of(
                table_facts(t, user, device, submitted, row.key@),
                submitted,
                fresh,
            );
            &&& t.contains_key(target.new_id.bits) ==> (target.existing matches Some(e) && e.id
                == target.new_id)
            &&& table_ok(after_write(t, target, row))
        }),
{
    let facts = table_facts(t, user, device, submitted, row.key@);
    let target = target_of(facts, submitted, fresh);
    let after = after_write(t, target, row);
    facts_point_into_the_table(t, user, device, submitted, row.key@);
    let new_id = target.new_id.bits;
    assert forall|a: u128, b: u128|
        #![trigger after.contains_key(a), after.contains_key(b)]
        after.contains_key(a) && after.contains_key(b) && sits(
            after[a],
            after[b].user_id,
            after[b].device_uuid,
            after[b].key@,
        ) implies a == b by {
        if a != new_id && b != new_id {
            assert(t.contains_key(a) && t.contains_key(b));
        } else if a != b {
            let other = if a == new_id {
                b
            } else {
                a
            };
            assert(t.contains_key(other));
            assert(sits(t[other], user, device, row.key@));
            row_at_key_is(t, user, device, row.key@, other);
            assert(facts.existing is Some);
            assert(facts.existing->Some_0.id == t[other].id);
            assert(!after.contains_key(other));
        }
    }
}

/// After a resolved write has been noted, everything the cache still answers is true of the
/// table with the write in it.
pub proof fn a_noted_write_keeps_the_cache_true(
    c: CacheView,
    t: Map<u128, CachedConfig>,
    user: Uuid,
    device: Uuid,
    submitted: Uuid,
    fresh: Uuid,
    row: CachedConfig,
)
    requires
        table_ok(t),
        agrees(c, t, user),
        !t.contains_key(fresh.bits),
        row.user_id == user,
        row.device_uuid == device,
        row.id == target_of(
            table_facts(t, user, device, submitted, row.key@),
            submitted,
            fresh,
        ).new_id,
    ensures
        ({
            let target = target_of(
                table_facts(t, user, device, submitted, row.key@),
                submitted,
                fresh,
            );
            agrees(c.noted(device, target, row.key@), after_write(t, target, row), user)
        }),
{
    let facts = table_facts(t, user, device, submitted, row.key@);
    let target = target_of(facts, submitted, fresh);
    let after = after_write(t, target, row);
    let noted = c.noted(device, target, row.key@);
    facts_point_into_the_table(t, user, device, submitted, row.key@);
    a_resolved_write_collides_with_nothing(t, user, device, submitted, fresh, row);
    assert forall|id: Uuid| #[trigger] noted.id_fresh(id) implies {
        &&& noted.taken.contains(id.bits) <==> after.contains_key(id.bits)
        &&& noted.rows.contains_key(id.bits) <==> after.contains_key(id.bits)
            && after[id.bits].user_id == user
        &&& noted.rows.contains_key(id.bits) ==> noted.rows[id.bits] == after[id.bits]
    } by {
        assert(c.id_fresh(id));
        assert(id.bits != target.new_id.bits);
    }
    assert forall|d: Uuid, k: Seq<char>| #[trigger] noted.key_fresh(d, k) implies noted.row_under(
        d,
        k,
    ) == row_at_key(after, user, d, k) by {
        assert(c.key_fresh(d, k));
        assert(key_token(d, k) != key_token(device, row.key@));
        assert(noted.row_under(d, k) == c.row_under(d, k));
        assert(!sits(row, user, d, k));
        if row_at_key(t, user, d, k) is Some {
            let found = choose|id: u128| #[trigger] t.contains_key(id) && sits(t[id], user, d, k);
            assert(t.contains_key(found) && sits(t[found], user, d, k));
            if let Some(e) = target.existing {
                assert(key_token(d, k) != key_token(device, e.key@));
                assert(found != e.id.bits);
            }
            if found == target.new_id.bits {
                assert(target.existing is Some);
            }
            assert(after.contains_key(found) && after[found] == t[found]);
            row_at_key_is(after, user, d, k, found);
        } else {
            assert forall|id: u128| #[trigger] after.contains_key(id) implies !sits(
                after[id],
                user,
                d,
                k,
            ) by {
                if id != target.new_id.bits {
                    assert(t.contains_key(id));
                }
            }
        }
    }
}

/// After a write in place has been noted, everything the cache still answers is true of the
/// table with the write in it.
pub proof fn a_noted_bump_keeps_the_cache_true(
    c: CacheView,
    t: Map<u128, CachedConfig>,
    user: Uuid,
    row: CachedConfig,
)
    requires
        table_ok(t),
        agrees(c, t, user),
        t.contains_key(row.id.bits),
        sits(t[row.id.bits], row.user_id, row.device_uuid, row.key@),
        row.user_id == user,
    ensures
        table_ok(t.insert(row.id.bits, row)),
        agrees(
            c.touched(row.id, row.device_uuid, row.key@),
            t.insert(row.id.bits, row),
            user,
        ),
{
    let after = t.insert(row.id.bits, row);
    let noted = c.touched(row.id, row.device_uuid, row.key@);
    assert forall|a: u128, b: u128|
        #![trigger after.contains_key(a), after.contains_key(b)]
        after.contains_key(a) && after.contains_key(b) && sits(
            after[a],
            after[b].user_id,
            after[b].device_uuid,
            after[b].key@,
        ) implies a == b by {
        assert(t.contains_key(a) && t.contains_key(b));
    }
    assert forall|id: Uuid| #[trigger] noted.id_fresh(id) implies {
        &&& noted.taken.contains(id.bits) <==> after.contains_key(id.bits)
        &&& noted.rows.contains_key(id.bits) <==> after.contains_key(id.bits)
            && after[id.bits].user_id == user
        &&& noted.rows.contains_key(id.bits) ==> noted.rows[id.bits] == after[id.bits]
    } by {
        assert(c.id_fresh(id));
    }
    assert forall|d: Uuid, k: Seq<char>| #[trigger] noted.key_fresh(d, k) implies noted.row_under(
        d,
        k,
    ) == row_at_key(after, user, d, k) by {
        assert(c.key_fresh(d, k));
        assert(noted.row_under(d, k) == c.row_under(d, k));
        if row_at_key(t, user, d, k) is Some {
            let found = choose|id: u128| #[trigger] t.contains_key(id) && sits(t[id], user, d, k);
            assert(t.contains_key(found) && sits(t[found], user, d, k));
            assert(found != row.id.bits);
            assert(after.contains_key(found) && after[found] == t[found]);
            row_at_key_is(after, user, d, k, found);
        } else {
            assert forall|id: u128| #[trigger] after.contains_key(id) implies !sits(
                after[id],
                user,
                d,
                k,
            ) by {
                assert(t.contains_key(id));
            }
        }
    }
}

} // verus!
