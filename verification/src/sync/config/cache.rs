//! Every config lookup a batch of writes would otherwise make one item at a time.
//!
//! The rows a batch may touch are read up front. The batch writes as it goes, so what was
//! read goes stale under it: an id or key the batch has touched is marked, and an item that
//! meets a marked one goes back to the database.

use crate::ids::{hyphenated, hyphenated_injective, hyphenated_len, Uuid};
use crate::sync::types::SyncState;
use std::collections::{HashMap, HashSet};
use vstd::hash_map::StringHashMap;
use vstd::hash_set::StringHashSet;
use vstd::prelude::*;

verus! {

broadcast use vstd::std_specs::hash::group_hash_axioms;

/// A config as the server holds it.
#[derive(Debug)]
pub struct CachedConfig {
    pub id: Uuid,
    pub user_id: Uuid,
    pub device_uuid: Uuid,
    pub client_uuid: Uuid,
    pub version: i32,
    pub is_deleted: bool,
    pub last_modified: i64,
    pub sync_state: Option<SyncState>,
    pub key: String,
    pub value: String,
}

impl CachedConfig {
    /// A copy of this row.
    pub fn copy(&self) -> (row: CachedConfig)
        ensures
            row == *self,
    {
        CachedConfig {
            id: self.id,
            user_id: self.user_id,
            device_uuid: self.device_uuid,
            client_uuid: self.client_uuid,
            version: self.version,
            is_deleted: self.is_deleted,
            last_modified: self.last_modified,
            sync_state: match &self.sync_state {
                Some(state) => Some(state.copy()),
                None => None,
            },
            key: self.key.clone(),
            value: self.value.clone(),
        }
    }
}

/// The text that stands for an id among the things a write touches.
pub open spec fn id_token(id: Uuid) -> Seq<char> {
    "id:"@ + hyphenated(id.bits)
}

/// The text that stands for a key on a device among the things a write touches.
pub open spec fn key_token(device: Uuid, key: Seq<char>) -> Seq<char> {
    "key:"@ + hyphenated(device.bits) + "/"@ + key
}

/// The text that stands for an id.
pub fn id_token_text(id: Uuid) -> (s: String)
    ensures
        s@ == id_token(id),
{
    let mut s = "id:".to_owned();
    s.append(id.text().as_str());
    s
}

/// The text that stands for a key on a device.
pub fn key_token_text(device: Uuid, key: &str) -> (s: String)
    ensures
        s@ == key_token(device, key@),
{
    let mut s = "key:".to_owned();
    s.append(device.text().as_str());
    s.append("/");
    s.append(key);
    s
}

/// Distinct ids, and distinct keys of devices, stand under distinct texts, and no id stands
/// under the text of a key.
pub proof fn tokens_are_distinct(a: Uuid, b: Uuid, c: Uuid, k: Seq<char>, d: Uuid, l: Seq<char>)
    ensures
        id_token(a) == id_token(b) ==> a == b,
        key_token(c, k) == key_token(d, l) ==> c == d && k == l,
        id_token(a) != key_token(c, k),
{
    reveal_strlit("id:");
    reveal_strlit("key:");
    reveal_strlit("/");
    hyphenated_len(a.bits);
    hyphenated_len(b.bits);
    hyphenated_len(c.bits);
    hyphenated_len(d.bits);
    assert(id_token(a)[0] == 'i');
    assert(key_token(c, k)[0] == 'k');
    if id_token(a) == id_token(b) {
        assert(id_token(a).subrange(3, 39) =~= hyphenated(a.bits));
        assert(id_token(b).subrange(3, 39) =~= hyphenated(b.bits));
        hyphenated_injective(a.bits, b.bits);
    }
    if key_token(c, k) == key_token(d, l) {
        assert(key_token(c, k).subrange(4, 40) =~= hyphenated(c.bits));
        assert(key_token(d, l).subrange(4, 40) =~= hyphenated(d.bits));
        hyphenated_injective(c.bits, d.bits);
        assert(key_token(c, k).skip(41) =~= k);
        assert(key_token(d, l).skip(41) =~= l);
    }
}

/// What the batch knows of the table, and what of it has gone stale.
#[verifier::ext_equal]
pub struct CacheView {
    /// Rows of the account, by id.
    pub rows: Map<u128, CachedConfig>,
    /// The same rows' ids, by the token of their device and key.
    pub keys: Map<Seq<char>, Uuid>,
    /// The ids among those asked about that exist anywhere in the table.
    pub taken: Set<u128>,
    /// The ids that were asked about.
    pub asked_ids: Set<u128>,
    /// The keys that were asked about.
    pub asked_keys: Set<Seq<char>>,
    /// The ids this batch has written.
    pub stale_ids: Set<u128>,
    /// The tokens of the devices' keys this batch has written.
    pub stale_keys: Set<Seq<char>>,
}

impl CacheView {
    /// Whether the cache can still answer for this id on its own.
    pub open spec fn id_fresh(self, id: Uuid) -> bool {
        self.asked_ids.contains(id.bits) && !self.stale_ids.contains(id.bits)
    }

    /// Whether it can still answer for this key of this device.
    pub open spec fn key_fresh(self, device: Uuid, key: Seq<char>) -> bool {
        self.asked_keys.contains(key) && !self.stale_keys.contains(key_token(device, key))
    }

    /// Whether it can answer where a write should land, which reads both.
    pub open spec fn target_fresh(self, id: Uuid, device: Uuid, key: Seq<char>) -> bool {
        self.id_fresh(id) && self.key_fresh(device, key)
    }

    /// The cached row under an id, within the account and, where one is named, the device.
    pub open spec fn row(self, user: Uuid, id: Uuid, device: Option<Uuid>) -> Option<CachedConfig> {
        if self.rows.contains_key(id.bits) && visible(self.rows[id.bits], user, device) {
            Some(self.rows[id.bits])
        } else {
            None
        }
    }

    /// The cached row under a key of a device.
    pub open spec fn row_under(self, device: Uuid, key: Seq<char>) -> Option<CachedConfig> {
        let token = key_token(device, key);
        if self.keys.contains_key(token) && self.rows.contains_key(self.keys[token].bits) {
            Some(self.rows[self.keys[token].bits])
        } else {
            None
        }
    }

    /// What the cache says of the rows a write could land on.
    pub open spec fn facts(self, user: Uuid, device: Uuid, id: Uuid, key: Seq<char>) -> TargetFacts {
        TargetFacts {
            existing: existing_of(
                either_row(self.row_under(device, key), self.row(user, id, Some(device))),
            ),
            id_taken: self.taken.contains(id.bits),
        }
    }

    /// The cache after a row has been written under an id and a key.
    pub open spec fn touched(self, id: Uuid, device: Uuid, key: Seq<char>) -> CacheView {
        CacheView {
            stale_ids: self.stale_ids.insert(id.bits),
            stale_keys: self.stale_keys.insert(key_token(device, key)),
            ..self
        }
    }

    /// The cache after a resolved write: the id and key the row leaves behind are stale as
    /// much as those it lands on.
    pub open spec fn noted(self, device: Uuid, target: ConfigTarget, key: Seq<char>) -> CacheView {
        let landed = self.touched(target.new_id, device, key);
        match target.existing {
            Some(row) => landed.touched(row.id, device, row.key@),
            None => landed,
        }
    }

    /// The cache with one more row in it.
    pub open spec fn with_row(self, row: CachedConfig) -> CacheView {
        CacheView {
            rows: self.rows.insert(row.id.bits, row),
            keys: self.keys.insert(key_token(row.device_uuid, row.key@), row.id),
            ..self
        }
    }

    /// The cache with more rows in it, in order.
    pub open spec fn with_rows(self, rows: Seq<CachedConfig>) -> CacheView
        decreases rows.len(),
    {
        if rows.len() == 0 {
            self
        } else {
            self.with_rows(rows.drop_last()).with_row(rows.last())
        }
    }
}

/// Whether a row is the account's and, where a device is named, that device's.
pub open spec fn visible(row: CachedConfig, user: Uuid, device: Option<Uuid>) -> bool {
    row.user_id == user && match device {
        Some(device) => row.device_uuid == device,
        None => true,
    }
}

/// Whether a row is the account's and, where a device is named, that device's.
pub fn is_visible(row: &CachedConfig, user: Uuid, device: Option<Uuid>) -> (b: bool)
    ensures
        b == visible(*row, user, device),
{
    row.user_id == user && match device {
        Some(device) => row.device_uuid == device,
        None => true,
    }
}

/// The first of two rows, or the second where there is no first.
pub open spec fn either_row(
    first: Option<CachedConfig>,
    second: Option<CachedConfig>,
) -> Option<CachedConfig> {
    match first {
        Some(row) => Some(row),
        None => second,
    }
}

/// A config already on the server that an incoming write lands on.
#[derive(Debug)]
pub struct ExistingConfig {
    pub id: Uuid,
    pub version: i32,
    /// The key the row sits under.
    pub key: String,
}

/// What a write needs to know of the row it lands on.
pub open spec fn existing_of(row: Option<CachedConfig>) -> Option<ExistingConfig> {
    match row {
        Some(row) => Some(ExistingConfig { id: row.id, version: row.version, key: row.key }),
        None => None,
    }
}

/// What the table says of the rows a write could land on.
#[derive(Debug)]
pub struct TargetFacts {
    /// The row under the write's device and key, or else the device's row under its id.
    pub existing: Option<ExistingConfig>,
    /// Whether the write's id exists anywhere in the table.
    pub id_taken: bool,
}

/// Where an incoming config write lands.
#[derive(Debug)]
pub struct ConfigTarget {
    pub existing: Option<ExistingConfig>,
    /// The id the row carries after the write.
    pub new_id: Uuid,
}

/// The id a row carries after a write: the client's where it is free. A row the account
/// already has keeps its own rather than take one another row holds; a new row whose id is
/// held elsewhere takes a fresh one.
pub open spec fn new_id_of(
    existing: Option<ExistingConfig>,
    id_taken: bool,
    submitted: Uuid,
    fresh: Uuid,
) -> Uuid {
    if !id_taken {
        submitted
    } else {
        match existing {
            Some(row) => row.id,
            None => fresh,
        }
    }
}

/// The id a row carries after a write, given the fresh id there is for it.
pub fn choose_new_id(
    existing: &Option<ExistingConfig>,
    id_taken: bool,
    submitted: Uuid,
    fresh: Uuid,
) -> (id: Uuid)
    ensures
        id == new_id_of(*existing, id_taken, submitted, fresh),
{
    match (existing, id_taken) {
        (Some(row), true) => row.id,
        (None, true) => fresh,
        _ => submitted,
    }
}

/// Where a write lands.
pub open spec fn target_of(facts: TargetFacts, submitted: Uuid, fresh: Uuid) -> ConfigTarget {
    ConfigTarget {
        existing: facts.existing,
        new_id: new_id_of(facts.existing, facts.id_taken, submitted, fresh),
    }
}

/// Where a write lands, given what the table says.
pub fn resolve_config_target(facts: TargetFacts, submitted: Uuid, fresh: Uuid) -> (target:
    ConfigTarget)
    ensures
        target == target_of(facts, submitted, fresh),
{
    let new_id = choose_new_id(&facts.existing, facts.id_taken, submitted, fresh);
    ConfigTarget { existing: facts.existing, new_id }
}

/// What the table says of the rows a write could land on, out of the three lookups: the row
/// under the device and key, the device's row under the id, and whether the id is anywhere.
pub fn target_facts(
    by_key: Option<ExistingConfig>,
    by_id: Option<ExistingConfig>,
    id_taken: bool,
) -> (facts: TargetFacts)
    ensures
        facts == (TargetFacts {
            existing: if by_key is Some {
                by_key
            } else {
                by_id
            },
            id_taken,
        }),
{
    let existing = match by_key {
        Some(row) => Some(row),
        None => by_id,
    };
    TargetFacts { existing, id_taken }
}

/// The lookups of a batch.
pub struct ConfigBatch {
    by_id: HashMap<u128, CachedConfig>,
    by_key: StringHashMap<Uuid>,
    taken_ids: HashSet<u128>,
    prefetched_ids: HashSet<u128>,
    prefetched_keys: StringHashSet,
    stale_ids: HashSet<u128>,
    stale_keys: StringHashSet,
}

/// The numbers of a list of ids, as a set.
pub open spec fn id_set(ids: Seq<Uuid>) -> Set<u128> {
    Set::new(|bits: u128| ids.contains(Uuid { bits }))
}

fn bits_set(ids: &Vec<Uuid>) -> (set: HashSet<u128>)
    ensures
        set@ == id_set(ids@),
{
    let mut set: HashSet<u128> = HashSet::new();
    let mut i: usize = 0;
    assert(set@ =~= id_set(ids@.take(0)));
    while i < ids.len()
        invariant
            i <= ids.len(),
            set@ == id_set(ids@.take(i as int)),
        decreases ids.len() - i,
    {
        let ghost before = set@;
        set.insert(ids[i].bits);
        proof {
            let seen = ids@.take(i as int);
            let next = ids@.take(i + 1);
            assert(next =~= seen.push(ids@[i as int]));
            assert forall|bits: u128|
                #![trigger set@.contains(bits)]
                set@.contains(bits) == id_set(next).contains(bits) by {
                let id = Uuid { bits };
                if seen.contains(id) {
                    let k = choose|k: int| 0 <= k < seen.len() && seen[k] == id;
                    assert(next[k] == id);
                }
                if next.contains(id) && !seen.contains(id) {
                    let k = choose|k: int| 0 <= k < next.len() && next[k] == id;
                    if k < i {
                        assert(seen[k] == id);
                    }
                }
                if bits == ids@[i as int].bits {
                    assert(next[i as int] == id);
                }
            }
            assert(set@ =~= id_set(next));
        }
        i = i + 1;
    }
    assert(ids@.take(i as int) =~= ids@);
    set
}

/// The texts of a list, as a set.
pub open spec fn key_set(keys: Seq<String>) -> Set<Seq<char>> {
    Set::new(|key: Seq<char>| crate::text::texts(keys).contains(key))
}

/// A cache that has asked about these ids and keys, and has no row.
pub open spec fn asked(ids: Seq<Uuid>, keys: Seq<String>, taken: Seq<Uuid>) -> CacheView {
    CacheView {
        rows: Map::empty(),
        keys: Map::empty(),
        taken: id_set(taken),
        asked_ids: id_set(ids),
        asked_keys: key_set(keys),
        stale_ids: Set::empty(),
        stale_keys: Set::empty(),
    }
}

impl ConfigBatch {
    pub closed spec fn view(&self) -> CacheView {
        CacheView {
            rows: self.by_id@,
            keys: self.by_key@,
            taken: self.taken_ids@,
            asked_ids: self.prefetched_ids@,
            asked_keys: self.prefetched_keys@,
            stale_ids: self.stale_ids@,
            stale_keys: self.stale_keys@,
        }
    }

    /// The lookups of a batch that asked about `ids` and `keys`. The database answered with
    /// the ids that exist anywhere, and with the account's rows under the ids and under the
    /// keys.
    pub fn load(
        ids: &Vec<Uuid>,
        keys: &Vec<String>,
        taken: &Vec<Uuid>,
        under_ids: Vec<CachedConfig>,
        under_keys: Vec<CachedConfig>,
    ) -> (batch: ConfigBatch)
        ensures
            batch@ == asked(ids@, keys@, taken@).with_rows(under_ids@).with_rows(under_keys@),
    {
        let mut batch = ConfigBatch {
            by_id: HashMap::new(),
            by_key: StringHashMap::new(),
            taken_ids: bits_set(taken),
            prefetched_ids: bits_set(ids),
            prefetched_keys: crate::text::text_set(keys),
            stale_ids: HashSet::new(),
            stale_keys: StringHashSet::new(),
        };
        assert(batch.prefetched_keys@ =~= key_set(keys@));
        assert(batch@ =~= asked(ids@, keys@, taken@));
        batch.remember_all(under_ids);
        batch.remember_all(under_keys);
        batch
    }

    fn remember_all(&mut self, rows: Vec<CachedConfig>)
        ensures
            final(self)@ == old(self)@.with_rows(rows@),
    {
        let ghost before = self@;
        let mut i: usize = 0;
        assert(rows@.take(0) =~= seq![]);
        while i < rows.len()
            invariant
                i <= rows.len(),
                self@ == before.with_rows(rows@.take(i as int)),
            decreases rows.len() - i,
        {
            self.remember(rows[i].copy());
            proof {
                let next = rows@.take(i + 1);
                assert(next.drop_last() =~= rows@.take(i as int));
                assert(next.last() == rows@[i as int]);
            }
            i = i + 1;
        }
        assert(rows@.take(i as int) =~= rows@);
    }

    fn remember(&mut self, row: CachedConfig)
        ensures
            final(self)@ == old(self)@.with_row(row),
    {
        let token = key_token_text(row.device_uuid, row.key.as_str());
        self.by_key.insert(token, row.id);
        self.by_id.insert(row.id.bits, row);
        assert(self@ =~= old(self)@.with_row(row));
    }

    /// Whether the cache can still answer for this id on its own.
    pub fn id_is_fresh(&self, id: Uuid) -> (b: bool)
        ensures
            b == self@.id_fresh(id),
    {
        self.prefetched_ids.contains(&id.bits) && !self.stale_ids.contains(&id.bits)
    }

    /// Whether it can answer where a write should land, which reads the key as well.
    pub fn target_is_fresh(&self, id: Uuid, device: Uuid, key: &str) -> (b: bool)
        ensures
            b == self@.target_fresh(id, device, key@),
    {
        self.id_is_fresh(id) && self.prefetched_keys.contains(key) && !self.stale_keys.contains(
            key_token_text(device, key).as_str(),
        )
    }

    /// The cached row under an id, within the account and, where one is named, the device.
    pub fn row_for(&self, user: Uuid, id: Uuid, device: Option<Uuid>) -> (row: Option<CachedConfig>)
        ensures
            row == self@.row(user, id, device),
    {
        match self.by_id.get(&id.bits) {
            Some(row) => if is_visible(row, user, device) {
                Some(row.copy())
            } else {
                None
            },
            None => None,
        }
    }

    fn row_under(&self, device: Uuid, key: &str) -> (row: Option<CachedConfig>)
        ensures
            row == self@.row_under(device, key@),
    {
        let token = key_token_text(device, key);
        match self.by_key.get(token.as_str()) {
            Some(id) => match self.by_id.get(&id.bits) {
                Some(row) => Some(row.copy()),
                None => None,
            },
            None => None,
        }
    }

    /// What the cache says of the rows a write could land on.
    pub fn facts_for(&self, user: Uuid, device: Uuid, id: Uuid, key: &str) -> (facts: TargetFacts)
        ensures
            facts == self@.facts(user, device, id, key@),
    {
        let row = match self.row_under(device, key) {
            Some(row) => Some(row),
            None => self.row_for(user, id, Some(device)),
        };
        let existing = match row {
            Some(row) => Some(ExistingConfig { id: row.id, version: row.version, key: row.key }),
            None => None,
        };
        TargetFacts { existing, id_taken: self.taken_ids.contains(&id.bits) }
    }

    /// Records a write that changed a row in place: it keeps its id and key, and what the
    /// cache holds of it is out of date.
    pub fn note_version_bump(&mut self, device: Uuid, id: Uuid, key: &str)
        ensures
            final(self)@ == old(self)@.touched(id, device, key@),
    {
        self.stale_ids.insert(id.bits);
        self.stale_keys.insert(key_token_text(device, key));
        assert(self@ =~= old(self)@.touched(id, device, key@));
    }

    /// Records a resolved write, so that every later item of the batch reads the row again
    /// instead of trusting the cache.
    pub fn note_write(&mut self, device: Uuid, target: &ConfigTarget, key: &str)
        ensures
            final(self)@ == old(self)@.noted(device, *target, key@),
    {
        self.note_version_bump(device, target.new_id, key);
        if let Some(existing) = &target.existing {
            self.note_version_bump(device, existing.id, existing.key.as_str());
        }
    }
}

} // verus!
