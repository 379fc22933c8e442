//! Finding stored rows by the text that names them.

use vstd::hash_map::StringHashMap;
use vstd::prelude::*;

verus! {

/// The row behind a reference that may be absent.
pub open spec fn deref_opt<T>(r: Option<&T>) -> Option<T> {
    match r {
        Some(r) => Some(*r),
        None => None,
    }
}

/// A row that a text names.
pub trait Keyed: Sized {
    /// The text that names this row.
    spec fn key(&self) -> Seq<char>;

    /// The text that names this row.
    fn key_text(&self) -> (s: String)
        ensures
            s@ == self.key(),
    ;
}

/// Where the last row named `key` stands.
pub open spec fn position_of<R: Keyed>(rows: Seq<R>, key: Seq<char>) -> Option<int>
    decreases rows.len(),
{
    if rows.len() == 0 {
        None
    } else if rows.last().key() == key {
        Some(rows.len() - 1)
    } else {
        position_of(rows.drop_last(), key)
    }
}

/// The last row named `key`.
pub open spec fn row_named<R: Keyed>(rows: Seq<R>, key: Seq<char>) -> Option<R> {
    match position_of(rows, key) {
        Some(i) => Some(rows[i]),
        None => None,
    }
}

/// A found position is one of the list, and the row there has the name.
pub proof fn position_is_of_the_list<R: Keyed>(rows: Seq<R>, key: Seq<char>)
    ensures
        position_of(rows, key) matches Some(i) ==> 0 <= i < rows.len() && rows[i].key() == key,
        position_of(rows, key) is None ==> forall|i: int|
            0 <= i < rows.len() ==> (#[trigger] rows[i]).key() != key,
    decreases rows.len(),
{
    if rows.len() > 0 && rows.last().key() != key {
        let front = rows.drop_last();
        position_is_of_the_list(front, key);
        assert forall|i: int| 0 <= i < rows.len() && position_of(rows, key) is None implies (
        #[trigger] rows[i]).key() != key by {
            if i < rows.len() - 1 {
                assert(front[i] == rows[i]);
            }
        }
    }
}

/// Whether `row` is the last of `rows` that `names` gives the name `key`, and none where there
/// is no such row.
pub open spec fn is_last_of<R>(
    rows: Seq<R>,
    names: spec_fn(R) -> Seq<char>,
    key: Seq<char>,
    row: Option<R>,
) -> bool {
    match row {
        Some(row) => exists|k: int|
            0 <= k < rows.len() && #[trigger] rows[k] == row && names(row) == key && forall|j: int|
                k < j < rows.len() ==> names(#[trigger] rows[j]) != key,
        None => forall|j: int| 0 <= j < rows.len() ==> names(#[trigger] rows[j]) != key,
    }
}

/// A lookup finds the last row of its name, and finds nothing only where there is no such row.
pub proof fn a_lookup_finds_the_last_of_its_name<R: Keyed>(
    rows: Seq<R>,
    names: spec_fn(R) -> Seq<char>,
    key: Seq<char>,
    row: Option<R>,
)
    requires
        forall|r: R| #[trigger] names(r) == r.key(),
        is_last_of(rows, names, key, row),
    ensures
        row_named(rows, key) == row,
    decreases rows.len(),
{
    if rows.len() > 0 {
        let last = rows.last();
        let front = rows.drop_last();
        assert(names(last) == last.key());
        assert(rows[rows.len() - 1] == last);
        if last.key() == key {
            if let Some(found) = row {
                let k = choose|k: int|
                    0 <= k < rows.len() && #[trigger] rows[k] == found && names(found) == key
                        && forall|j: int|
                        k < j < rows.len() ==> names(#[trigger] rows[j]) != key;
                assert(k == rows.len() - 1);
            }
        } else {
            if let Some(found) = row {
                let k = choose|k: int|
                    0 <= k < rows.len() && #[trigger] rows[k] == found && names(found) == key
                        && forall|j: int|
                        k < j < rows.len() ==> names(#[trigger] rows[j]) != key;
                assert(k < front.len());
                assert(front[k] == found);
                assert forall|j: int| k < j < front.len() implies names(#[trigger] front[j])
                    != key by {
                    assert(front[j] == rows[j]);
                }
            } else {
                assert forall|j: int| 0 <= j < front.len() implies names(#[trigger] front[j])
                    != key by {
                    assert(front[j] == rows[j]);
                }
            }
            a_lookup_finds_the_last_of_its_name(front, names, key, row);
            position_is_of_the_list(front, key);
            if let Some(i) = position_of(front, key) {
                assert(front[i] == rows[i]);
            }
        }
    }
}

/// An index over a list of rows.
pub struct RowIndex {
    positions: StringHashMap<usize>,
}

impl RowIndex {
    /// Whether this index answers for `rows`.
    pub closed spec fn indexes<R: Keyed>(self, rows: Seq<R>) -> bool {
        forall|key: Seq<char>|
            #![trigger self.positions@.contains_key(key)]
            #![trigger position_of(rows, key)]
            match position_of(rows, key) {
                Some(i) => self.positions@.contains_key(key) && self.positions@[key] == i,
                None => !self.positions@.contains_key(key),
            }
    }

    /// Indexes a list of rows.
    pub fn of<R: Keyed>(rows: &Vec<R>) -> (index: RowIndex)
        ensures
            index.indexes(rows@),
    {
        let mut index = RowIndex { positions: StringHashMap::new() };
        let mut i: usize = 0;
        while i < rows.len()
            invariant
                i <= rows.len(),
                index.indexes(rows@.take(i as int)),
            decreases rows.len() - i,
        {
            let ghost before = rows@.take(i as int);
            let ghost after = rows@.take(i + 1);
            let key = rows[i].key_text();
            let ghost positions0 = index.positions@;
            index.positions.insert(key, i);
            proof {
                assert(after.drop_last() =~= before);
                assert(after.last() == rows@[i as int]);
                assert forall|key: Seq<char>|
                    #![trigger index.positions@.contains_key(key)]
                    #![trigger position_of(after, key)]
                    match position_of(after, key) {
                        Some(i) => index.positions@.contains_key(key) && index.positions@[key] == i,
                        None => !index.positions@.contains_key(key),
                    } by {
                    assert(positions0.contains_key(key) == position_of(before, key) is Some);
                }
            }
            i = i + 1;
        }
        assert(rows@.take(rows.len() as int) =~= rows@);
        index
    }

    /// The last row named `key`.
    pub fn find<'a, R: Keyed>(&self, rows: &'a Vec<R>, key: &str) -> (row: Option<&'a R>)
        requires
            self.indexes(rows@),
        ensures
            match row {
                Some(r) => row_named(rows@, key@) == Some(*r),
                None => row_named(rows@, key@) is None,
            },
    {
        proof {
            position_is_of_the_list(rows@, key@);
        }
        match self.positions.get(key) {
            Some(i) => Some(&rows[*i]),
            None => None,
        }
    }
}

} // verus!
