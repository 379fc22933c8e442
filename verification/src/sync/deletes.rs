//! What the server does with a delete for a row it has never seen.
//!
//! A delete names an intent, not a row. If the row is not there, the intent is already
//! satisfied, so the delete succeeds and is acknowledged.

use vstd::prelude::*;

verus! {

/// The version reported back for a delete of a row the server never had.
pub const UNSYNCED_DELETE_VERSION: i32 = 1;

/// Acknowledges a delete for a row that is not in the table, and returns the version to
/// report for it, whichever table and row it names.
pub fn ack_unsynced_delete(entity: &str, id: &str) -> (version: i32)
    ensures
        version == UNSYNCED_DELETE_VERSION,
{
    UNSYNCED_DELETE_VERSION
}

/// The version a soft delete reports: the one the statement gave the row, or the
/// acknowledgement where it matched none.
pub open spec fn deleted_version(returned: Option<i32>) -> i32 {
    match returned {
        Some(version) => version,
        None => UNSYNCED_DELETE_VERSION,
    }
}

/// The version a soft delete reports, given what the statement returned.
pub fn soft_delete_version(entity: &str, id: &str, returned: Option<i32>) -> (version: i32)
    ensures
        version == deleted_version(returned),
{
    match returned {
        Some(version) => version,
        None => ack_unsynced_delete(entity, id),
    }
}

/// A delete reports the version the statement left, and that of a row the server never had is
/// the first version there is.
pub proof fn a_delete_reports_the_version_it_left(
    entity: &str,
    id: &str,
    returned: Option<i32>,
    version: i32,
)
    requires
        call_ensures(soft_delete_version, (entity, id, returned), version),
    ensures
        returned matches Some(left) ==> version == left,
        returned is None ==> version == 1,
{
}

} // verus!
