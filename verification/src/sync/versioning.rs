//! How a row's version number moves.
//!
//! The server's stored version is the only input to a row's next one; a row the server has
//! never seen starts from the client's number, within bounds. The client's clock and the
//! client's idea of an existing row's version decide nothing.

use crate::error::{AppError, ErrorView};
use vstd::prelude::*;

verus! {

/// The bounds on version numbers in this deployment.
#[derive(Debug, Clone, Copy, PartialEq, Eq, Structural)]
pub struct VersionBounds {
    /// The largest version a client may bring a new row with.
    pub max_seed: i32,
}

/// The version after `current`, or the refusal where the counter is exhausted.
pub open spec fn advanced(entity: Seq<char>, id: Seq<char>, current: i32) -> Result<i32, ErrorView> {
    if current < i32::MAX {
        Ok((current + 1) as i32)
    } else {
        Err(ErrorView::BadRequest(entity + " "@ + id + " has no version left to advance to"@))
    }
}

/// The version a new row starts at, or the refusal where the client's number is out of
/// bounds.
pub open spec fn seeded(
    bounds: VersionBounds,
    entity: Seq<char>,
    id: Seq<char>,
    requested: i32,
) -> Result<i32, ErrorView> {
    if 0 <= requested <= bounds.max_seed {
        Ok(requested)
    } else {
        Err(ErrorView::BadRequest(entity + " "@ + id + " cannot start at that version"@))
    }
}

/// The version of a write: the stored row's next one, or the seed of a new row.
pub open spec fn next_version(
    bounds: VersionBounds,
    entity: Seq<char>,
    id: Seq<char>,
    stored: Option<i32>,
    requested: i32,
) -> Result<i32, ErrorView> {
    match stored {
        Some(current) => advanced(entity, id, current),
        None => seeded(bounds, entity, id, requested),
    }
}

fn version_refusal(entity: &str, id: &str, tail: &str) -> (e: AppError)
    ensures
        e@ == ErrorView::BadRequest(entity@ + " "@ + id@ + tail@),
{
    let mut s = entity.to_owned();
    s.append(" ");
    s.append(id);
    s.append(tail);
    AppError::BadRequest(s)
}

/// The next version of a stored row.
pub fn advance_version(entity: &str, id: &str, current: i32) -> (v: Result<i32, AppError>)
    ensures
        crate::error::outcome(v) == advanced(entity@, id@, current),
{
    if current < i32::MAX {
        Ok(current + 1)
    } else {
        Err(version_refusal(entity, id, " has no version left to advance to"))
    }
}

/// The first version of a row the server has never seen.
pub fn seed_version(bounds: VersionBounds, entity: &str, id: &str, requested: i32) -> (v: Result<
    i32,
    AppError,
>)
    ensures
        crate::error::outcome(v) == seeded(bounds, entity@, id@, requested),
{
    if 0 <= requested && requested <= bounds.max_seed {
        Ok(requested)
    } else {
        Err(version_refusal(entity, id, " cannot start at that version"))
    }
}

/// The version a write is numbered with.
pub fn assign_version(
    bounds: VersionBounds,
    entity: &str,
    id: &str,
    stored: Option<i32>,
    requested: i32,
) -> (v: Result<i32, AppError>)
    ensures
        crate::error::outcome(v) == next_version(bounds, entity@, id@, stored, requested),
{
    match stored {
        Some(current) => advance_version(entity, id, current),
        None => seed_version(bounds, entity, id, requested),
    }
}

/// Whatever number a client brings, it does not move a row the server already has: two
/// writes that differ only in the client's number are numbered alike.
pub proof fn a_client_cannot_move_a_stored_version(
    bounds: VersionBounds,
    entity: Seq<char>,
    id: Seq<char>,
    stored: i32,
    one: i32,
    other: i32,
)
    ensures
        next_version(bounds, entity, id, Some(stored), one) == next_version(
            bounds,
            entity,
            id,
            Some(stored),
            other,
        ),
        next_version(bounds, entity, id, Some(stored), one) matches Ok(v) ==> v == stored + 1,
{
}

/// A write is numbered in one of two ways and refused otherwise: a stored row moves on by one
/// unless its counter is spent, and a new row starts at the client's own number unless that is
/// negative or over the bound.
pub proof fn a_row_is_seeded_once_and_then_counted(
    bounds: VersionBounds,
    entity: Seq<char>,
    id: Seq<char>,
    stored: Option<i32>,
    requested: i32,
)
    ensures
        match next_version(bounds, entity, id, stored, requested) {
            Ok(version) => match stored {
                Some(current) => version == current + 1,
                None => version == requested && 0 <= requested && requested <= bounds.max_seed,
            },
            Err(e) => e is BadRequest && match stored {
                Some(current) => current == i32::MAX,
                None => requested < 0 || requested > bounds.max_seed,
            },
        },
{
}

/// A stored row moves one version on whatever the client asks for, a new one starts where the
/// client asks if that is within bounds, and what is not numbered is the client's mistake.
pub proof fn a_write_is_numbered_by_what_is_stored(
    bounds: VersionBounds,
    entity: &str,
    id: &str,
    stored: Option<i32>,
    requested: i32,
    v: Result<i32, AppError>,
)
    requires
        call_ensures(assign_version, (bounds, entity, id, stored, requested), v),
    ensures
        stored matches Some(current) ==> {
            &&& v is Ok <==> current < i32::MAX
            &&& v matches Ok(n) ==> n == current + 1
        },
        stored is None ==> {
            &&& v is Ok <==> 0 <= requested <= bounds.max_seed
            &&& v matches Ok(n) ==> n == requested
        },
        v matches Err(e) ==> e@ is BadRequest,
{
}

} // verus!
