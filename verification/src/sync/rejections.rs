//! The refusal of one item in a batch.
//!
//! A batch is all-or-nothing, and a refusal names the item that caused it: what kind of
//! row, which one, and what was wrong with it.

use crate::error::{AppError, ErrorView};
use vstd::prelude::*;

verus! {

/// `serde_json::Error`: why a JSON document could not be read.
#[verifier::external_type_specification]
#[verifier::external_body]
pub struct ExJsonError(serde_json::Error);

/// The refusal of an item whose payload cannot be read.
pub open spec fn payload_rejection(
    entity: Seq<char>,
    id: Seq<char>,
    reason: Seq<char>,
) -> ErrorView {
    ErrorView::BadRequest("Invalid "@ + entity + " payload for "@ + id + ": "@ + reason)
}

/// The refusal of an item whose payload cannot be read for the given reason.
pub fn payload_refusal(entity: &str, id: &str, reason: &str) -> (e: AppError)
    ensures
        e@ == payload_rejection(entity@, id@, reason@),
{
    let mut s = "Invalid ".to_owned();
    s.append(entity);
    s.append(" payload for ");
    s.append(id);
    s.append(": ");
    s.append(reason);
    AppError::BadRequest(s)
}

/// What `serde_json::Error`'s `Display` writes.
pub uninterp spec fn reader_text(err: serde_json::Error) -> Seq<char>;

/// `serde_json::Error`'s `Display`. The wording is left to the crate; what is claimed is that
/// the text depends on the error alone.
#[verifier::external_body]
fn error_text(err: &serde_json::Error) -> (s: String)
    ensures
        s@ == reader_text(*err),
{
    err.to_string()
}

/// The refusal of an item whose payload will not deserialize, with the reader's own message.
pub fn item_payload_rejected(entity: &str, id: &str, err: &serde_json::Error) -> (e: AppError)
    ensures
        e@ == payload_rejection(entity@, id@, reader_text(*err)),
{
    let reason = error_text(err);
    payload_refusal(entity, id, reason.as_str())
}

/// What cannot be read is the client's mistake, and the refusal names the kind of row, the row
/// and the reason.
pub proof fn a_refusal_names_what_it_refuses(entity: &str, id: &str, reason: &str, e: AppError)
    requires
        call_ensures(payload_refusal, (entity, id, reason), e),
    ensures
        e@ == ErrorView::BadRequest(
            "Invalid "@ + entity@ + " payload for "@ + id@ + ": "@ + reason@,
        ),
{
}

} // verus!
