//! Sharing a grocery list: minting an invite code, and redeeming one.

pub mod handlers;
pub mod limits;
