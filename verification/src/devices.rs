//! The tablets of an account.

pub mod handlers;
pub mod limits;
