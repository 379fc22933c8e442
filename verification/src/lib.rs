//! The decisions behind a household sync service: what an upload writes, what a
//! download hands back, who may do which, and where the bounds on all of it lie.

pub mod ai;
pub mod devices;
pub mod error;
pub mod ids;
pub mod instant;
pub mod json;
pub mod lists;
pub mod sync;
pub mod text;
