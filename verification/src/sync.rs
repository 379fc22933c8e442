//! Synchronisation: the upload processors, the downloads, the scopes and bounds of a
//! request, and the streams that announce what changed.

pub mod batching;
pub mod catching_up;
pub mod config;
pub mod deletes;
pub mod device;
pub mod download;
pub mod drawing;
pub mod fanout;
pub mod grocery;
pub mod handler;
pub mod limits;
pub mod lookup;
pub mod models;
pub mod paging;
pub mod publish_conn;
pub mod publisher;
pub mod rejections;
pub mod remote_mutations;
pub mod request;
pub mod resuming;
pub mod scope_auth;
pub mod status;
pub mod stream;
pub mod stream_limits;
pub mod tally;
pub mod types;
pub mod versioning;
