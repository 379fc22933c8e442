//! Configs: the settings of a tablet, one value under each key of each device.

pub mod cache;
pub mod table;
pub mod upload;
pub mod processor;
pub mod standing;
pub mod download;
pub mod keeping;
