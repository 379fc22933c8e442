//! The helpers that ask a language model: which category an item belongs in, and which icon
//! a task gets.

pub mod budget;
pub mod gemini;
pub mod handlers;
pub mod service;
pub mod types;
