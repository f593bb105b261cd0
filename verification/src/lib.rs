//! A personal chat gateway core: the session protocol and its
//! authentication guard, the broadcast-event model, the incremental
//! stream reassembler, the persistent store with dirty-set tracking,
//! and token-budget history truncation.

pub mod args;
pub mod auth;
pub mod config;
pub mod database;
pub mod openai;
pub mod random;
pub mod session;
pub mod sse;
pub mod text;
pub mod types;
