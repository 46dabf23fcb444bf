//! The `discord` agent CLI: message send/read/wait, config and token
//! resolution, the HITL `ask` lifecycle and the daemon's interaction rules.

pub mod error;
pub mod api;
pub mod send;
pub mod output;
pub mod cursor;
pub mod commands;
pub mod config;
pub mod http;
pub mod ask;
pub mod interactions;
pub mod daemon;
pub mod gateway;
pub mod store;
pub mod cli;
