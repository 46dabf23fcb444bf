//! Verified core of the areum lab tools: the `discord` agent CLI, the
//! `kanban` board CLI and the `hello` greeter. Everything here is pure
//! decision logic; process I/O, HTTP, SQLite and argument parsing live in
//! the companion application crate.

pub mod paths;
pub mod text;
pub mod discord;
pub mod hello;
pub mod kanban;
