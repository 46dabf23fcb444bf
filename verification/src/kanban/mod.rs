//! The `kanban` board CLI: board states and the transitions between them,
//! the claim order, ids and timestamps, and what each command answers.

pub mod board;
pub mod cli;
pub mod commands;
pub mod config;
pub mod error;
pub mod output;
pub mod time;
