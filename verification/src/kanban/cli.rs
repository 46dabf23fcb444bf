//! The `kanban` command line as the program receives it, and the board's
//! state and priority tokens.

use vstd::prelude::*;

verus! {

#[derive(Debug, Clone, PartialEq, Eq)]
pub struct Cli {
    /// Board database path override (default `~/.areum/kanban/kanban.db`).
    pub db: Option<String>,
    /// Emit the JSON envelope instead of human text.
    pub json: bool,
    pub command: Command,
}

#[derive(Debug, Clone, PartialEq, Eq)]
pub enum Command {
    Init,
    Project(ProjectCommand),
    Add { source: String, external_id: String, title: String, body: String },
    List { project: Option<String>, state: Option<ItemState>, label: Option<String> },
    Show { id: String },
    Next { project: String, session: String, agent: String },
    Done { id: String },
    Release { id: String, reason: String },
    Assign { id: String, project: String, priority: Option<Priority> },
    Priority { id: String, priority: Priority },
    Move { id: String, state: ItemState },
}

#[derive(Debug, Clone, PartialEq, Eq)]
pub enum ProjectCommand {
    Add { name: String, description: String },
    List,
    Rm { name: String },
}

/// The five board states.
#[derive(Debug, Clone, Copy, PartialEq, Eq, Structural)]
pub enum ItemState {
    Inbox,
    Unmatched,
    Backlog,
    Running,
    Done,
}

/// The token stored in `items.state`.
pub open spec fn state_token(s: ItemState) -> Seq<char> {
    match s {
        ItemState::Inbox => "inbox"@,
        ItemState::Unmatched => "unmatched"@,
        ItemState::Backlog => "backlog"@,
        ItemState::Running => "running"@,
        ItemState::Done => "done"@,
    }
}

impl ItemState {
    pub fn as_str(self) -> (r: &'static str)
        ensures
            r@ == state_token(self),
    {
        match self {
            ItemState::Inbox => "inbox",
            ItemState::Unmatched => "unmatched",
            ItemState::Backlog => "backlog",
            ItemState::Running => "running",
            ItemState::Done => "done",
        }
    }
}

/// Priorities, most urgent first.
#[derive(Debug, Clone, Copy, PartialEq, Eq, Structural)]
pub enum Priority {
    P0,
    P1,
    P2,
    P3,
}

/// The token stored in `items.priority`.
pub open spec fn priority_token(p: Priority) -> Seq<char> {
    match p {
        Priority::P0 => "P0"@,
        Priority::P1 => "P1"@,
        Priority::P2 => "P2"@,
        Priority::P3 => "P3"@,
    }
}

/// Urgency rank: `P0` is 0, `P3` is 3.
pub open spec fn priority_rank(p: Priority) -> int {
    match p {
        Priority::P0 => 0,
        Priority::P1 => 1,
        Priority::P2 => 2,
        Priority::P3 => 3,
    }
}

impl Priority {
    pub fn as_str(self) -> (r: &'static str)
        ensures
            r@ == priority_token(self),
    {
        match self {
            Priority::P0 => "P0",
            Priority::P1 => "P1",
            Priority::P2 => "P2",
            Priority::P3 => "P3",
        }
    }
}

pub open spec fn command_name(c: Command) -> Seq<char> {
    match c {
        Command::Init => "init"@,
        Command::Project(_) => "project"@,
        Command::Add { .. } => "add"@,
        Command::List { .. } => "list"@,
        Command::Show { .. } => "show"@,
        Command::Next { .. } => "next"@,
        Command::Done { .. } => "done"@,
        Command::Release { .. } => "release"@,
        Command::Assign { .. } => "assign"@,
        Command::Priority { .. } => "priority"@,
        Command::Move { .. } => "move"@,
    }
}

impl Command {
    /// Stable command name used as the `command` field of the JSON envelope.
    pub fn name(&self) -> (r: &'static str)
        ensures
            r@ == command_name(*self),
    {
        match self {
            Command::Init => "init",
            Command::Project(_) => "project",
            Command::Add { .. } => "add",
            Command::List { .. } => "list",
            Command::Show { .. } => "show",
            Command::Next { .. } => "next",
            Command::Done { .. } => "done",
            Command::Release { .. } => "release",
            Command::Assign { .. } => "assign",
            Command::Priority { .. } => "priority",
            Command::Move { .. } => "move",
        }
    }
}

} // verus!
