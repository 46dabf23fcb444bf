//! The `discord` command line as the program receives it. Parsing is done
//! by the application; this is the shape it produces.

use vstd::prelude::*;

verus! {

#[derive(Debug, Clone, PartialEq, Eq)]
pub struct Cli {
    /// Bot token; overrides `DISCORD_BOT_TOKEN` and the config file.
    pub token: Option<String>,
    /// Config path override (default `~/.areum/discord/config.json`).
    pub config: Option<String>,
    /// Emit the JSON envelope instead of human text.
    pub json: bool,
    pub command: Command,
}

#[derive(Debug, Clone, PartialEq, Eq)]
pub enum Command {
    /// Create or overwrite the config file with a bot token.
    Init { token: Option<String>, force: bool },
    /// Send a message (optionally with attachments) to a channel.
    Send { channel: String, body: Option<String>, text: Option<String>, reply_to: Option<String>, files: Vec<String> },
    /// Read recent messages from a channel.
    Read { channel: String, after: Option<String>, limit: u8 },
    /// Poll a channel until a new message arrives or the timeout elapses.
    Wait { channel: String, after: Option<String>, timeout: u64, interval: u64, limit: u8 },
}

pub open spec fn command_name(c: Command) -> Seq<char> {
    match c {
        Command::Init { .. } => "init"@,
        Command::Send { .. } => "send"@,
        Command::Read { .. } => "read"@,
        Command::Wait { .. } => "wait"@,
    }
}

impl Command {
    /// Stable command name used as the `command` field of the JSON envelope.
    pub fn name(&self) -> (r: &'static str)
        ensures
            r@ == command_name(*self),
    {
        match self {
            Command::Init { .. } => "init",
            Command::Send { .. } => "send",
            Command::Read { .. } => "read",
            Command::Wait { .. } => "wait",
        }
    }
}

} // verus!
