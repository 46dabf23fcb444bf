//! Command results of the `discord` tool and their human rendering. The
//! JSON envelope is produced by the application crate from these same
//! values; everything a human reads is decided here.

use vstd::prelude::*;
use vstd::string::*;
use crate::discord::api::{Attachment, Message};
use crate::discord::error::{exit_code, exit_code_of, human_error, AppError};
use crate::text::{decimal, joined, lemma_joined_push, u64_to_decimal};

verus! {

#[derive(Debug, Clone, PartialEq, Eq)]
pub struct SendData {
    pub message_id: String,
    pub channel_id: String,
    pub timestamp: String,
    /// Always reported, even empty.
    pub attachments: Vec<Attachment>,
}

#[derive(Debug, Clone, PartialEq, Eq)]
pub struct ReadData {
    pub channel_id: String,
    pub count: usize,
    /// Value to pass as `--after` on the next call; `None` when there is no
    /// newer cursor.
    pub cursor: Option<String>,
    pub messages: Vec<Message>,
}

/// `init` never echoes the token — only the path it wrote and whether the
/// file was newly created.
#[derive(Debug, Clone, PartialEq, Eq)]
pub struct InitData {
    pub path: String,
    pub created: bool,
}

#[derive(Debug, Clone, PartialEq, Eq)]
pub struct WaitData {
    pub channel_id: String,
    pub count: usize,
    pub cursor: Option<String>,
    /// True when the poll budget elapsed with no new message.
    pub timed_out: bool,
    pub messages: Vec<Message>,
}

#[derive(Debug, Clone, PartialEq, Eq)]
pub struct ThreadData {
    pub thread_id: String,
    pub name: String,
}

/// `daemon start` result: the detached child's pid, or this process's pid
/// after a foreground run.
#[derive(Debug, Clone, PartialEq, Eq)]
pub struct DaemonStartData {
    pub pid: u32,
    pub foreground: bool,
}

#[derive(Debug, Clone, PartialEq, Eq)]
pub struct DaemonStopData {
    pub pid: u32,
    pub stopped: bool,
}

/// `daemon status` result; `pid` only when a live daemon is recorded.
#[derive(Debug, Clone, PartialEq, Eq)]
pub struct DaemonStatusData {
    pub running: bool,
    pub pid: Option<u32>,
    pub pending: usize,
}

/// Command result payload.
#[derive(Debug, Clone, PartialEq, Eq)]
pub enum Payload {
    Send(SendData),
    Init(InitData),
    Read(ReadData),
    Wait(WaitData),
    Thread(ThreadData),
    DaemonStart(DaemonStartData),
    DaemonStop(DaemonStopData),
    DaemonStatus(DaemonStatusData),
}

pub open spec fn attachment_names(attachments: Seq<Attachment>) -> Seq<Seq<char>> {
    attachments.map_values(|a: Attachment| a.filename@)
}

/// Human output lists attachment filenames only — the CDN URL is left to
/// the JSON output.
pub open spec fn attachments_text(attachments: Seq<Attachment>) -> Seq<char> {
    "attachments: "@ + joined(attachment_names(attachments), ", "@)
}

pub open spec fn message_text(m: Message) -> Seq<char> {
    "["@ + m.timestamp@ + "] "@ + m.author.username@ + (if m.author.bot { " (bot)"@ } else { Seq::empty() })
        + ": "@ + m.content@
        + (if m.attachments@.len() > 0 { "\n"@ + attachments_text(m.attachments@) } else { Seq::empty() })
}

pub open spec fn messages_text(messages: Seq<Message>) -> Seq<char> {
    joined(messages.map_values(|m: Message| message_text(m)), "\n"@)
}

pub open spec fn cursor_hint_text(cursor: Option<String>) -> Seq<char> {
    match cursor {
        Some(c) => " (next --after "@ + c@ + ")"@,
        None => Seq::empty(),
    }
}

/// The human-readable rendering of each payload.
pub open spec fn payload_text(p: Payload) -> Seq<char> {
    match p {
        Payload::Send(d) => "sent message "@ + d.message_id@ + " to channel "@ + d.channel_id@ + " at "@ + d.timestamp@
            + (if d.attachments@.len() > 0 { "\n"@ + attachments_text(d.attachments@) } else { Seq::empty() }),
        Payload::Init(d) => "config written: "@ + d.path@,
        Payload::Read(d) => "channel "@ + d.channel_id@ + ": "@ + decimal(d.count as nat) + " message(s)"@
            + cursor_hint_text(d.cursor) + "\n"@ + messages_text(d.messages@),
        Payload::Wait(d) => if d.timed_out {
            "channel "@ + d.channel_id@ + ": timed out, no new messages"@
        } else {
            "channel "@ + d.channel_id@ + ": "@ + decimal(d.count as nat) + " new message(s)"@
                + cursor_hint_text(d.cursor) + "\n"@ + messages_text(d.messages@)
        },
        Payload::Thread(d) => "created thread "@ + d.thread_id@ + " \""@ + d.name@ + "\""@,
        Payload::DaemonStart(d) => if d.foreground {
            "daemon exited (pid "@ + decimal(d.pid as nat) + ")"@
        } else {
            "daemon started in background (pid "@ + decimal(d.pid as nat) + ")"@
        },
        Payload::DaemonStop(d) => "daemon stopped (pid "@ + decimal(d.pid as nat) + ")"@,
        Payload::DaemonStatus(d) => if d.running {
            "daemon running (pid "@ + decimal((match d.pid { Some(p) => p, None => 0u32 }) as nat) + "), "@
                + decimal(d.pending as nat) + " pending ask(s)"@
        } else {
            "daemon not running, "@ + decimal(d.pending as nat) + " pending ask(s)"@
        },
    }
}

pub fn cursor_hint(cursor: &Option<String>) -> (r: String)
    ensures
        r@ == cursor_hint_text(*cursor),
{
    let mut r = String::new();
    if let Some(c) = cursor {
        r.append(" (next --after ");
        r.append(c.as_str());
        r.append(")");
    }
    r
}

pub fn format_attachment_filenames(attachments: &[Attachment]) -> (r: String)
    ensures
        r@ == attachments_text(attachments@),
{
    let mut names = String::new();
    let mut i: usize = 0;
    while i < attachments.len()
        invariant
            i <= attachments@.len(),
            names@ == joined(attachment_names(attachments@.subrange(0, i as int)), ", "@),
        decreases attachments@.len() - i,
    {
        proof {
            lemma_joined_push(attachment_names(attachments@.subrange(0, i as int)), ", "@, attachments@[i as int].filename@);
            assert(attachment_names(attachments@.subrange(0, i + 1)) =~= attachment_names(attachments@.subrange(0, i as int)).push(attachments@[i as int].filename@));
        }
        if i > 0 {
            names.append(", ");
        }
        names.append(attachments[i].filename.as_str());
        i = i + 1;
    }
    assert(attachments@.subrange(0, attachments@.len() as int) =~= attachments@);
    let mut r = String::new();
    r.append("attachments: ");
    r.append(names.as_str());
    r
}

pub fn format_message(message: &Message) -> (r: String)
    ensures
        r@ == message_text(*message),
{
    let mut line = String::new();
    line.append("[");
    line.append(message.timestamp.as_str());
    line.append("] ");
    line.append(message.author.username.as_str());
    if message.author.bot {
        line.append(" (bot)");
    }
    line.append(": ");
    line.append(message.content.as_str());
    if message.attachments.len() > 0 {
        line.append("\n");
        let names = format_attachment_filenames(message.attachments.as_slice());
        line.append(names.as_str());
    }
    assert(line@ =~= message_text(*message));
    line
}

pub fn format_messages(messages: &[Message]) -> (r: String)
    ensures
        r@ == messages_text(messages@),
{
    let mut r = String::new();
    let mut i: usize = 0;
    while i < messages.len()
        invariant
            i <= messages@.len(),
            r@ == messages_text(messages@.subrange(0, i as int)),
        decreases messages@.len() - i,
    {
        proof {
            let pre = messages@.subrange(0, i as int);
            lemma_joined_push(pre.map_values(|m: Message| message_text(m)), "\n"@, message_text(messages@[i as int]));
            assert(messages@.subrange(0, i + 1).map_values(|m: Message| message_text(m))
                =~= pre.map_values(|m: Message| message_text(m)).push(message_text(messages@[i as int])));
        }
        if i > 0 {
            r.append("\n");
        }
        let line = format_message(&messages[i]);
        r.append(line.as_str());
        i = i + 1;
    }
    assert(messages@.subrange(0, messages@.len() as int) =~= messages@);
    r
}

impl Payload {
    pub fn to_human(&self) -> (r: String)
        ensures
            r@ == payload_text(*self),
    {
        let mut r = String::new();
        match self {
            Payload::Send(d) => {
                r.append("sent message ");
                r.append(d.message_id.as_str());
                r.append(" to channel ");
                r.append(d.channel_id.as_str());
                r.append(" at ");
                r.append(d.timestamp.as_str());
                if d.attachments.len() > 0 {
                    r.append("\n");
                    r.append(format_attachment_filenames(d.attachments.as_slice()).as_str());
                }
            },
            Payload::Init(d) => {
                r.append("config written: ");
                r.append(d.path.as_str());
            },
            Payload::Read(d) => {
                r.append("channel ");
                r.append(d.channel_id.as_str());
                r.append(": ");
                r.append(u64_to_decimal(d.count as u64).as_str());
                r.append(" message(s)");
                r.append(cursor_hint(&d.cursor).as_str());
                r.append("\n");
                r.append(format_messages(d.messages.as_slice()).as_str());
            },
            Payload::Wait(d) => {
                r.append("channel ");
                r.append(d.channel_id.as_str());
                if d.timed_out {
                    r.append(": timed out, no new messages");
                } else {
                    r.append(": ");
                    r.append(u64_to_decimal(d.count as u64).as_str());
                    r.append(" new message(s)");
                    r.append(cursor_hint(&d.cursor).as_str());
                    r.append("\n");
                    r.append(format_messages(d.messages.as_slice()).as_str());
                }
            },
            Payload::Thread(d) => {
                r.append("created thread ");
                r.append(d.thread_id.as_str());
                r.append(" \"");
                r.append(d.name.as_str());
                r.append("\"");
            },
            Payload::DaemonStart(d) => {
                if d.foreground {
                    r.append("daemon exited (pid ");
                } else {
                    r.append("daemon started in background (pid ");
                }
                r.append(u64_to_decimal(d.pid as u64).as_str());
                r.append(")");
            },
            Payload::DaemonStop(d) => {
                r.append("daemon stopped (pid ");
                r.append(u64_to_decimal(d.pid as u64).as_str());
                r.append(")");
            },
            Payload::DaemonStatus(d) => {
                if d.running {
                    let pid = match d.pid {
                        Some(p) => p,
                        None => 0u32,
                    };
                    r.append("daemon running (pid ");
                    r.append(u64_to_decimal(pid as u64).as_str());
                    r.append("), ");
                } else {
                    r.append("daemon not running, ");
                }
                r.append(u64_to_decimal(d.pending as u64).as_str());
                r.append(" pending ask(s)");
            },
        }
        assert(r@ =~= payload_text(*self));
        r
    }
}

/// Which stream a rendered line belongs on. Human-mode errors are
/// diagnostics and go to stderr; everything else is a result on stdout.
#[derive(Debug, Clone, Copy, PartialEq, Eq, Structural)]
pub enum Sink {
    Stdout,
    Stderr,
}

/// Where a command result goes and the exit code it ends the process with:
/// success is stdout and 0; an error is stdout in JSON mode, stderr in human
/// mode, with its kind's exit code either way.
pub open spec fn routing(result: Result<Payload, AppError>, json: bool) -> (Sink, i32) {
    match result {
        Ok(_) => (Sink::Stdout, 0),
        Err(e) => (if json { Sink::Stdout } else { Sink::Stderr }, exit_code_of(e.kind)),
    }
}

pub fn route(result: &Result<Payload, AppError>, json: bool) -> (r: (Sink, i32))
    ensures
        r == routing(*result, json),
{
    match result {
        Ok(_) => (Sink::Stdout, 0),
        Err(err) => {
            let sink = if json { Sink::Stdout } else { Sink::Stderr };
            (sink, exit_code(err))
        },
    }
}

/// The human text for a command result: the payload's rendering, or the
/// error's.
pub fn human_text(result: &Result<Payload, AppError>) -> (r: String)
    ensures
        r@ == match *result {
            Ok(p) => payload_text(p),
            Err(e) => human_error(e),
        },
{
    match result {
        Ok(payload) => payload.to_human(),
        Err(err) => err.to_human(),
    }
}

/// The exit code of a result is the same in JSON and human mode, and a
/// success is always printed on stdout with exit code 0.
pub proof fn lemma_exit_code_ignores_mode(result: Result<Payload, AppError>, json: bool)
    ensures
        routing(result, true).1 == routing(result, false).1,
        result is Ok ==> routing(result, json) == (Sink::Stdout, 0i32),
{
}

} // verus!
