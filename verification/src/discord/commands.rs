//! The decisions of the `init`, `send`, `read` and `wait` commands. The network
//! calls themselves are made by the application around these functions:
//! it sends the request [`prepare_send`] builds and answers the message it
//! created by [`send_payload`], feeds fetched messages to
//! [`read_payload`], and drives the poll loop by [`wait_step`].

use vstd::prelude::*;
use vstd::string::*;
use crate::discord::api::{CreateThreadRequest, CreatedThread, Message, SendRequest, SentMessage};
use crate::discord::cursor::{cursor_after, opt_str_view, opt_string_view, sort_ascending_by_id, stably_sorted, snowflake, bad_snowflake_message, validate_limit, limit_message};
use crate::discord::error::{plain_error, AppError, ErrorKind};
use crate::discord::config::Config;
use crate::discord::output::{InitData, Payload, ReadData, SendData, ThreadData, WaitData};
use crate::discord::send::{caption_outcome, error_with_prefix, files_outcome, opt_view, read_stdin_to_string, resolve_files, resolve_send_content};
use crate::text::{str_eq, trim, trimmed};
use std::collections::HashMap;

verus! {

/// Whether any attachment was loaded.
pub open spec fn carries_files(parts: Seq<crate::discord::api::FilePart>) -> bool {
    parts.len() > 0
}

/// Builds the request `send` posts: an explicit empty `--reply-to` is a
/// usage error; then the attachments are loaded and the caption resolved
/// (stdin is not read when files carry the message).
pub fn prepare_send<F: Fn(&str) -> std::io::Result<Vec<u8>>, G: FnOnce() -> std::io::Result<String>>(
    channel_id: &str,
    body: Option<&str>,
    text: Option<&str>,
    reply_to: Option<&str>,
    file_paths: &[String],
    read_stdin: G,
    read_file: F,
) -> (r: Result<SendRequest, AppError>)
    requires
        call_requires(read_stdin, ()),
        forall|p: &str| call_requires(read_file, (p,)),
    ensures
        opt_view(reply_to) == Some(Seq::<char>::empty()) ==> (r matches Err(e) && plain_error(
            ErrorKind::Usage,
            "--reply-to must not be an empty string"@,
            e,
        )),
        opt_view(reply_to) != Some(Seq::<char>::empty()) ==> exists|files: Result<Vec<crate::discord::api::FilePart>, AppError>| {
            &&& #[trigger] files_outcome(file_paths@, read_file, files)
            &&& match files {
                Err(e) => r == Err::<SendRequest, AppError>(e),
                Ok(parts) => exists|caption: Result<String, AppError>| {
                    &&& #[trigger] caption_outcome(opt_view(body), opt_view(text), carries_files(parts@), read_stdin, caption)
                    &&& match caption {
                        Err(e) => r == Err::<SendRequest, AppError>(e),
                        Ok(content) => r matches Ok(req) && {
                            &&& req.channel_id@ == channel_id@
                            &&& req.content@ == content@
                            &&& opt_string_view(req.reply_to) == opt_view(reply_to)
                            &&& req.files@ == parts@
                        },
                    }
                },
            }
        },
{
    let empty_reply = match reply_to {
        Some(reply) => str_eq(reply, ""),
        None => false,
    };
    proof {
        reveal_strlit("");
        assert(""@ =~= Seq::<char>::empty());
        assert(empty_reply == (opt_view(reply_to) == Some(Seq::<char>::empty())));
    }
    if empty_reply {
        return Err(AppError::new(ErrorKind::Usage, "--reply-to must not be an empty string"));
    }
    let files_res = resolve_files(file_paths, read_file);
    let ghost files_g = files_res;
    assert(files_outcome(file_paths@, read_file, files_g));
    let files = match files_res {
        Ok(parts) => parts,
        Err(e) => return Err(e),
    };
    let has_files = files.len() > 0;
    let caption_res = resolve_send_content(body, text, has_files, read_stdin);
    let ghost caption_g = caption_res;
    assert(caption_outcome(opt_view(body), opt_view(text), carries_files(files@), read_stdin, caption_g));
    let content = match caption_res {
        Ok(c) => c,
        Err(e) => return Err(e),
    };
    let reply = match reply_to {
        Some(s) => Some(s.to_owned()),
        None => None,
    };
    Ok(SendRequest { channel_id: channel_id.to_owned(), content, reply_to: reply, files })
}

/// The `send` result for the message Discord created: its id, channel,
/// timestamp and attachments, reported as they came back.
pub fn send_payload(sent: SentMessage) -> (r: Payload)
    ensures
        r == Payload::Send(SendData {
            message_id: sent.id,
            channel_id: sent.channel_id,
            timestamp: sent.timestamp,
            attachments: sent.attachments,
        }),
{
    Payload::Send(SendData {
        message_id: sent.id,
        channel_id: sent.channel_id,
        timestamp: sent.timestamp,
        attachments: sent.attachments,
    })
}

/// The `read` result for the messages Discord returned: oldest-first, with
/// the cursor for the next call.
pub fn read_payload(channel_id: &str, after: Option<&str>, messages: Vec<Message>) -> (r: Result<Payload, AppError>)
    ensures
        match r {
            Ok(Payload::Read(d)) => {
                &&& d.channel_id@ == channel_id@
                &&& stably_sorted(messages@, d.messages@)
                &&& d.count == d.messages@.len()
                &&& opt_string_view(d.cursor) == cursor_after(d.messages@, opt_str_view(after))
            },
            Ok(_) => false,
            Err(e) => exists|i: int| {
                &&& 0 <= i < messages@.len()
                &&& snowflake(messages@[i].id@) is None
                &&& plain_error(ErrorKind::Api, bad_snowflake_message(messages@[i].id@), e)
            },
        },
{
    let sorted = match sort_ascending_by_id(messages) {
        Ok(s) => s,
        Err(e) => return Err(e),
    };
    let cursor = crate::discord::cursor::newest_cursor(sorted.as_slice(), after);
    Ok(Payload::Read(ReadData { channel_id: channel_id.to_owned(), count: sorted.len(), cursor, messages: sorted }))
}

/// How many polls `wait` makes: `ceil(timeout / interval)`, at least one.
pub open spec fn poll_budget(timeout: u64, interval: u64) -> int {
    let polls = (timeout as int + interval as int - 1) / interval as int;
    if polls < 1 { 1 } else { polls }
}

/// Validates `wait`'s arguments and answers its poll budget. The budget
/// is a count of polls, not wall-clock time, which keeps `wait`
/// deterministic.
pub fn wait_poll_budget(timeout: u64, interval: u64, limit: u8) -> (r: Result<u64, AppError>)
    ensures
        !(1 <= limit <= 100) ==> (r matches Err(e) && plain_error(ErrorKind::Usage, limit_message(limit), e)),
        1 <= limit <= 100 && interval == 0 ==> (r matches Err(e) && plain_error(
            ErrorKind::Usage,
            "interval must be greater than 0"@,
            e,
        )),
        1 <= limit <= 100 && interval > 0 ==> r == Ok::<u64, AppError>(poll_budget(timeout, interval) as u64),
{
    match validate_limit(limit) {
        Ok(()) => {},
        Err(e) => return Err(e),
    }
    if interval == 0 {
        return Err(AppError::new(ErrorKind::Usage, "interval must be greater than 0"));
    }
    let whole = timeout / interval;
    assert(timeout % interval != 0 ==> whole < u64::MAX) by (nonlinear_arith)
        requires
            interval > 0,
            whole == timeout / interval,
    ;
    let polls = if timeout % interval == 0 { whole } else { whole + 1 };
    assert(polls == (timeout as int + interval as int - 1) / interval as int) by (nonlinear_arith)
        requires
            interval > 0,
            whole == timeout / interval,
            timeout % interval == 0 ==> polls == whole,
            timeout % interval != 0 ==> polls == whole + 1,
    ;
    if polls < 1 { Ok(1) } else { Ok(polls) }
}

/// What `wait` does after one poll.
#[derive(Debug, Clone, PartialEq, Eq)]
pub enum WaitStep {
    /// Stop and report this result.
    Finished(Payload),
    /// Sleep one interval, then poll again.
    SleepThenPoll,
}

/// The decision after poll number `poll` (counting from zero) of a budget of
/// `max_polls`: new messages finish the wait with them, sorted; an empty
/// poll sleeps and polls again, unless it was the last one, which finishes
/// with a timed-out result (a normal outcome, not an error).
pub fn wait_step(channel_id: &str, after: Option<&str>, poll: u64, max_polls: u64, messages: Vec<Message>) -> (r: Result<WaitStep, AppError>)
    requires
        poll < max_polls,
    ensures
        messages@.len() == 0 && poll + 1 < max_polls ==> r == Ok::<WaitStep, AppError>(WaitStep::SleepThenPoll),
        messages@.len() == 0 && poll + 1 == max_polls ==> (r matches Ok(WaitStep::Finished(Payload::Wait(d))) && {
            &&& d.channel_id@ == channel_id@
            &&& d.count == 0
            &&& opt_string_view(d.cursor) == opt_str_view(after)
            &&& d.timed_out
            &&& d.messages@.len() == 0
        }),
        messages@.len() > 0 ==> match r {
            Ok(WaitStep::Finished(Payload::Wait(d))) => {
                &&& d.channel_id@ == channel_id@
                &&& stably_sorted(messages@, d.messages@)
                &&& d.count == d.messages@.len()
                &&& opt_string_view(d.cursor) == cursor_after(d.messages@, opt_str_view(after))
                &&& !d.timed_out
            },
            Ok(_) => false,
            Err(e) => exists|i: int| {
                &&& 0 <= i < messages@.len()
                &&& snowflake(messages@[i].id@) is None
                &&& plain_error(ErrorKind::Api, bad_snowflake_message(messages@[i].id@), e)
            },
        },
{
    if messages.len() > 0 {
        let sorted = match sort_ascending_by_id(messages) {
            Ok(s) => s,
            Err(e) => return Err(e),
        };
        let cursor = crate::discord::cursor::newest_cursor(sorted.as_slice(), after);
        return Ok(WaitStep::Finished(Payload::Wait(WaitData {
            channel_id: channel_id.to_owned(),
            count: sorted.len(),
            cursor,
            timed_out: false,
            messages: sorted,
        })));
    }
    if poll + 1 < max_polls {
        return Ok(WaitStep::SleepThenPoll);
    }
    let cursor = match after {
        Some(a) => Some(a.to_owned()),
        None => None,
    };
    Ok(WaitStep::Finished(Payload::Wait(WaitData {
        channel_id: channel_id.to_owned(),
        count: 0,
        cursor,
        timed_out: true,
        messages: Vec::new(),
    })))
}

/// A raw token, trimmed, or the usage error for a blank one.
pub open spec fn init_token_verdict(raw: Seq<char>, r: Result<String, AppError>) -> bool {
    if trimmed(raw).len() == 0 {
        r matches Err(e) && plain_error(ErrorKind::Usage, "token must not be empty"@, e)
    } else {
        r matches Ok(t) && t@ == trimmed(raw)
    }
}

/// What resolving the `init` token answers: `--token` when given, else all
/// of stdin; trimmed, and never blank.
pub open spec fn init_token_outcome<F: FnOnce() -> std::io::Result<String>>(
    flag: Option<Seq<char>>,
    read_stdin: F,
    r: Result<String, AppError>,
) -> bool {
    match flag {
        Some(f) => init_token_verdict(f, r),
        None => exists|res: std::io::Result<String>| {
            &&& call_ensures(read_stdin, (), res)
            &&& match res {
                Ok(s) => init_token_verdict(s@, r),
                Err(_) => r matches Err(e) && error_with_prefix(ErrorKind::Internal, "failed to read stdin: "@, e),
            }
        },
    }
}

/// Resolves and trims the `init` token: `--token` if given, otherwise the
/// full stdin. A token that is empty after trimming is a usage error.
pub fn resolve_init_token(flag: Option<&str>, read_stdin: impl FnOnce() -> std::io::Result<String>) -> (r: Result<String, AppError>)
    requires
        call_requires(read_stdin, ()),
    ensures
        init_token_outcome(opt_view(flag), read_stdin, r),
{
    let raw = match flag {
        Some(t) => t.to_owned(),
        None => match read_stdin_to_string(read_stdin) {
            Ok(s) => s,
            Err(e) => return Err(e),
        },
    };
    let token = trim(raw.as_str());
    if token.as_str().unicode_len() == 0 {
        return Err(AppError::new(ErrorKind::Usage, "token must not be empty"));
    }
    Ok(token)
}

pub open spec fn config_exists_message(path: Seq<char>) -> Seq<char> {
    "config already exists at "@ + path + " (use --force to overwrite)"@
}

/// Writes the config with `token` and `channels` through `write`, then
/// reports where it went and whether it is new.
pub open spec fn init_write_outcome<W: FnOnce(&Config) -> Result<(), AppError>>(
    path: Seq<char>,
    token: Seq<char>,
    channels: Map<String, String>,
    created: bool,
    write: W,
    r: Result<Payload, AppError>,
) -> bool {
    exists|cfg: Config, w: Result<(), AppError>| {
        &&& (cfg.token matches Some(t) && t@ == token)
        &&& cfg.channels@ == channels
        &&& call_ensures(write, (&cfg,), w)
        &&& match w {
            Err(e) => r == Err::<Payload, AppError>(e),
            Ok(_) => r matches Ok(Payload::Init(d)) && d.path@ == path && d.created == created,
        }
    }
}

/// Creates or overwrites the local config with a bot token. The token is
/// checked before anything else happens; an existing config is only
/// replaced with `force`, and then keeps its channel aliases (a config that
/// cannot be read fails the command rather than being dropped).
pub fn run_init<
    R: FnOnce() -> std::io::Result<String>,
    E: FnOnce() -> bool,
    L: FnOnce() -> Result<Option<Config>, AppError>,
    W: FnOnce(&Config) -> Result<(), AppError>,
>(
    path: &str,
    token_flag: Option<&str>,
    force: bool,
    read_stdin: R,
    config_exists: E,
    load_existing: L,
    write: W,
) -> (r: Result<Payload, AppError>)
    requires
        call_requires(read_stdin, ()),
        call_requires(config_exists, ()),
        call_requires(load_existing, ()),
        forall|c: &Config| call_requires(write, (c,)),
    ensures
        exists|tok: Result<String, AppError>| {
            &&& #[trigger] init_token_outcome(opt_view(token_flag), read_stdin, tok)
            &&& match tok {
                Err(e) => r == Err::<Payload, AppError>(e),
                Ok(token) => exists|present: bool| {
                    &&& call_ensures(config_exists, (), present)
                    &&& if present && !force {
                        r matches Err(e) && plain_error(ErrorKind::Usage, config_exists_message(path@), e)
                    } else if !present {
                        init_write_outcome(path@, token@, Map::empty(), true, write, r)
                    } else {
                        exists|loaded: Result<Option<Config>, AppError>| {
                            &&& call_ensures(load_existing, (), loaded)
                            &&& match loaded {
                                Err(e) => r == Err::<Payload, AppError>(e),
                                Ok(Some(c)) => init_write_outcome(path@, token@, c.channels@, false, write, r),
                                Ok(None) => init_write_outcome(path@, token@, Map::empty(), false, write, r),
                            }
                        }
                    }
                },
            }
        },
{
    let tok = resolve_init_token(token_flag, read_stdin);
    let ghost tok_g = tok;
    assert(init_token_outcome(opt_view(token_flag), read_stdin, tok_g));
    let token = match tok {
        Ok(t) => t,
        Err(e) => return Err(e),
    };
    let already_exists = config_exists();
    if already_exists && !force {
        let mut message = String::new();
        message.append("config already exists at ");
        message.append(path);
        message.append(" (use --force to overwrite)");
        return Err(AppError::with_message(ErrorKind::Usage, message));
    }
    let channels = if already_exists {
        let loaded = load_existing();
        match loaded {
            Ok(Some(c)) => c.channels,
            Ok(None) => HashMap::new(),
            Err(e) => return Err(e),
        }
    } else {
        HashMap::new()
    };
    let new_config = Config { token: Some(token), channels };
    let written = write(&new_config);
    match written {
        Err(e) => Err(e),
        Ok(()) => Ok(Payload::Init(InitData { path: path.to_owned(), created: !already_exists })),
    }
}

/// The request `thread create` makes: a thread on the channel, or on one of
/// its messages when `from_message` is given.
pub fn thread_request(channel_id: &str, name: &str, from_message: Option<&str>) -> (r: CreateThreadRequest)
    ensures
        r.channel_id@ == channel_id@,
        r.name@ == name@,
        opt_string_view(r.from_message_id) == opt_view(from_message),
{
    let from_message_id = match from_message {
        Some(m) => Some(m.to_owned()),
        None => None,
    };
    CreateThreadRequest { channel_id: channel_id.to_owned(), name: name.to_owned(), from_message_id }
}

/// `thread create`'s answer: the thread Discord reports, as it reports it.
pub fn thread_answer(thread: CreatedThread) -> (r: Payload)
    ensures
        r matches Payload::Thread(d) && d.thread_id == thread.id && d.name == thread.name,
{
    Payload::Thread(ThreadData { thread_id: thread.id, name: thread.name })
}

} // verus!
