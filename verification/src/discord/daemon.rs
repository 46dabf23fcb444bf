//! Daemon lifecycle rules that do not need a process: reading the pidfile
//! and deciding what `start`, `stop` and `status` do with the pid it holds.

use vstd::prelude::*;
use vstd::string::*;
use crate::discord::error::{plain_error, AppError, ErrorKind};
use crate::discord::output::{DaemonStatusData, Payload};
use crate::text::{decimal, parse_i32, parse_signed, trim, trimmed, u64_to_decimal};

verus! {

/// The pid a pidfile records: its trimmed contents as a positive `i32`.
/// Anything else is a stale pidfile (no daemon).
pub open spec fn pid_in(contents: Seq<char>) -> Option<int> {
    match parse_signed(trimmed(contents), i32::MAX as int) {
        Some(p) => if p > 0 { Some(p) } else { None },
        None => None,
    }
}

/// Unreadable or non-positive contents mean "no daemon", so a fresh start
/// can proceed and overwrite the file.
pub fn parse_pid(contents: &str) -> (r: Option<i32>)
    ensures
        match r {
            Some(p) => pid_in(contents@) == Some(p as int),
            None => pid_in(contents@) is None,
        },
{
    let t = trim(contents);
    match parse_i32(t.as_str()) {
        Some(p) => if p > 0 { Some(p) } else { None },
        None => None,
    }
}

/// The pid of a running daemon: the recorded pid, when its process is
/// alive.
pub fn live_pid(recorded: Option<i32>, alive: bool) -> (r: Option<i32>)
    ensures
        r == (if alive { recorded } else { None }),
{
    if alive { recorded } else { None }
}

pub open spec fn already_running_message(pid: int) -> Seq<char> {
    "daemon is already running (pid "@ + decimal(pid as nat) + ")"@
}

/// A background `start` refuses while a daemon is alive.
pub fn check_not_running(live: Option<i32>) -> (r: Result<(), AppError>)
    requires
        live matches Some(p) ==> p > 0,
    ensures
        live is None ==> r is Ok,
        live matches Some(p) ==> (r matches Err(e) && plain_error(ErrorKind::Usage, already_running_message(p as int), e)),
{
    match live {
        None => Ok(()),
        Some(pid) => {
            let mut message = String::new();
            message.append("daemon is already running (pid ");
            message.append(u64_to_decimal(pid as u64).as_str());
            message.append(")");
            Err(AppError::with_message(ErrorKind::Usage, message))
        },
    }
}

/// `stop` signals the live daemon; without one there is nothing to stop.
pub fn stop_target(live: Option<i32>) -> (r: Result<i32, AppError>)
    ensures
        live matches Some(p) ==> r == Ok::<i32, AppError>(p),
        live is None ==> (r matches Err(e) && plain_error(ErrorKind::Usage, "daemon is not running"@, e)),
{
    match live {
        Some(pid) => Ok(pid),
        None => Err(AppError::new(ErrorKind::Usage, "daemon is not running")),
    }
}

/// `status`: whether a daemon is alive, its pid when it is, and how many
/// asks are pending either way.
pub fn status_answer(live: Option<i32>, pending: usize) -> (r: Payload)
    requires
        live matches Some(p) ==> p > 0,
    ensures
        r matches Payload::DaemonStatus(d) && d.running == (live is Some) && d.pending == pending
            && (match live {
                Some(p) => d.pid == Some(p as u32),
                None => d.pid is None,
            }),
{
    let pid = match live {
        Some(p) => Some(p as u32),
        None => None,
    };
    Payload::DaemonStatus(DaemonStatusData { running: live.is_some(), pid, pending })
}

} // verus!
