//! Error taxonomy of the `discord` tool: the kind drives both the JSON
//! `error.kind` and the process exit code.

use vstd::prelude::*;
use vstd::string::*;
use crate::text::{decimal, u64_to_decimal};

verus! {

#[derive(Debug, Clone, Copy, PartialEq, Eq, Structural)]
pub enum ErrorKind {
    Usage,
    Config,
    Auth,
    Api,
    RateLimit,
    Network,
    Internal,
}

/// The snake_case name of a kind, as it appears in output.
pub open spec fn kind_name(kind: ErrorKind) -> Seq<char> {
    match kind {
        ErrorKind::Usage => "usage"@,
        ErrorKind::Config => "config"@,
        ErrorKind::Auth => "auth"@,
        ErrorKind::Api => "api"@,
        ErrorKind::RateLimit => "rate_limit"@,
        ErrorKind::Network => "network"@,
        ErrorKind::Internal => "internal"@,
    }
}

impl ErrorKind {
    pub fn as_str(self) -> (r: &'static str)
        ensures
            r@ == kind_name(self),
    {
        match self {
            ErrorKind::Usage => "usage",
            ErrorKind::Config => "config",
            ErrorKind::Auth => "auth",
            ErrorKind::Api => "api",
            ErrorKind::RateLimit => "rate_limit",
            ErrorKind::Network => "network",
            ErrorKind::Internal => "internal",
        }
    }
}

/// Structured failure carried through the whole tool and rendered into the
/// error envelope.
#[derive(Debug, Clone, PartialEq, Eq)]
pub struct AppError {
    pub kind: ErrorKind,
    pub message: String,
    pub http_status: Option<u16>,
    pub retry_after_ms: Option<u64>,
}

/// Human rendering of an error: `error [kind]: message`, then
/// ` (http STATUS)` and ` (retry after MSms)` for whichever is present.
pub open spec fn human_error(e: AppError) -> Seq<char> {
    "error ["@ + kind_name(e.kind) + "]: "@ + e.message@
        + (match e.http_status {
            Some(status) => " (http "@ + decimal(status as nat) + ")"@,
            None => Seq::empty(),
        })
        + (match e.retry_after_ms {
            Some(ms) => " (retry after "@ + decimal(ms as nat) + "ms)"@,
            None => Seq::empty(),
        })
}

/// An error of `kind` carrying only a message.
pub open spec fn plain_error(kind: ErrorKind, message: Seq<char>, e: AppError) -> bool {
    e.kind == kind && e.message@ == message && e.http_status is None && e.retry_after_ms is None
}

impl AppError {
    pub fn new(kind: ErrorKind, message: &str) -> (e: AppError)
        ensures
            plain_error(kind, message@, e),
    {
        AppError { kind, message: message.to_owned(), http_status: None, retry_after_ms: None }
    }

    /// Same as [`AppError::new`] for a message that is already owned.
    pub fn with_message(kind: ErrorKind, message: String) -> (e: AppError)
        ensures
            plain_error(kind, message@, e),
    {
        AppError { kind, message, http_status: None, retry_after_ms: None }
    }

    pub fn to_human(&self) -> (out: String)
        ensures
            out@ == human_error(*self),
    {
        let mut out = String::new();
        out.append("error [");
        out.append(self.kind.as_str());
        out.append("]: ");
        out.append(self.message.as_str());
        let ghost base = out@;
        if let Some(status) = self.http_status {
            out.append(" (http ");
            let digits = u64_to_decimal(status as u64);
            out.append(digits.as_str());
            out.append(")");
        }
        let ghost mid = out@;
        if let Some(ms) = self.retry_after_ms {
            out.append(" (retry after ");
            let digits = u64_to_decimal(ms);
            out.append(digits.as_str());
            out.append("ms)");
        }
        assert(out@ =~= human_error(*self));
        out
    }
}

/// The exit code of each kind of failure.
pub open spec fn exit_code_of(kind: ErrorKind) -> i32 {
    match kind {
        ErrorKind::Usage => 2,
        ErrorKind::Config | ErrorKind::Auth => 3,
        ErrorKind::Api => 4,
        ErrorKind::RateLimit => 5,
        ErrorKind::Network => 6,
        ErrorKind::Internal => 1,
    }
}

/// Maps a failure to the process exit code.
pub fn exit_code(err: &AppError) -> (code: i32)
    ensures
        code == exit_code_of(err.kind),
{
    match err.kind {
        ErrorKind::Usage => 2,
        ErrorKind::Config | ErrorKind::Auth => 3,
        ErrorKind::Api => 4,
        ErrorKind::RateLimit => 5,
        ErrorKind::Network => 6,
        ErrorKind::Internal => 1,
    }
}

} // verus!
