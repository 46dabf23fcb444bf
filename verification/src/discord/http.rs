//! The decisions of the Discord REST client: request URLs, how a failed
//! response is classified, and when a rate limit is waited out. The HTTP
//! exchange itself is the application's.

use vstd::prelude::*;
use vstd::string::*;
use crate::discord::error::{plain_error, AppError, ErrorKind};
use crate::discord::ask::lemma_decimal_digits;
use crate::text::{all_digits, decimal, digits_value, u64_to_decimal};

verus! {

/// Discord's REST base URL.
pub const API_BASE: &'static str = "https://discord.com/api/v10";

/// How many times a rate-limited request is retried.
pub const MAX_RATE_LIMIT_RETRIES: u32 = 3;

/// Retry-after waits above this are not worth blocking the CLI for.
pub const MAX_RETRY_SLEEP_MS: u64 = 300_000;

/// `GET {base}/channels/{channel}/messages?limit={limit}[&after={after}]`.
pub open spec fn messages_url(base_url: Seq<char>, channel_id: Seq<char>, after: Option<Seq<char>>, limit: u8) -> Seq<char> {
    base_url + "/channels/"@ + channel_id + "/messages?limit="@ + decimal(limit as nat)
        + match after {
            Some(a) => "&after="@ + a,
            None => Seq::empty(),
        }
}

pub fn get_messages_url(base_url: &str, channel_id: &str, after: Option<&str>, limit: u8) -> (url: String)
    ensures
        url@ == messages_url(base_url@, channel_id@, match after { Some(a) => Some(a@), None => None }, limit),
{
    let mut url = String::new();
    url.append(base_url);
    url.append("/channels/");
    url.append(channel_id);
    url.append("/messages?limit=");
    url.append(u64_to_decimal(limit as u64).as_str());
    if let Some(a) = after {
        url.append("&after=");
        url.append(a);
    }
    assert(url@ =~= messages_url(base_url@, channel_id@, match after { Some(a) => Some(a@), None => None }, limit));
    url
}

/// The messages URL asks for exactly the requested limit: it is the
/// channel's messages path, `?limit=`, a run of digits that reads back as
/// `limit`, and `&after=` with the cursor only when one is given.
pub proof fn lemma_messages_url_carries_the_limit(base_url: Seq<char>, channel_id: Seq<char>, after: Option<Seq<char>>, limit: u8)
    ensures
        exists|digits: Seq<char>| {
            &&& digits.len() > 0
            &&& all_digits(digits)
            &&& digits_value(digits) == limit
            &&& #[trigger] messages_url(base_url, channel_id, after, limit)
                == base_url + "/channels/"@ + channel_id + "/messages?limit="@ + digits + match after {
                    Some(a) => "&after="@ + a,
                    None => Seq::<char>::empty(),
                }
        },
{
    lemma_decimal_digits(limit as nat);
    let digits = decimal(limit as nat);
    assert(messages_url(base_url, channel_id, after, limit)
        == base_url + "/channels/"@ + channel_id + "/messages?limit="@ + digits + match after {
            Some(a) => "&after="@ + a,
            None => Seq::<char>::empty(),
        });
}

/// 401 and 403 are authentication failures; any other failed status is an
/// API error.
pub open spec fn status_kind(status: u16) -> ErrorKind {
    if status == 401 || status == 403 { ErrorKind::Auth } else { ErrorKind::Api }
}

/// Maps an HTTP status (known not to be 2xx or 429) to an error kind.
pub fn classify_status(status: u16) -> (k: ErrorKind)
    ensures
        k == status_kind(status),
{
    if status == 401 || status == 403 { ErrorKind::Auth } else { ErrorKind::Api }
}

/// The first `n` characters of `s` (all of it when shorter).
pub open spec fn prefix_of(s: Seq<char>, n: nat) -> Seq<char> {
    if s.len() <= n { s } else { s.subrange(0, n as int) }
}

/// The first `n` characters of `s`.
pub fn take_chars(s: &str, n: usize) -> (r: String)
    ensures
        r@ == prefix_of(s@, n as nat),
{
    let len = s.unicode_len();
    if len <= n {
        s.to_owned()
    } else {
        s.substring_char(0, n).to_owned()
    }
}

/// The error for a failed response: its kind, the status, and the first 200
/// characters of the body.
pub fn status_error(status: u16, body: &str) -> (e: AppError)
    ensures
        e.kind == status_kind(status),
        e.message@ == "Discord API returned "@ + decimal(status as nat) + ": "@ + prefix_of(body@, 200),
        e.http_status == Some(status),
        e.retry_after_ms is None,
{
    let snippet = take_chars(body, 200);
    let mut message = String::new();
    message.append("Discord API returned ");
    message.append(u64_to_decimal(status as u64).as_str());
    message.append(": ");
    message.append(snippet.as_str());
    AppError { kind: classify_status(status), message, http_status: Some(status), retry_after_ms: None }
}

/// The error once a rate limit is not (or no longer) waited out: kind
/// `rate_limit`, status 429, the fixed message, and the announced delay.
pub open spec fn is_rate_limit_error(retry_after_ms: Option<u64>, e: AppError) -> bool {
    &&& e.kind == ErrorKind::RateLimit
    &&& e.message@ == "Discord rate limit retries exhausted"@
    &&& e.http_status == Some(429u16)
    &&& e.retry_after_ms == retry_after_ms
}

/// The error once a rate limit is not (or no longer) waited out.
pub fn rate_limit_error(retry_after_ms: Option<u64>) -> (e: AppError)
    ensures
        is_rate_limit_error(retry_after_ms, e),
{
    AppError {
        kind: ErrorKind::RateLimit,
        message: String::from_str("Discord rate limit retries exhausted"),
        http_status: Some(429),
        retry_after_ms,
    }
}

/// The error for a 2xx body that is not the expected JSON: the parser's
/// complaint and the first 200 characters of the body.
pub fn deserialize_error(body: &str, detail: &str) -> (e: AppError)
    ensures
        plain_error(
            ErrorKind::Api,
            "failed to deserialize Discord response: "@ + detail@ + "; body: "@ + prefix_of(body@, 200),
            e,
        ),
{
    let snippet = take_chars(body, 200);
    let mut message = String::new();
    message.append("failed to deserialize Discord response: ");
    message.append(detail);
    message.append("; body: ");
    message.append(snippet.as_str());
    AppError::with_message(ErrorKind::Api, message)
}

/// Whether a parsed retry-after is short enough to sleep through rather
/// than handing the wait back to the caller.
pub fn should_retry_after(retry_after_ms: u64) -> (b: bool)
    ensures
        b == (retry_after_ms <= MAX_RETRY_SLEEP_MS),
{
    retry_after_ms <= MAX_RETRY_SLEEP_MS
}

/// What the client does with a 429 answer.
#[derive(Debug, Clone, PartialEq, Eq)]
pub enum RateLimitAction {
    /// Sleep this many milliseconds and resend.
    Retry(u64),
    /// Give up with this error.
    Fail(AppError),
}

/// A 429 is retried after its announced delay when that delay is known and
/// at most 300 s, for at most three retries; otherwise the request fails as
/// rate limited, carrying the delay when one was announced.
pub fn on_rate_limited(retry_after_ms: Option<u64>, retries: u32) -> (a: RateLimitAction)
    ensures
        match retry_after_ms {
            Some(ms) if ms <= MAX_RETRY_SLEEP_MS && retries < MAX_RATE_LIMIT_RETRIES => a == RateLimitAction::Retry(ms),
            _ => a matches RateLimitAction::Fail(e) && is_rate_limit_error(retry_after_ms, e),
        },
{
    match retry_after_ms {
        Some(ms) => {
            if should_retry_after(ms) && retries < MAX_RATE_LIMIT_RETRIES {
                return RateLimitAction::Retry(ms);
            }
        },
        None => {},
    }
    RateLimitAction::Fail(rate_limit_error(retry_after_ms))
}

} // verus!
