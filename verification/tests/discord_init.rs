use std::cell::Cell;

use areum_tools::discord::commands::{resolve_init_token, run_init};
use areum_tools::discord::config::Config;
use areum_tools::discord::error::{AppError, ErrorKind};
use areum_tools::discord::output::Payload;

fn unreachable_stdin() -> std::io::Result<String> {
    panic!("stdin should not be read")
}

/// Runs `init` for a config that does not exist yet, recording whether
/// anything was written.
fn init_fresh(token_flag: Option<&str>, stdin: impl FnOnce() -> std::io::Result<String>) -> (Result<Payload, AppError>, bool) {
    let written = Cell::new(false);
    let result = run_init(
        "/home/user/.areum/discord/config.json",
        token_flag,
        false,
        stdin,
        || false,
        || panic!("nothing to load for a fresh config"),
        |_: &Config| {
            written.set(true);
            Ok(())
        },
    );
    (result, written.get())
}

#[test]
fn run_init_rejects_empty_token_flag() {
    let (result, written) = init_fresh(Some("   "), unreachable_stdin);
    assert_eq!(result.unwrap_err().kind, ErrorKind::Usage);
    assert!(!written);
}

#[test]
fn run_init_rejects_empty_stdin_token() {
    let (result, written) = init_fresh(None, || Ok("   \n".to_owned()));
    assert_eq!(result.unwrap_err().kind, ErrorKind::Usage);
    assert!(!written);
}

#[test]
fn run_init_rejects_completely_empty_stdin_token() {
    let (result, written) = init_fresh(None, || Ok(String::new()));
    assert_eq!(result.unwrap_err().kind, ErrorKind::Usage);
    assert!(!written);
}

#[test]
fn run_init_empty_token_check_happens_before_any_file_io() {
    let err = run_init(
        "/should/never/be/touched/config.json",
        Some(""),
        false,
        unreachable_stdin,
        || panic!("exists should not be called"),
        || panic!("load_existing should not be called"),
        |_: &Config| panic!("write should not be called"),
    )
    .unwrap_err();
    assert_eq!(err.kind, ErrorKind::Usage);
}

#[test]
fn init_token_is_trimmed_from_stdin_and_flag() {
    assert_eq!(resolve_init_token(None, || Ok("  mytoken  \n".to_owned())).unwrap(), "mytoken");
    assert_eq!(resolve_init_token(Some(" t0k "), unreachable_stdin).unwrap(), "t0k");
}

#[test]
fn init_refuses_to_overwrite_without_force() {
    let err = run_init(
        "/cfg.json",
        Some("tok"),
        false,
        unreachable_stdin,
        || true,
        || panic!("a refused overwrite loads nothing"),
        |_: &Config| panic!("a refused overwrite writes nothing"),
    )
    .unwrap_err();
    assert_eq!(err.kind, ErrorKind::Usage);
    assert_eq!(err.message, "config already exists at /cfg.json (use --force to overwrite)");
}

#[test]
fn forced_init_keeps_the_channel_aliases() {
    let mut channels = std::collections::HashMap::new();
    channels.insert("general".to_owned(), "111".to_owned());
    let seen = Cell::new(false);
    let payload = run_init(
        "/cfg.json",
        Some("new-token"),
        true,
        unreachable_stdin,
        || true,
        move || Ok(Some(Config { token: Some("old".to_owned()), channels })),
        |cfg: &Config| {
            assert_eq!(cfg.token.as_deref(), Some("new-token"));
            assert_eq!(cfg.channels.get("general").map(String::as_str), Some("111"));
            seen.set(true);
            Ok(())
        },
    )
    .unwrap();
    assert!(seen.get());
    match payload {
        Payload::Init(d) => {
            assert_eq!(d.path, "/cfg.json");
            assert!(!d.created);
        }
        other => panic!("unexpected payload {other:?}"),
    }
}

#[test]
fn fresh_init_reports_created() {
    let (result, written) = init_fresh(Some("tok"), unreachable_stdin);
    assert!(written);
    match result.unwrap() {
        Payload::Init(d) => assert!(d.created),
        other => panic!("unexpected payload {other:?}"),
    }
}

#[test]
fn stdin_failure_message_carries_the_io_error() {
    let err = resolve_init_token(None, || Err(std::io::Error::other("pipe closed"))).unwrap_err();
    assert_eq!(err.kind, ErrorKind::Internal);
    assert_eq!(err.message, "failed to read stdin: pipe closed");
}
