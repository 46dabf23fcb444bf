use areum_tools::discord::error as discord_error;
use areum_tools::discord::error::ErrorKind as D;
use areum_tools::discord::output as discord_output;
use areum_tools::kanban::error::{exit_code, AppError, ErrorKind};
use areum_tools::kanban::output::{human_text, route, Sink};

/// Both tools map every error kind to its exit code.
#[test]
fn error_exit_code_maps_every_kind() {
    let d = |kind: D| discord_error::exit_code(&discord_error::AppError::new(kind, ""));
    assert_eq!(d(D::Usage), 2);
    assert_eq!(d(D::Config), 3);
    assert_eq!(d(D::Auth), 3);
    assert_eq!(d(D::Api), 4);
    assert_eq!(d(D::RateLimit), 5);
    assert_eq!(d(D::Network), 6);
    assert_eq!(d(D::Internal), 1);

    assert_eq!(exit_code(&AppError::new(ErrorKind::Internal, "")), 1);
    assert_eq!(exit_code(&AppError::new(ErrorKind::Usage, "")), 2);
    assert_eq!(exit_code(&AppError::new(ErrorKind::Config, "")), 3);
    assert_eq!(exit_code(&AppError::new(ErrorKind::Api, "")), 4);
    assert_eq!(exit_code(&AppError::new(ErrorKind::RateLimit, "")), 5);
    assert_eq!(exit_code(&AppError::new(ErrorKind::Network, "")), 6);
    assert_eq!(exit_code(&AppError::new(ErrorKind::NotFound, "")), 7);
    assert_eq!(exit_code(&AppError::new(ErrorKind::Conflict, "")), 8);
}

#[test]
fn human_error_appends_present_optionals_only() {
    let plain = AppError::new(ErrorKind::NotFound, "no item itm-000017");
    assert_eq!(plain.to_human(), "error [not_found]: no item itm-000017");

    let detailed = AppError {
        kind: ErrorKind::RateLimit,
        message: "rate limited".into(),
        http_status: Some(429),
        retry_after_ms: Some(1200),
    };
    assert_eq!(detailed.to_human(), "error [rate_limit]: rate limited (http 429) (retry after 1200ms)");
}

#[test]
fn greeting_includes_name() {
    assert_eq!(areum_tools::hello::greeting("test"), "Hello, test!");
}

/// In human mode an error is a diagnostic on stderr, in both tools.
#[test]
fn mod_human_mode_error_routes_to_stderr_not_stdout() {
    let err = AppError::new(ErrorKind::NotFound, "no item itm-000017");
    let result = Err(err);
    let (sink, code) = route(&result, false);
    assert_eq!(sink, Sink::Stderr);
    assert_eq!(code, 7);
    assert_eq!(human_text(&result), "error [not_found]: no item itm-000017");

    let err = discord_error::AppError::new(discord_error::ErrorKind::Api, "channel not found");
    let (sink, _) = discord_output::route(&Err(err), false);
    assert_eq!(sink, discord_output::Sink::Stderr);
}

/// In JSON mode even an error goes to stdout, in both tools.
#[test]
fn mod_json_mode_error_still_routes_to_stdout() {
    let err = AppError::new(ErrorKind::Conflict, "state transition rejected");
    let (sink, _) = route(&Err(err), true);
    assert_eq!(sink, Sink::Stdout);

    let err = discord_error::AppError::new(discord_error::ErrorKind::Api, "channel not found");
    let (sink, _) = discord_output::route(&Err(err), true);
    assert_eq!(sink, discord_output::Sink::Stdout);
}

/// The exit code of an error does not depend on the output mode, in both
/// tools.
#[test]
fn mod_exit_code_matches_across_json_and_human_modes_for_every_kind() {
    let kinds = [
        ErrorKind::Usage,
        ErrorKind::Config,
        ErrorKind::Api,
        ErrorKind::RateLimit,
        ErrorKind::Network,
        ErrorKind::NotFound,
        ErrorKind::Conflict,
        ErrorKind::Internal,
    ];
    for kind in kinds {
        let err = AppError::new(kind, "boom");
        let (_, json_code) = route(&Err(err.clone()), true);
        let (_, human_code) = route(&Err(err), false);
        assert_eq!(json_code, human_code, "exit code diverged between modes for {kind:?}");
    }
    for kind in [D::Usage, D::Config, D::Auth, D::Api, D::RateLimit, D::Network, D::Internal] {
        let err = discord_error::AppError::new(kind, "boom");
        let (_, json_code) = discord_output::route(&Err(err.clone()), true);
        let (_, human_code) = discord_output::route(&Err(err), false);
        assert_eq!(json_code, human_code, "exit code diverged between modes for {kind:?}");
    }
}
