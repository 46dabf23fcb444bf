use std::collections::HashMap;

use areum_tools::discord::ask::{parse_custom_id, validate_ask_create, AskCreateRequest, CustomId};
use areum_tools::discord::config::{resolve_channel, resolve_token};
use areum_tools::discord::daemon::parse_pid;
use areum_tools::discord::error::{exit_code, AppError, ErrorKind};
use areum_tools::discord::http::{classify_status, get_messages_url, should_retry_after, status_error, API_BASE};

fn sample_request() -> AskCreateRequest {
    AskCreateRequest {
        channel_id: "chan-1".to_owned(),
        question: "proceed?".to_owned(),
        options: vec!["yes".to_owned(), "no".to_owned()],
        allow_text: true,
        timeout_secs: 60,
    }
}

#[test]
fn create_rejects_zero_options() {
    let mut req = sample_request();
    req.options = vec![];
    let err = validate_ask_create(&req).unwrap_err();
    assert_eq!(err.kind, ErrorKind::Usage);
}

#[test]
fn create_rejects_more_than_four_options() {
    let mut req = sample_request();
    req.options = vec!["a", "b", "c", "d", "e"].into_iter().map(str::to_owned).collect();
    let err = validate_ask_create(&req).unwrap_err();
    assert_eq!(err.kind, ErrorKind::Usage);
}

#[test]
fn create_rejects_blank_option_label() {
    let mut req = sample_request();
    req.options = vec!["yes".to_owned(), "  ".to_owned()];
    let err = validate_ask_create(&req).unwrap_err();
    assert_eq!(err.kind, ErrorKind::Usage);
}

#[test]
fn create_rejects_blank_question() {
    let mut req = sample_request();
    req.question = "   ".to_owned();
    let err = validate_ask_create(&req).unwrap_err();
    assert_eq!(err.kind, ErrorKind::Usage);
}

#[test]
fn create_rejects_zero_timeout() {
    let mut req = sample_request();
    req.timeout_secs = 0;
    let err = validate_ask_create(&req).unwrap_err();
    assert_eq!(err.kind, ErrorKind::Usage);
}

#[test]
fn create_accepts_four_options_with_allow_text() {
    let mut req = sample_request();
    req.options = vec!["a", "b", "c", "d"].into_iter().map(str::to_owned).collect();
    req.allow_text = true;
    assert!(validate_ask_create(&req).is_ok());
}

#[test]
fn parse_pid_accepts_positive_trimmed_number() {
    assert_eq!(parse_pid("1234\n"), Some(1234));
    assert_eq!(parse_pid("  42  "), Some(42));
}

#[test]
fn parse_pid_rejects_garbage_and_nonpositive() {
    assert_eq!(parse_pid(""), None);
    assert_eq!(parse_pid("not-a-pid"), None);
    assert_eq!(parse_pid("0"), None);
    assert_eq!(parse_pid("-5"), None);
}

fn channels() -> HashMap<String, String> {
    HashMap::from([("general".to_owned(), "111".to_owned())])
}

#[test]
fn token_prefers_flag_over_env_and_config() {
    let token = resolve_token(Some("flag"), Some("env"), Some("cfg")).unwrap();
    assert_eq!(token, "flag");
}

#[test]
fn token_prefers_env_over_config() {
    let token = resolve_token(None, Some("env"), Some("cfg")).unwrap();
    assert_eq!(token, "env");
}

#[test]
fn token_falls_back_to_config() {
    let token = resolve_token(None, None, Some("cfg")).unwrap();
    assert_eq!(token, "cfg");
}

#[test]
fn token_absent_is_config_error() {
    let err = resolve_token(None, None, None).unwrap_err();
    assert_eq!(err.kind, ErrorKind::Config);
}

#[test]
fn channel_alias_is_substituted() {
    assert_eq!(resolve_channel("general", &channels()), "111");
}

#[test]
fn channel_unknown_passes_through_as_raw_id() {
    assert_eq!(resolve_channel("999", &channels()), "999");
}

#[test]
fn parse_custom_id_reads_choice_and_text() {
    assert_eq!(
        parse_custom_id("ask:123:opt:2"),
        Some(CustomId::Choice { ask_id: "123".to_owned(), index: 2 })
    );
    assert_eq!(parse_custom_id("ask:123:text"), Some(CustomId::Text { ask_id: "123".to_owned() }));
}

#[test]
fn parse_custom_id_rejects_foreign_and_malformed() {
    assert_eq!(parse_custom_id("othertool:1"), None);
    assert_eq!(parse_custom_id("ask:"), None);
    assert_eq!(parse_custom_id("ask::text"), None);
    assert_eq!(parse_custom_id("ask:123:opt:notanumber"), None);
}

#[test]
fn classify_status_maps_auth_statuses() {
    assert_eq!(classify_status(401), ErrorKind::Auth);
    assert_eq!(classify_status(403), ErrorKind::Auth);
}

#[test]
fn classify_status_maps_other_statuses_to_api() {
    assert_eq!(classify_status(400), ErrorKind::Api);
    assert_eq!(classify_status(404), ErrorKind::Api);
    assert_eq!(classify_status(500), ErrorKind::Api);
}

#[test]
fn status_error_preserves_http_status_for_api_kind() {
    let err = status_error(404, "not found");
    assert_eq!(err.kind, ErrorKind::Api);
    assert_eq!(err.http_status, Some(404));
}

#[test]
fn status_error_preserves_http_status_for_auth_kind() {
    let err = status_error(401, "unauthorized");
    assert_eq!(err.kind, ErrorKind::Auth);
    assert_eq!(err.http_status, Some(401));
}

#[test]
fn should_retry_after_allows_up_to_300_seconds() {
    assert!(should_retry_after(300_000));
    assert!(!should_retry_after(300_001));
}

#[test]
fn get_messages_url_includes_after_when_present() {
    let url = get_messages_url(API_BASE, "123", Some("456"), 50);
    assert_eq!(url, "https://discord.com/api/v10/channels/123/messages?limit=50&after=456");
}

#[test]
fn get_messages_url_omits_after_when_absent() {
    let url = get_messages_url(API_BASE, "123", None, 50);
    assert_eq!(url, "https://discord.com/api/v10/channels/123/messages?limit=50");
}

#[test]
fn output_exit_code_maps_every_kind() {
    assert_eq!(exit_code(&AppError::new(ErrorKind::Usage, "")), 2);
    assert_eq!(exit_code(&AppError::new(ErrorKind::Config, "")), 3);
    assert_eq!(exit_code(&AppError::new(ErrorKind::Auth, "")), 3);
    assert_eq!(exit_code(&AppError::new(ErrorKind::Api, "")), 4);
    assert_eq!(exit_code(&AppError::new(ErrorKind::RateLimit, "")), 5);
    assert_eq!(exit_code(&AppError::new(ErrorKind::Network, "")), 6);
    assert_eq!(exit_code(&AppError::new(ErrorKind::Internal, "")), 1);
}
