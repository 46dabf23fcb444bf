use areum_tools::discord::api::{Attachment, Author, Message, SentMessage};
use areum_tools::discord::ask::{AskRecord, AskStatus};
use areum_tools::discord::commands::{prepare_send, read_payload, send_payload, wait_poll_budget, wait_step, WaitStep};
use areum_tools::discord::config::default_config_path;
use areum_tools::discord::cursor::{newest_cursor, parse_snowflake, sort_ascending_by_id, validate_limit};
use areum_tools::discord::error::{AppError, ErrorKind};
use areum_tools::discord::http::{deserialize_error, on_rate_limited, rate_limit_error, take_chars, RateLimitAction};
use areum_tools::discord::interactions::{
    answer_reply, answered_text, choice_step, chosen_text, edit_outcome, edit_targets, modal_submit_check, open_modal_reply,
    requeue_failed_edits, route_interaction, ChoiceStep, EditOutcome, ExpireRetryQueue, InteractionReply,
    InteractionRoute, PendingEdit, TYPE_MESSAGE_COMPONENT, TYPE_MODAL_SUBMIT,
};
use areum_tools::discord::output::{format_messages, Payload};
use areum_tools::discord::send::{file_name_of, validate_body};
use std::path::PathBuf;

fn message(id: &str, content: &str) -> Message {
    Message {
        id: id.into(),
        channel_id: "chan".into(),
        author: Author { id: "u1".into(), username: "alice".into(), bot: false },
        content: content.into(),
        timestamp: "2024-01-01T00:00:00Z".into(),
        attachments: vec![],
    }
}

fn ask(allow_text: bool) -> AskRecord {
    AskRecord {
        ask_id: "557".into(),
        channel_id: "chan-1".into(),
        question: "Should we ship the release candidate tonight or wait for the morning?".into(),
        options: vec!["yes".into(), "no".into()],
        allow_text,
        status: AskStatus::Pending,
        kind: None,
        value: None,
        answered_by: None,
        created_at: "2024-01-01T00:00:00Z".into(),
        timeout_at: "2024-01-01T00:01:00Z".into(),
        answered_at: None,
    }
}

#[test]
fn read_sorts_numerically_and_reports_the_newest_cursor() {
    let payload = read_payload("chan", Some("5"), vec![message("100", "c"), message("9", "a"), message("10", "b")]).unwrap();
    match payload {
        Payload::Read(d) => {
            let ids: Vec<&str> = d.messages.iter().map(|m| m.id.as_str()).collect();
            assert_eq!(ids, ["9", "10", "100"]);
            assert_eq!(d.count, 3);
            assert_eq!(d.cursor.as_deref(), Some("100"));
        }
        other => panic!("unexpected payload {other:?}"),
    }
    let empty = read_payload("chan", Some("5"), vec![]).unwrap();
    match empty {
        Payload::Read(d) => assert_eq!(d.cursor.as_deref(), Some("5")),
        other => panic!("unexpected payload {other:?}"),
    }
    let err = read_payload("chan", None, vec![message("x1", "bad")]).unwrap_err();
    assert_eq!(err.kind, ErrorKind::Api);
    assert_eq!(err.message, "message id 'x1' is not a valid u64 snowflake");
}

#[test]
fn sorting_keeps_equal_ids_in_arrival_order() {
    let sorted = sort_ascending_by_id(vec![message("7", "first"), message("3", "x"), message("7", "second")]).unwrap();
    let contents: Vec<&str> = sorted.iter().map(|m| m.content.as_str()).collect();
    assert_eq!(contents, ["x", "first", "second"]);
    assert_eq!(newest_cursor(&sorted, None).as_deref(), Some("7"));
    assert_eq!(parse_snowflake("18446744073709551615").unwrap(), u64::MAX);
    assert_eq!(parse_snowflake("18446744073709551616").unwrap_err().kind, ErrorKind::Api);
}

#[test]
fn limits_and_poll_budgets_are_validated() {
    assert!(validate_limit(1).is_ok() && validate_limit(100).is_ok());
    let err = validate_limit(0).unwrap_err();
    assert_eq!(err.kind, ErrorKind::Usage);
    assert_eq!(err.message, "limit must be 1..=100 (got 0)");
    assert_eq!(validate_limit(101).unwrap_err().message, "limit must be 1..=100 (got 101)");
    assert_eq!(wait_poll_budget(60, 5, 50).unwrap(), 12);
    assert_eq!(wait_poll_budget(61, 5, 50).unwrap(), 13);
    assert_eq!(wait_poll_budget(0, 5, 50).unwrap(), 1);
    assert_eq!(wait_poll_budget(60, 0, 50).unwrap_err().message, "interval must be greater than 0");
}

#[test]
fn wait_sleeps_between_empty_polls_and_times_out_normally() {
    assert_eq!(wait_step("chan", Some("5"), 0, 3, vec![]).unwrap(), WaitStep::SleepThenPoll);
    match wait_step("chan", Some("5"), 2, 3, vec![]).unwrap() {
        WaitStep::Finished(Payload::Wait(d)) => {
            assert!(d.timed_out);
            assert_eq!(d.count, 0);
            assert_eq!(d.cursor.as_deref(), Some("5"));
        }
        other => panic!("unexpected step {other:?}"),
    }
    match wait_step("chan", None, 0, 3, vec![message("12", "b"), message("11", "a")]).unwrap() {
        WaitStep::Finished(Payload::Wait(d)) => {
            assert!(!d.timed_out);
            assert_eq!(d.messages[0].id, "11");
            assert_eq!(d.cursor.as_deref(), Some("12"));
        }
        other => panic!("unexpected step {other:?}"),
    }
}

#[test]
fn send_request_carries_files_and_caption() {
    let paths = vec!["/tmp/photo.png".to_owned()];
    let req = prepare_send("chan", None, None, Some("42"), &paths, || panic!("no stdin with files"), |_| Ok(vec![1, 2]))
        .unwrap();
    assert_eq!(req.content, "");
    assert_eq!(req.reply_to.as_deref(), Some("42"));
    assert_eq!(req.files.len(), 1);
    assert_eq!(req.files[0].filename, "photo.png");
    assert_eq!(req.files[0].bytes.len(), 2);
    let err = prepare_send("chan", Some("hi"), None, Some(""), &[], || Ok(String::new()), |_| Ok(vec![])).unwrap_err();
    assert_eq!(err.message, "--reply-to must not be an empty string");
}

#[test]
fn captions_and_file_names() {
    assert_eq!(validate_body("", false).unwrap_err().message, "message body must not be empty");
    assert!(validate_body("", true).is_ok());
    assert_eq!(validate_body(&"a".repeat(2001), true).unwrap_err().message, "message body exceeds 2000 characters (got 2001)");
    assert_eq!(file_name_of("/home/user/pics/photo.png"), "photo.png");
    assert_eq!(file_name_of("/"), "/");
}

#[test]
fn rate_limits_are_retried_three_times_within_five_minutes() {
    assert_eq!(on_rate_limited(Some(1500), 0), RateLimitAction::Retry(1500));
    assert_eq!(on_rate_limited(Some(300_000), 2), RateLimitAction::Retry(300_000));
    match on_rate_limited(Some(1500), 3) {
        RateLimitAction::Fail(e) => {
            assert_eq!(e.kind, ErrorKind::RateLimit);
            assert_eq!(e.http_status, Some(429));
            assert_eq!(e.retry_after_ms, Some(1500));
            assert_eq!(e.message, "Discord rate limit retries exhausted");
        }
        other => panic!("unexpected action {other:?}"),
    }
    assert!(matches!(on_rate_limited(Some(300_001), 0), RateLimitAction::Fail(_)));
    assert_eq!(on_rate_limited(None, 0), RateLimitAction::Fail(rate_limit_error(None)));
    assert_eq!(rate_limit_error(None).message, "Discord rate limit retries exhausted");
}

#[test]
fn deserialize_errors_cap_the_body_snippet_on_characters() {
    let body = "가".repeat(250);
    let err = deserialize_error(&body, "expected value at line 1");
    assert_eq!(err.kind, ErrorKind::Api);
    assert_eq!(err.message, format!("failed to deserialize Discord response: expected value at line 1; body: {}", "가".repeat(200)));
    assert_eq!(take_chars("abc", 2), "ab");
}

#[test]
fn default_config_lives_under_home() {
    assert_eq!(default_config_path(Some("/home/u")).unwrap(), PathBuf::from("/home/u/.areum/discord/config.json"));
    assert_eq!(default_config_path(None).unwrap_err().kind, ErrorKind::Config);
}

#[test]
fn interactions_route_by_type_and_custom_id() {
    let route = |kind, id: &str| route_interaction(Some(kind), Some(id), Some("i1"), Some("tok"));
    assert_eq!(route(TYPE_MESSAGE_COMPONENT, "ask:557:opt:1").unwrap(), InteractionRoute::Choice { ask_id: "557".into(), index: 1 });
    assert_eq!(route(TYPE_MESSAGE_COMPONENT, "ask:557:text").unwrap(), InteractionRoute::OpenModal { ask_id: "557".into() });
    assert_eq!(route(TYPE_MODAL_SUBMIT, "ask:557:text").unwrap(), InteractionRoute::ModalSubmit { ask_id: "557".into() });
    assert_eq!(route(TYPE_MODAL_SUBMIT, "ask:557:opt:1").unwrap(), InteractionRoute::Ignore);
    assert_eq!(route(TYPE_MESSAGE_COMPONENT, "othertool:1").unwrap(), InteractionRoute::Ignore);
    assert_eq!(route_interaction(None, Some("ask:557:text"), None, None).unwrap(), InteractionRoute::Ignore);
    let err = route_interaction(Some(TYPE_MESSAGE_COMPONENT), Some("ask:557:text"), None, Some("tok")).unwrap_err();
    assert_eq!(err.message, "interaction payload missing id");
}

#[test]
fn choices_and_modals_answer_only_what_the_ask_allows() {
    let rec = ask(false);
    assert_eq!(choice_step(Some(&rec), 1), ChoiceStep::TryAnswer("no".into()));
    assert_eq!(choice_step(Some(&rec), 2), ChoiceStep::Reply(InteractionReply::Ephemeral("알 수 없는 선택지입니다.".into())));
    assert_eq!(choice_step(None, 0), ChoiceStep::Reply(InteractionReply::Ephemeral("존재하지 않는 질문입니다.".into())));
    assert_eq!(answer_reply(true, chosen_text("yes")), InteractionReply::Resolved("선택됨: yes".into()));
    assert_eq!(answer_reply(false, answered_text("later")), InteractionReply::Ephemeral("이미 마감된 질문입니다.".into()));
    assert_eq!(
        open_modal_reply(Some(&rec), "557"),
        InteractionReply::Ephemeral("텍스트 응답이 허용되지 않는 질문입니다.".into())
    );
    match open_modal_reply(Some(&ask(true)), "557") {
        InteractionReply::Modal { custom_id, title } => {
            assert_eq!(custom_id, "ask:557:text");
            assert_eq!(title.chars().count(), 45);
            assert!(ask(true).question.starts_with(&title));
        }
        other => panic!("unexpected reply {other:?}"),
    }
    assert_eq!(modal_submit_check(Some(&ask(true))), None);
    assert!(modal_submit_check(Some(&rec)).is_some());
}

#[test]
fn failed_button_edits_are_retried_within_the_attempt_budget() {
    let mut queue = ExpireRetryQueue::new();
    queue.pending.push(PendingEdit { channel_id: "c".into(), ask_id: "old".into(), attempts: 2 });
    let targets = edit_targets(&vec![ask(true)], &mut queue);
    assert!(queue.pending.is_empty());
    assert_eq!(targets.len(), 2);
    assert_eq!(targets[0].ask_id, "557");
    assert_eq!(targets[0].attempts, 0);
    assert_eq!(targets[1].ask_id, "old");
    requeue_failed_edits(targets, &vec![EditOutcome::Failed, EditOutcome::Failed], &mut queue);
    assert_eq!(queue.pending.len(), 1);
    assert_eq!(queue.pending[0].ask_id, "557");
    assert_eq!(queue.pending[0].attempts, 1);
}

#[test]
fn message_lines_list_authors_and_attachment_names() {
    let mut bot = message("2", "pong");
    bot.author.bot = true;
    assert_eq!(
        format_messages(&[message("1", "ping"), bot]),
        "[2024-01-01T00:00:00Z] alice: ping\n[2024-01-01T00:00:00Z] alice (bot): pong"
    );
}

#[test]
fn edit_outcome_treats_only_404_as_deleted() {
    assert_eq!(edit_outcome(&Ok(())), EditOutcome::Done);
    let mut gone = AppError::new(ErrorKind::Api, "Unknown Message");
    gone.http_status = Some(404);
    assert_eq!(edit_outcome(&Err(gone)), EditOutcome::MessageDeleted);
    let mut limited = AppError::new(ErrorKind::RateLimit, "slow down");
    limited.http_status = Some(429);
    assert_eq!(edit_outcome(&Err(limited)), EditOutcome::Failed);
    assert_eq!(edit_outcome(&Err(AppError::new(ErrorKind::Network, "reset"))), EditOutcome::Failed);
}

#[test]
fn an_ask_whose_edits_keep_failing_is_edited_three_times_in_all() {
    let mut queue = ExpireRetryQueue::new();
    let mut edits_of_ask = 0;
    for tick in 0..6 {
        let expired = if tick == 0 { vec![ask(true)] } else { Vec::new() };
        let targets = edit_targets(&expired, &mut queue);
        edits_of_ask += targets.iter().filter(|t| t.ask_id == "557").count();
        let outcomes = vec![EditOutcome::Failed; targets.len()];
        requeue_failed_edits(targets, &outcomes, &mut queue);
    }
    assert_eq!(edits_of_ask, 3);
    assert!(queue.pending.is_empty());
}

#[test]
fn send_answer_reports_the_created_message() {
    let sent = SentMessage {
        id: "1234".into(),
        channel_id: "999".into(),
        timestamp: "2024-01-01T00:00:00Z".into(),
        attachments: vec![Attachment {
            id: "a1".into(),
            filename: "notes.txt".into(),
            size: 5,
            url: "https://cdn/notes.txt".into(),
            content_type: Some("text/plain".into()),
        }],
    };
    let payload = send_payload(sent.clone());
    match payload {
        Payload::Send(data) => {
            assert_eq!(data.message_id, "1234");
            assert_eq!(data.channel_id, "999");
            assert_eq!(data.timestamp, sent.timestamp);
            assert_eq!(data.attachments, sent.attachments);
        }
        other => panic!("unexpected payload {other:?}"),
    }
}
