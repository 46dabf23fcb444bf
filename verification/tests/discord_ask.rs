use areum_tools::discord::ask::{
    ask_buttons, ask_create_answer, ask_create_step, AskCreateAction, AskCreateEvent, AskCreateRequest, PendingAsk, ask_poll_budget, ask_wait_step, no_such_ask, require_daemon, AskRecord,
    AskResultData, AskStatus, AskWaitStep, ButtonStyle,
};
use areum_tools::discord::api::CreatedThread;
use areum_tools::discord::commands::{thread_answer, thread_request};
use areum_tools::discord::daemon::{check_not_running, live_pid, status_answer, stop_target};
use areum_tools::discord::error::{AppError, ErrorKind};
use areum_tools::discord::output::Payload;

fn when_answered(answered: bool, value: &str) -> Option<String> {
    if answered {
        Some(value.to_owned())
    } else {
        None
    }
}

fn record(status: AskStatus) -> AskRecord {
    let answered = status == AskStatus::Answered;
    AskRecord {
        ask_id: "557".into(),
        channel_id: "chan-1".into(),
        question: "proceed?".into(),
        options: vec!["yes".into(), "no".into()],
        allow_text: true,
        status,
        kind: when_answered(answered, "choice"),
        value: when_answered(answered, "yes"),
        answered_by: when_answered(answered, "u1"),
        created_at: "2024-01-01T00:00:00Z".into(),
        timeout_at: "2024-01-01T00:01:00Z".into(),
        answered_at: when_answered(answered, "2024-01-01T00:00:30Z"),
    }
}

#[test]
fn ask_buttons_carry_the_custom_id_convention() {
    let options = vec!["yes".to_owned(), "no".to_owned()];
    let buttons = ask_buttons("557", &options, true);
    assert_eq!(buttons.len(), 3);
    assert_eq!(buttons[0].custom_id, "ask:557:opt:0");
    assert_eq!(buttons[0].label, "yes");
    assert_eq!(buttons[0].style, ButtonStyle::Primary);
    assert_eq!(buttons[1].custom_id, "ask:557:opt:1");
    assert_eq!(buttons[2].custom_id, "ask:557:text");
    assert_eq!(buttons[2].label, "✏️ 직접 입력");
    assert_eq!(buttons[2].style, ButtonStyle::Secondary);
    assert_eq!(ask_buttons("557", &options, false).len(), 2);
}

#[test]
fn ask_create_needs_the_daemon_and_reports_a_pending_ask() {
    let err = require_daemon(false).unwrap_err();
    assert_eq!(err.kind, ErrorKind::Usage);
    assert_eq!(err.message, "daemon not running — run 'discord daemon start'");
    assert!(require_daemon(true).is_ok());
    let data = ask_create_answer("557".into(), "chan-1".into());
    assert_eq!((data.ask_id.as_str(), data.status.as_str(), data.channel_id.as_str()), ("557", "pending", "chan-1"));
    assert_eq!(no_such_ask("9").message, "no such ask: 9");
}

#[test]
fn ask_wait_polls_until_the_ask_leaves_pending_or_the_budget_ends() {
    assert_eq!(ask_poll_budget(10, 3).unwrap(), 4);
    assert_eq!(ask_poll_budget(0, 5).unwrap(), 1);
    assert_eq!(ask_poll_budget(10, 0).unwrap_err().kind, ErrorKind::Usage);

    let pending = record(AskStatus::Pending);
    assert_eq!(ask_wait_step(&pending, 0, 3), AskWaitStep::SleepThenPoll);
    assert_eq!(ask_wait_step(&pending, 2, 3), AskWaitStep::PollAgain);
    match ask_wait_step(&pending, 3, 3) {
        AskWaitStep::Finished(d) => {
            assert!(d.timed_out);
            assert_eq!(d.result, AskResultData::Pending { ask_id: "557".into() });
        }
        other => panic!("unexpected step {other:?}"),
    }
    match ask_wait_step(&record(AskStatus::Answered), 0, 3) {
        AskWaitStep::Finished(d) => {
            assert!(!d.timed_out);
            assert_eq!(
                d.result,
                AskResultData::Answered {
                    ask_id: "557".into(),
                    kind: "choice".into(),
                    value: "yes".into(),
                    answered_by: "u1".into(),
                    answered_at: "2024-01-01T00:00:30Z".into(),
                }
            );
        }
        other => panic!("unexpected step {other:?}"),
    }
}

#[test]
fn daemon_lifecycle_follows_the_live_pid() {
    assert_eq!(live_pid(Some(42), true), Some(42));
    assert_eq!(live_pid(Some(42), false), None);
    assert_eq!(check_not_running(Some(42)).unwrap_err().message, "daemon is already running (pid 42)");
    assert!(check_not_running(None).is_ok());
    assert_eq!(stop_target(Some(42)).unwrap(), 42);
    assert_eq!(stop_target(None).unwrap_err().message, "daemon is not running");
    match status_answer(Some(42), 3) {
        Payload::DaemonStatus(d) => {
            assert!(d.running);
            assert_eq!(d.pid, Some(42));
            assert_eq!(d.pending, 3);
        }
        other => panic!("unexpected payload {other:?}"),
    }
}

#[test]
fn thread_creation_reports_what_discord_returned() {
    let req = thread_request("chan1", "discussion", Some("42"));
    assert_eq!(req.from_message_id.as_deref(), Some("42"));
    assert_eq!(thread_request("chan1", "discussion", None).from_message_id, None);
    match thread_answer(CreatedThread { id: "111".into(), name: "discussion".into() }) {
        Payload::Thread(d) => {
            assert_eq!(d.thread_id, "111");
            assert_eq!(d.name, "discussion");
        }
        other => panic!("unexpected payload {other:?}"),
    }
}

fn ask_request(options: Vec<&str>) -> AskCreateRequest {
    AskCreateRequest {
        channel_id: "chan-1".into(),
        question: "proceed?".into(),
        options: options.into_iter().map(String::from).collect(),
        allow_text: false,
        timeout_secs: 60,
    }
}

#[test]
fn ask_create_sends_attaches_then_stores() {
    let req = ask_request(vec!["yes", "no"]);
    match ask_create_step(&req, AskCreateEvent::Start { daemon_running: true }) {
        AskCreateAction::SendQuestion(q) => {
            assert_eq!(q.channel_id, "chan-1");
            assert_eq!(q.content, "proceed?");
            assert_eq!(q.reply_to, None);
            assert!(q.files.is_empty());
        }
        other => panic!("unexpected action {other:?}"),
    }
    let sent = AskCreateEvent::QuestionSent { message_id: "557".into(), channel_id: "chan-1".into() };
    match ask_create_step(&req, sent) {
        AskCreateAction::AttachButtons { channel_id, message_id, buttons } => {
            assert_eq!((channel_id.as_str(), message_id.as_str()), ("chan-1", "557"));
            assert_eq!(buttons.len(), 2);
            assert_eq!(buttons[1].custom_id, "ask:557:opt:1");
        }
        other => panic!("unexpected action {other:?}"),
    }
    let attached = AskCreateEvent::ButtonsAttached { message_id: "557".into(), channel_id: "chan-1".into() };
    assert_eq!(
        ask_create_step(&req, attached),
        AskCreateAction::Store(PendingAsk {
            ask_id: "557".into(),
            channel_id: "chan-1".into(),
            question: "proceed?".into(),
            options: vec!["yes".into(), "no".into()],
            allow_text: false,
            timeout_secs: 60,
        })
    );
    match ask_create_step(&req, AskCreateEvent::Stored { message_id: "557".into(), channel_id: "chan-1".into() }) {
        AskCreateAction::Finish(Ok(d)) => {
            assert_eq!((d.ask_id.as_str(), d.status.as_str(), d.channel_id.as_str()), ("557", "pending", "chan-1"));
        }
        other => panic!("unexpected action {other:?}"),
    }
}

#[test]
fn ask_create_refuses_without_daemon_or_with_bad_input() {
    let req = ask_request(vec!["yes"]);
    match ask_create_step(&req, AskCreateEvent::Start { daemon_running: false }) {
        AskCreateAction::Finish(Err(e)) => assert_eq!(e.message, "daemon not running — run 'discord daemon start'"),
        other => panic!("unexpected action {other:?}"),
    }
    let too_many = ask_request(vec!["a", "b", "c", "d", "e"]);
    match ask_create_step(&too_many, AskCreateEvent::Start { daemon_running: true }) {
        AskCreateAction::Finish(Err(e)) => {
            assert_eq!(e.kind, ErrorKind::Usage);
            assert_eq!(e.message, "--option must be given 1..=4 times (got 5)");
        }
        other => panic!("unexpected action {other:?}"),
    }
}

#[test]
fn ask_create_marks_an_orphaned_question_and_keeps_the_attach_error() {
    let req = ask_request(vec!["yes"]);
    let error = AppError::new(ErrorKind::Api, "edit failed");
    let failed = AskCreateEvent::ButtonsFailed { message_id: "557".into(), channel_id: "chan-1".into(), error: error.clone() };
    match ask_create_step(&req, failed) {
        AskCreateAction::MarkOrphaned { marker, error: kept } => {
            assert_eq!(marker.channel_id, "chan-1");
            assert_eq!(marker.reply_to.as_deref(), Some("557"));
            assert_eq!(marker.content, "⚠️ 질문 등록 실패 — 버튼을 연결하지 못했습니다.");
            assert_eq!(kept, error);
        }
        other => panic!("unexpected action {other:?}"),
    }
    assert_eq!(ask_create_step(&req, AskCreateEvent::OrphanMarked(error.clone())), AskCreateAction::Finish(Err(error.clone())));
    assert_eq!(ask_create_step(&req, AskCreateEvent::QuestionFailed(error.clone())), AskCreateAction::Finish(Err(error.clone())));
    assert_eq!(ask_create_step(&req, AskCreateEvent::StoreFailed(error.clone())), AskCreateAction::Finish(Err(error)));
}
