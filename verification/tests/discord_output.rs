use areum_tools::discord::api::{Attachment, Author, Message};
use areum_tools::discord::error::{AppError, ErrorKind};
use areum_tools::discord::output::{
    human_text, route, InitData, Payload, ReadData, SendData, Sink, ThreadData, WaitData,
};

/// What rendering a result prints in human mode, where, and with which exit
/// code.
fn render_human(result: &Result<Payload, AppError>) -> (Sink, String, i32) {
    let (sink, code) = route(result, false);
    (sink, human_text(result), code)
}

fn sample_message() -> Message {
    Message {
        id: "10".into(),
        channel_id: "chan".into(),
        author: Author { id: "u1".into(), username: "alice".into(), bot: false },
        content: "hi".into(),
        timestamp: "2024-01-01T00:00:00Z".into(),
        attachments: vec![],
    }
}

fn sample_attachment() -> Attachment {
    Attachment {
        id: "a1".into(),
        filename: "photo.png".into(),
        size: 1024,
        url: "https://cdn.discordapp.com/attachments/1/a1/photo.png".into(),
        content_type: Some("image/png".into()),
    }
}

#[test]
fn output_human_init_success_renders_readable_text_without_token() {
    let payload = Payload::Init(InitData { path: "/home/user/.areum/discord/config.json".into(), created: true });
    let (sink, text, code) = render_human(&Ok(payload));
    assert_eq!(sink, Sink::Stdout);
    assert_eq!(code, 0);
    assert_eq!(text, "config written: /home/user/.areum/discord/config.json");
}

#[test]
fn payload_human_init_success_renders_readable_text_without_token() {
    let payload = Payload::Init(InitData { path: "/home/user/.areum/discord/config.json".into(), created: true });
    let (sink, text, code) = render_human(&Ok(payload));
    assert_eq!(sink, Sink::Stdout);
    assert_eq!(code, 0);
    assert_eq!(text, "config written: /home/user/.areum/discord/config.json");
}

#[test]
fn output_human_send_success_renders_readable_text() {
    let payload = Payload::Send(SendData {
        message_id: "123".into(),
        channel_id: "456".into(),
        timestamp: "2024-01-01T00:00:00Z".into(),
        attachments: vec![],
    });
    let (sink, text, code) = render_human(&Ok(payload));
    assert_eq!(sink, Sink::Stdout);
    assert_eq!(code, 0);
    assert_eq!(text, "sent message 123 to channel 456 at 2024-01-01T00:00:00Z");
}

#[test]
fn payload_human_send_success_renders_readable_text() {
    let payload = Payload::Send(SendData {
        message_id: "123".into(),
        channel_id: "456".into(),
        timestamp: "2024-01-01T00:00:00Z".into(),
        attachments: vec![],
    });
    let (sink, text, code) = render_human(&Ok(payload));
    assert_eq!(sink, Sink::Stdout);
    assert_eq!(code, 0);
    assert_eq!(text, "sent message 123 to channel 456 at 2024-01-01T00:00:00Z");
}

#[test]
fn output_human_send_success_with_attachments_lists_filenames_not_urls() {
    let payload = Payload::Send(SendData {
        message_id: "123".into(),
        channel_id: "456".into(),
        timestamp: "2024-01-01T00:00:00Z".into(),
        attachments: vec![
            sample_attachment(),
            Attachment {
                id: "a2".into(),
                filename: "notes.txt".into(),
                size: 42,
                url: "https://cdn.discordapp.com/attachments/1/a2/notes.txt".into(),
                content_type: None,
            },
        ],
    });
    let (_, text, code) = render_human(&Ok(payload));
    assert_eq!(code, 0);
    assert_eq!(text, "sent message 123 to channel 456 at 2024-01-01T00:00:00Z\nattachments: photo.png, notes.txt");
    assert!(!text.contains("cdn.discordapp.com"));
}

#[test]
fn payload_human_send_success_with_attachments_lists_filenames_not_urls() {
    let payload = Payload::Send(SendData {
        message_id: "123".into(),
        channel_id: "456".into(),
        timestamp: "2024-01-01T00:00:00Z".into(),
        attachments: vec![
            sample_attachment(),
            Attachment {
                id: "a2".into(),
                filename: "notes.txt".into(),
                size: 42,
                url: "https://cdn.discordapp.com/attachments/1/a2/notes.txt".into(),
                content_type: None,
            },
        ],
    });
    let (_, text, code) = render_human(&Ok(payload));
    assert_eq!(code, 0);
    assert_eq!(text, "sent message 123 to channel 456 at 2024-01-01T00:00:00Z\nattachments: photo.png, notes.txt");
    assert!(!text.contains("cdn.discordapp.com"));
}

#[test]
fn output_human_read_success_renders_readable_text() {
    let payload = Payload::Read(ReadData {
        channel_id: "c".into(),
        count: 1,
        cursor: Some("10".into()),
        messages: vec![sample_message()],
    });
    let (_, text, code) = render_human(&Ok(payload));
    assert_eq!(code, 0);
    assert_eq!(text, "channel c: 1 message(s) (next --after 10)\n[2024-01-01T00:00:00Z] alice: hi");
}

#[test]
fn payload_human_read_success_renders_readable_text() {
    let payload = Payload::Read(ReadData {
        channel_id: "c".into(),
        count: 1,
        cursor: Some("10".into()),
        messages: vec![sample_message()],
    });
    let (_, text, code) = render_human(&Ok(payload));
    assert_eq!(code, 0);
    assert_eq!(text, "channel c: 1 message(s) (next --after 10)\n[2024-01-01T00:00:00Z] alice: hi");
}

#[test]
fn output_human_wait_new_messages_renders_readable_text() {
    let payload = Payload::Wait(WaitData {
        channel_id: "c".into(),
        count: 1,
        cursor: None,
        timed_out: false,
        messages: vec![sample_message()],
    });
    let (_, text, code) = render_human(&Ok(payload));
    assert_eq!(code, 0);
    assert_eq!(text, "channel c: 1 new message(s)\n[2024-01-01T00:00:00Z] alice: hi");
}

#[test]
fn payload_human_wait_new_messages_renders_readable_text() {
    let payload = Payload::Wait(WaitData {
        channel_id: "c".into(),
        count: 1,
        cursor: None,
        timed_out: false,
        messages: vec![sample_message()],
    });
    let (_, text, code) = render_human(&Ok(payload));
    assert_eq!(code, 0);
    assert_eq!(text, "channel c: 1 new message(s)\n[2024-01-01T00:00:00Z] alice: hi");
}

#[test]
fn output_human_read_success_with_attachment_lists_filename_not_url() {
    let mut message = sample_message();
    message.attachments = vec![sample_attachment()];
    let payload = Payload::Read(ReadData {
        channel_id: "c".into(),
        count: 1,
        cursor: Some("10".into()),
        messages: vec![message],
    });
    let (_, text, code) = render_human(&Ok(payload));
    assert_eq!(code, 0);
    assert_eq!(
        text,
        "channel c: 1 message(s) (next --after 10)\n[2024-01-01T00:00:00Z] alice: hi\nattachments: photo.png"
    );
    assert!(!text.contains("cdn.discordapp.com"));
}

#[test]
fn payload_human_read_success_with_attachment_lists_filename_not_url() {
    let mut message = sample_message();
    message.attachments = vec![sample_attachment()];
    let payload = Payload::Read(ReadData {
        channel_id: "c".into(),
        count: 1,
        cursor: Some("10".into()),
        messages: vec![message],
    });
    let (_, text, code) = render_human(&Ok(payload));
    assert_eq!(code, 0);
    assert_eq!(
        text,
        "channel c: 1 message(s) (next --after 10)\n[2024-01-01T00:00:00Z] alice: hi\nattachments: photo.png"
    );
    assert!(!text.contains("cdn.discordapp.com"));
}

#[test]
fn output_human_read_success_without_attachments_is_unchanged() {
    let payload = Payload::Read(ReadData {
        channel_id: "c".into(),
        count: 1,
        cursor: Some("10".into()),
        messages: vec![sample_message()],
    });
    let (_, text, _) = render_human(&Ok(payload));
    assert_eq!(text, "channel c: 1 message(s) (next --after 10)\n[2024-01-01T00:00:00Z] alice: hi");
}

#[test]
fn payload_human_read_success_without_attachments_is_unchanged() {
    let payload = Payload::Read(ReadData {
        channel_id: "c".into(),
        count: 1,
        cursor: Some("10".into()),
        messages: vec![sample_message()],
    });
    let (_, text, _) = render_human(&Ok(payload));
    assert_eq!(text, "channel c: 1 message(s) (next --after 10)\n[2024-01-01T00:00:00Z] alice: hi");
}

#[test]
fn output_human_wait_timeout_renders_readable_text() {
    let payload = Payload::Wait(WaitData {
        channel_id: "c".into(),
        count: 0,
        cursor: None,
        timed_out: true,
        messages: vec![],
    });
    let (sink, text, code) = render_human(&Ok(payload));
    assert_eq!(sink, Sink::Stdout);
    assert_eq!(code, 0);
    assert_eq!(text, "channel c: timed out, no new messages");
}

#[test]
fn payload_human_wait_timeout_renders_readable_text() {
    let payload = Payload::Wait(WaitData {
        channel_id: "c".into(),
        count: 0,
        cursor: None,
        timed_out: true,
        messages: vec![],
    });
    let (sink, text, code) = render_human(&Ok(payload));
    assert_eq!(sink, Sink::Stdout);
    assert_eq!(code, 0);
    assert_eq!(text, "channel c: timed out, no new messages");
}

#[test]
fn output_human_read_success_routes_to_stdout() {
    let payload = Payload::Read(ReadData {
        channel_id: "c".into(),
        count: 1,
        cursor: Some("10".into()),
        messages: vec![sample_message()],
    });
    let (sink, _, code) = render_human(&Ok(payload));
    assert_eq!(sink, Sink::Stdout);
    assert_eq!(code, 0);
}

#[test]
fn payload_human_read_success_routes_to_stdout() {
    let payload = Payload::Read(ReadData {
        channel_id: "c".into(),
        count: 1,
        cursor: Some("10".into()),
        messages: vec![sample_message()],
    });
    let (sink, _, code) = render_human(&Ok(payload));
    assert_eq!(sink, Sink::Stdout);
    assert_eq!(code, 0);
}

#[test]
fn output_human_wait_success_routes_to_stdout() {
    let payload = Payload::Wait(WaitData {
        channel_id: "c".into(),
        count: 1,
        cursor: None,
        timed_out: false,
        messages: vec![sample_message()],
    });
    let (sink, _, code) = render_human(&Ok(payload));
    assert_eq!(sink, Sink::Stdout);
    assert_eq!(code, 0);
}

#[test]
fn payload_human_wait_success_routes_to_stdout() {
    let payload = Payload::Wait(WaitData {
        channel_id: "c".into(),
        count: 1,
        cursor: None,
        timed_out: false,
        messages: vec![sample_message()],
    });
    let (sink, _, code) = render_human(&Ok(payload));
    assert_eq!(sink, Sink::Stdout);
    assert_eq!(code, 0);
}

#[test]
fn output_human_wait_success_with_attachment_lists_filename_not_url() {
    let mut message = sample_message();
    message.attachments = vec![sample_attachment()];
    let payload = Payload::Wait(WaitData {
        channel_id: "c".into(),
        count: 1,
        cursor: Some("20".into()),
        timed_out: false,
        messages: vec![message],
    });
    let (_, text, code) = render_human(&Ok(payload));
    assert_eq!(code, 0);
    assert_eq!(
        text,
        "channel c: 1 new message(s) (next --after 20)\n[2024-01-01T00:00:00Z] alice: hi\nattachments: photo.png"
    );
    assert!(!text.contains("cdn.discordapp.com"));
}

#[test]
fn payload_human_wait_success_with_attachment_lists_filename_not_url() {
    let mut message = sample_message();
    message.attachments = vec![sample_attachment()];
    let payload = Payload::Wait(WaitData {
        channel_id: "c".into(),
        count: 1,
        cursor: Some("20".into()),
        timed_out: false,
        messages: vec![message],
    });
    let (_, text, code) = render_human(&Ok(payload));
    assert_eq!(code, 0);
    assert_eq!(
        text,
        "channel c: 1 new message(s) (next --after 20)\n[2024-01-01T00:00:00Z] alice: hi\nattachments: photo.png"
    );
    assert!(!text.contains("cdn.discordapp.com"));
}

#[test]
fn human_thread_success_renders_readable_text() {
    let payload = Payload::Thread(ThreadData { thread_id: "111".into(), name: "discussion".into() });
    let (sink, text, code) = render_human(&Ok(payload));
    assert_eq!(sink, Sink::Stdout);
    assert_eq!(code, 0);
    assert_eq!(text, "created thread 111 \"discussion\"");
}

#[test]
fn output_human_error_reports_kind_and_status() {
    let err = AppError {
        kind: ErrorKind::Auth,
        message: "invalid token".into(),
        http_status: Some(401),
        retry_after_ms: None,
    };
    let (sink, text, code) = render_human(&Err(err));
    assert_eq!(sink, Sink::Stderr);
    assert_eq!(code, 3);
    assert_eq!(text, "error [auth]: invalid token (http 401)");
}

#[test]
fn mod_human_error_reports_kind_and_status() {
    let err = AppError {
        kind: ErrorKind::Auth,
        message: "invalid token".into(),
        http_status: Some(401),
        retry_after_ms: None,
    };
    let (sink, text, code) = render_human(&Err(err));
    assert_eq!(sink, Sink::Stderr);
    assert_eq!(code, 3);
    assert_eq!(text, "error [auth]: invalid token (http 401)");
}

#[test]
fn output_human_success_output_never_contains_json_envelope_marker() {
    let send = Payload::Send(SendData {
        message_id: "1".into(),
        channel_id: "c".into(),
        timestamp: "2024-01-01T00:00:00Z".into(),
        attachments: vec![],
    });
    let read = Payload::Read(ReadData {
        channel_id: "c".into(),
        count: 1,
        cursor: Some("10".into()),
        messages: vec![sample_message()],
    });
    let wait = Payload::Wait(WaitData { channel_id: "c".into(), count: 0, cursor: None, timed_out: true, messages: vec![] });
    let init = Payload::Init(InitData { path: "/home/user/.areum/discord/config.json".into(), created: true });
    for payload in [send, read, wait, init] {
        let (sink, text, code) = render_human(&Ok(payload));
        assert_eq!(sink, Sink::Stdout);
        assert_eq!(code, 0);
        assert!(!text.contains(r#"{"ok"#), "human output leaked json envelope: {text}");
    }
}

#[test]
fn mod_human_success_output_never_contains_json_envelope_marker() {
    let send = Payload::Send(SendData {
        message_id: "1".into(),
        channel_id: "c".into(),
        timestamp: "2024-01-01T00:00:00Z".into(),
        attachments: vec![],
    });
    let read = Payload::Read(ReadData {
        channel_id: "c".into(),
        count: 1,
        cursor: Some("10".into()),
        messages: vec![sample_message()],
    });
    let wait = Payload::Wait(WaitData { channel_id: "c".into(), count: 0, cursor: None, timed_out: true, messages: vec![] });
    let init = Payload::Init(InitData { path: "/home/user/.areum/discord/config.json".into(), created: true });
    for payload in [send, read, wait, init] {
        let (sink, text, code) = render_human(&Ok(payload));
        assert_eq!(sink, Sink::Stdout);
        assert_eq!(code, 0);
        assert!(!text.contains(r#"{"ok"#), "human output leaked json envelope: {text}");
    }
}

#[test]
fn output_json_read_success_routes_to_stdout_with_exit_zero() {
    let payload = Payload::Read(ReadData {
        channel_id: "c".into(),
        count: 1,
        cursor: Some("10".into()),
        messages: vec![sample_message()],
    });
    let (sink, code) = route(&Ok(payload), true);
    assert_eq!(sink, Sink::Stdout);
    assert_eq!(code, 0);
}

#[test]
fn mod_json_read_success_routes_to_stdout_with_exit_zero() {
    let payload = Payload::Read(ReadData {
        channel_id: "c".into(),
        count: 1,
        cursor: Some("10".into()),
        messages: vec![sample_message()],
    });
    let (sink, code) = route(&Ok(payload), true);
    assert_eq!(sink, Sink::Stdout);
    assert_eq!(code, 0);
}

#[test]
fn output_json_wait_success_with_attachments_routes_to_stdout_with_exit_zero() {
    let mut message = sample_message();
    message.attachments = vec![sample_attachment()];
    let payload = Payload::Wait(WaitData {
        channel_id: "c".into(),
        count: 1,
        cursor: Some("20".into()),
        timed_out: false,
        messages: vec![message],
    });
    let (sink, code) = route(&Ok(payload), true);
    assert_eq!(sink, Sink::Stdout);
    assert_eq!(code, 0);
}

#[test]
fn mod_json_wait_success_with_attachments_routes_to_stdout_with_exit_zero() {
    let mut message = sample_message();
    message.attachments = vec![sample_attachment()];
    let payload = Payload::Wait(WaitData {
        channel_id: "c".into(),
        count: 1,
        cursor: Some("20".into()),
        timed_out: false,
        messages: vec![message],
    });
    let (sink, code) = route(&Ok(payload), true);
    assert_eq!(sink, Sink::Stdout);
    assert_eq!(code, 0);
}

#[test]
fn output_human_mode_error_routes_to_stderr_not_stdout() {
    let err = AppError::new(ErrorKind::Api, "channel not found");
    let (sink, _, _) = render_human(&Err(err));
    assert_eq!(sink, Sink::Stderr);
}

#[test]
fn output_json_mode_error_still_routes_to_stdout() {
    let err = AppError::new(ErrorKind::Api, "channel not found");
    let (sink, _) = route(&Err(err), true);
    assert_eq!(sink, Sink::Stdout);
}

#[test]
fn output_exit_code_matches_across_json_and_human_modes_for_every_kind() {
    let kinds = [
        ErrorKind::Usage,
        ErrorKind::Config,
        ErrorKind::Auth,
        ErrorKind::Api,
        ErrorKind::RateLimit,
        ErrorKind::Network,
        ErrorKind::Internal,
    ];
    for kind in kinds {
        let err = AppError::new(kind, "boom");
        let (_, json_code) = route(&Err(err.clone()), true);
        let (_, human_code) = route(&Err(err), false);
        assert_eq!(json_code, human_code, "exit code diverged between modes for {kind:?}");
    }
}
