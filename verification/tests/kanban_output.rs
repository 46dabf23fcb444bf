use areum_tools::kanban::error::{AppError, ErrorKind};
use areum_tools::kanban::output::{
    human_text, route, ClaimedItemData, DoneData, InitData, ItemSummaryData, ListData, MoveData, NextData, Payload,
    ProjectRmData, ReleaseData, Sink,
};

/// What rendering a result in human mode prints, where, and with which
/// exit code.
fn render_human(result: &Result<Payload, AppError>) -> (Sink, String, i32) {
    let (sink, code) = route(result, false);
    (sink, human_text(result), code)
}

fn sample_summary() -> ItemSummaryData {
    ItemSummaryData {
        id: "itm-000017".into(),
        source: "discord".into(),
        external_id: "msg-1".into(),
        title: "cache keeps drifting".into(),
        state: "backlog".into(),
        project: Some("belt".into()),
        priority: "P1".into(),
        session_id: None,
        agent: None,
        claimed_at: None,
        created_at: "2024-01-01T00:00:00Z".into(),
        updated_at: "2024-01-02T00:00:00Z".into(),
        labels: vec![],
    }
}

#[test]
fn human_init_reports_created_and_existing_boards_differently() {
    let fresh = Payload::Init(InitData { path: "/home/user/.areum/kanban/kanban.db".into(), created: true });
    let (sink, text, code) = render_human(&Ok(fresh));
    assert_eq!(sink, Sink::Stdout);
    assert_eq!(code, 0);
    assert_eq!(text, "board initialized: /home/user/.areum/kanban/kanban.db");

    let existing = Payload::Init(InitData { path: "/home/user/.areum/kanban/kanban.db".into(), created: false });
    let (_, text, _) = render_human(&Ok(existing));
    assert_eq!(text, "board already initialized: /home/user/.areum/kanban/kanban.db");
}

#[test]
fn human_next_empty_backlog_is_not_an_error() {
    let payload = Payload::Next(NextData::empty());
    let (sink, text, code) = render_human(&Ok(payload));
    assert_eq!(sink, Sink::Stdout);
    assert_eq!(code, 0);
    assert_eq!(text, "no backlog item to claim");
}

#[test]
fn human_next_claim_names_the_holder() {
    let payload = Payload::Next(NextData::Claimed(ClaimedItemData {
        id: "itm-000017".into(),
        title: "fix the build".into(),
        body: "steps".into(),
        project: "belt".into(),
        priority: "P1".into(),
        state: "running".into(),
        session_id: "sess-abc".into(),
        agent: "agent-7".into(),
        claimed_at: "2024-01-02T00:00:00Z".into(),
    }));
    let (_, text, _) = render_human(&Ok(payload));
    assert_eq!(text, "claimed itm-000017 [P1] in belt as agent-7/sess-abc: fix the build");
}

#[test]
fn human_done_without_a_session_reads_as_no_session() {
    let payload = Payload::Done(DoneData {
        id: "itm-000017".into(),
        state: "done".into(),
        project: "belt".into(),
        session_id: None,
        agent: None,
        updated_at: "2024-01-03T00:00:00Z".into(),
    });
    let (_, text, _) = render_human(&Ok(payload));
    assert_eq!(text, "itm-000017 done in belt (no session)");
}

#[test]
fn human_release_reports_the_dropped_claim_and_reason() {
    let payload = Payload::Release(ReleaseData {
        id: "itm-000017".into(),
        state: "backlog".into(),
        project: "belt".into(),
        reason: "build failed".into(),
        released_session_id: Some("sess-abc".into()),
        released_agent: Some("agent-7".into()),
        updated_at: "2024-01-03T00:00:00Z".into(),
    });
    let (_, text, _) = render_human(&Ok(payload));
    assert_eq!(text, "itm-000017 released to backlog in belt (agent-7/sess-abc): build failed");
}

#[test]
fn human_list_renders_one_line_per_item_with_a_count_header() {
    let payload = Payload::List(ListData { count: 1, items: vec![sample_summary()] });
    let (_, text, code) = render_human(&Ok(payload));
    assert_eq!(code, 0);
    assert_eq!(text, "1 item(s)\nitm-000017  [backlog/P1]  belt  cache keeps drifting");
}

#[test]
fn human_list_shows_a_dash_for_an_unassigned_project() {
    let mut item = sample_summary();
    item.state = "inbox".into();
    item.project = None;
    let payload = Payload::List(ListData { count: 1, items: vec![item] });
    let (_, text, _) = render_human(&Ok(payload));
    assert_eq!(text, "1 item(s)\nitm-000017  [inbox/P1]  -  cache keeps drifting");
}

#[test]
fn human_success_output_never_contains_the_json_envelope_marker() {
    let payloads = [
        Payload::Init(InitData { path: "/db".into(), created: true }),
        Payload::ProjectRm(ProjectRmData { name: "belt".into() }),
        Payload::Next(NextData::empty()),
        Payload::Move(MoveData {
            id: "itm-000017".into(),
            from_state: "running".into(),
            to_state: "done".into(),
            project: Some("belt".into()),
            updated_at: "2024-01-03T00:00:00Z".into(),
        }),
    ];
    for payload in payloads {
        let (sink, text, code) = render_human(&Ok(payload));
        assert_eq!(sink, Sink::Stdout);
        assert_eq!(code, 0);
        assert!(!text.contains(r#"{"ok"#), "human output leaked json envelope: {text}");
    }
}
