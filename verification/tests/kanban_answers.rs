use areum_tools::kanban::board::{assign, claim_next, new_item, NewItem, ProjectRecord};
use areum_tools::kanban::cli::Priority;
use areum_tools::kanban::commands::{claimed_item, listing, project_added, project_removed, shown, summary_of};
use areum_tools::kanban::output::{human_text, LabelData, Payload};

fn claimed() -> areum_tools::kanban::board::ItemRecord {
    let item = new_item(
        "itm-000017".into(),
        &NewItem { source: "discord", external_id: "msg-1", title: "fix the build", body: "steps" },
        "2024-01-01T00:00:00Z",
    );
    let backlog = assign(item, "belt", true, Some(Priority::P1), "2024-01-01T00:00:01Z").unwrap().after;
    claim_next(&vec![backlog], "belt", "sess-abc", "agent-7", "2024-01-02T00:00:00Z").unwrap()
}

fn label(key: &str, value: &str, confidence: Option<f64>) -> LabelData {
    LabelData { key: key.into(), value: value.into(), confidence_bits: confidence.map(f64::to_bits) }
}

#[test]
fn show_renders_the_claim_labels_and_body() {
    let payload = shown(claimed(), vec![label("kind", "bug", Some(0.9)), label("area", "ci", None)]);
    assert_eq!(
        human_text(&Ok(payload)),
        "itm-000017  [running/P1]  belt\ntitle: fix the build\nsource: discord/msg-1\n\
         created: 2024-01-01T00:00:00Z  updated: 2024-01-02T00:00:00Z\nclaim: agent-7/sess-abc\n\
         labels: kind=bug, area=ci\n\nsteps"
    );
}

#[test]
fn list_lines_show_labels_under_the_item() {
    let summary = summary_of(claimed(), vec![label("duplicate-of", "itm-000003", Some(0.8))]);
    assert_eq!(summary.state, "running");
    assert_eq!(summary.priority, "P1");
    let payload = listing(vec![summary]);
    assert_eq!(
        human_text(&Ok(payload)),
        "1 item(s)\nitm-000017  [running/P1]  belt  fix the build\n  labels: duplicate-of=itm-000003"
    );
}

#[test]
fn a_claim_answer_carries_the_holder() {
    let data = claimed_item(claimed());
    assert_eq!(data.state, "running");
    assert_eq!(data.project, "belt");
    assert_eq!(data.session_id, "sess-abc");
    assert_eq!(data.agent, "agent-7");
    assert_eq!(data.claimed_at, "2024-01-02T00:00:00Z");
}

#[test]
fn project_answers_echo_the_project() {
    let added = project_added(ProjectRecord {
        name: "belt".into(),
        description: "conveyor".into(),
        created_at: "2024-01-01T00:00:00Z".into(),
    });
    assert_eq!(human_text(&Ok(added)), "added project belt: conveyor");
    assert_eq!(human_text(&Ok(project_removed("belt"))), "removed project belt");
    match project_removed("belt") {
        Payload::ProjectRm(d) => assert_eq!(d.name, "belt"),
        other => panic!("unexpected payload {other:?}"),
    }
}
