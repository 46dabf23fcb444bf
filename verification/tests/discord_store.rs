use areum_tools::discord::ask::{AskRecord, AskStatus};
use areum_tools::discord::interactions::{edit_targets, ExpireRetryQueue};
use areum_tools::discord::store::{expire_due, try_answer, try_timeout};

fn pending(ask_id: &str, timeout_at: &str) -> AskRecord {
    AskRecord {
        ask_id: ask_id.into(),
        channel_id: "chan-1".into(),
        question: "proceed?".into(),
        options: vec!["yes".into(), "no".into()],
        allow_text: true,
        status: AskStatus::Pending,
        kind: None,
        value: None,
        answered_by: None,
        created_at: "2024-01-01T00:00:00Z".into(),
        timeout_at: timeout_at.into(),
        answered_at: None,
    }
}

#[test]
fn the_first_answer_wins_and_later_ones_lose() {
    let mut ask = pending("557", "2024-01-01T00:01:00Z");
    assert!(try_answer(&mut ask, "choice", "yes", "u1", "2024-01-01T00:00:10Z"));
    assert_eq!(ask.status, AskStatus::Answered);
    assert_eq!(ask.value.as_deref(), Some("yes"));
    assert_eq!(ask.answered_by.as_deref(), Some("u1"));
    let before = ask.clone();
    assert!(!try_answer(&mut ask, "text", "no way", "u2", "2024-01-01T00:00:20Z"));
    assert!(!try_timeout(&mut ask));
    assert_eq!(ask, before);
}

#[test]
fn the_sweep_times_out_due_asks_only_and_they_stay_timed_out() {
    let mut answered = pending("3", "2024-01-01T00:00:30Z");
    assert!(try_answer(&mut answered, "choice", "no", "u1", "2024-01-01T00:00:05Z"));
    let mut records = vec![
        pending("1", "2024-01-01T00:01:00Z"),
        pending("2", "2024-01-01T00:02:00Z"),
        answered.clone(),
    ];
    let expired = expire_due(&mut records, "2024-01-01T00:01:00Z");
    assert_eq!(expired.len(), 1);
    assert_eq!(expired[0].ask_id, "1");
    assert_eq!(expired[0].status, AskStatus::TimedOut);
    assert_eq!(records[0].status, AskStatus::TimedOut);
    assert_eq!(records[1].status, AskStatus::Pending);
    assert_eq!(records[2], answered);

    let mut late = records[0].clone();
    assert!(!try_answer(&mut late, "choice", "yes", "u1", "2024-01-01T00:01:30Z"));
    assert_eq!(late.status, AskStatus::TimedOut);
    assert!(expire_due(&mut records, "2024-01-01T00:01:00Z").is_empty());

    let mut queue = ExpireRetryQueue::new();
    let targets = edit_targets(&expired, &mut queue);
    assert_eq!(targets.len(), 1);
    assert_eq!(targets[0].ask_id, "1");
}
