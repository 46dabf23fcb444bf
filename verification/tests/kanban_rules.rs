use std::path::PathBuf;

use areum_tools::kanban::board::{format_item_id, next_item_id, plan_move, MovePlan};
use areum_tools::kanban::cli::ItemState;
use areum_tools::kanban::config::resolve_db_path;
use areum_tools::kanban::error::ErrorKind;
use areum_tools::kanban::time::{format_epoch_secs, now_rfc3339};

#[test]
fn db_flag_wins_over_the_home_default() {
    let path = resolve_db_path(Some("/tmp/custom.db"), Some("/home/user")).unwrap();
    assert_eq!(path, PathBuf::from("/tmp/custom.db"));
}

#[test]
fn default_db_path_lives_under_the_areum_tool_directory() {
    let path = resolve_db_path(None, Some("/home/user")).unwrap();
    assert_eq!(path, PathBuf::from("/home/user/.areum/kanban/kanban.db"));
}

#[test]
fn missing_home_without_db_flag_is_a_config_error() {
    let err = resolve_db_path(None, None).unwrap_err();
    assert_eq!(err.kind, ErrorKind::Config);
    assert!(err.message.contains("--db"));
}

#[test]
fn missing_home_is_tolerated_when_db_is_given() {
    let path = resolve_db_path(Some("/tmp/custom.db"), None).unwrap();
    assert_eq!(path, PathBuf::from("/tmp/custom.db"));
}

#[test]
fn item_ids_are_zero_padded_and_sequential() {
    assert_eq!(format_item_id(17), "itm-000017");
    assert_eq!(format_item_id(1), "itm-000001");

    // An empty board mints the first id, and each intake the next one.
    assert_eq!(next_item_id(None), "itm-000001");
    assert_eq!(next_item_id(Some(1)), "itm-000002");
}

#[test]
fn plan_move_clears_exactly_what_the_target_state_forbids() {
    let cleared = plan_move(ItemState::Unmatched, Some("belt"), Some("sess")).unwrap();
    assert_eq!(cleared, MovePlan { clear_project: true, clear_claim: true });
    assert_eq!(
        plan_move(ItemState::Backlog, Some("belt"), Some("sess")).unwrap(),
        MovePlan { clear_project: false, clear_claim: true }
    );
    assert_eq!(
        plan_move(ItemState::Done, Some("belt"), Some("sess")).unwrap(),
        MovePlan { clear_project: false, clear_claim: false }
    );
    assert_eq!(
        plan_move(ItemState::Running, Some("belt"), Some("sess")).unwrap(),
        MovePlan { clear_project: false, clear_claim: false }
    );

    for (target, project, session) in [
        (ItemState::Backlog, None, None),
        (ItemState::Done, None, None),
        (ItemState::Running, None, None),
        (ItemState::Running, Some("belt"), None),
    ] {
        assert_eq!(
            plan_move(target, project, session).unwrap_err().kind,
            ErrorKind::Conflict,
            "{target:?} {project:?} {session:?}"
        );
    }
}

#[test]
fn epoch_is_unix_zero() {
    assert_eq!(format_epoch_secs(0), "1970-01-01T00:00:00Z");
}

#[test]
fn known_instant_formats_to_utc() {
    assert_eq!(format_epoch_secs(1_700_000_000), "2023-11-14T22:13:20Z");
}

#[test]
fn leap_day_is_handled() {
    assert_eq!(format_epoch_secs(1_709_164_800), "2024-02-29T00:00:00Z");
}

#[test]
fn canonical_strings_sort_in_time_order() {
    let earlier = format_epoch_secs(1_700_000_000);
    let later = format_epoch_secs(1_709_164_800);
    assert!(earlier < later, "{earlier} should sort before {later}");
}

#[test]
fn now_has_canonical_shape() {
    let now = now_rfc3339();
    assert_eq!(now.len(), 20, "expected fixed-width RFC3339 UTC: {now}");
    assert!(now.ends_with('Z'));
    assert_eq!(now.as_bytes()[10], b'T');
}
