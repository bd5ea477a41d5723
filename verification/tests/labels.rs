use stats::labels::{codex_limit_title, codex_plan_name, window_label, window_label_status, snapshot_choice, weekly_window_slot, SnapshotChoice, WindowSlot};
use stats::text::i64_to_string;

#[test]
fn names_codex_windows_by_length() {
    assert_eq!(window_label(Some(300)), "5h");
    assert_eq!(window_label(Some(10080)), "Weekly");
    assert_eq!(window_label(Some(120)), "2h");
    assert_eq!(window_label(Some(90)), "90m");
    assert_eq!(window_label(Some(-120)), "-2h");
    assert_eq!(window_label(None), "Limit");
    assert_eq!(window_label_status(Some(300)), "5h limit");
    assert_eq!(window_label_status(None), "Limit");
    assert_eq!(i64_to_string(i64::MIN), i64::MIN.to_string());
}

#[test]
fn names_codex_plans() {
    assert_eq!(codex_limit_title(Some("prolite"), Some("pro")), "Codex");
    assert_eq!(codex_limit_title(None, Some("plus")), "plus");
    assert_eq!(codex_limit_title(None, None), "Codex");
    assert_eq!(codex_plan_name(Some("prolite")), "Pro");
    assert_eq!(codex_plan_name(Some("team")), "team");
    assert_eq!(codex_plan_name(None), "");
}

#[test]
fn codex_selects_only_the_codex_weekly_window() {
    // primary: 300 minutes, 25% used; secondary: 10080 minutes, 4% used.
    let weekly = weekly_window_slot(Some(300), Some(10080));

    assert_eq!(weekly, Some(WindowSlot::Secondary));
    assert_eq!(weekly_window_slot(Some(10080), Some(10080)), Some(WindowSlot::Primary));
    assert_eq!(weekly_window_slot(Some(300), None), None);
}

#[test]
fn main_selects_only_the_codex_weekly_window() {
    let weekly = weekly_window_slot(Some(300), Some(10080));

    assert_eq!(weekly, Some(WindowSlot::Secondary));
}

#[test]
fn shows_the_codex_entry_of_the_per_limit_map() {
    assert_eq!(snapshot_choice(true, true, true), SnapshotChoice::CodexEntry);
    assert_eq!(snapshot_choice(true, false, true), SnapshotChoice::NoSnapshot);
    assert_eq!(snapshot_choice(false, false, true), SnapshotChoice::RateLimits);
    assert_eq!(snapshot_choice(false, true, false), SnapshotChoice::NoSnapshot);
}
