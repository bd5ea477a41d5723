use chrono::NaiveDate;
use stats::layout::{
    amp_compact_reset_label, amp_compact_reset_label_at, centered, equal_column_widths, fixed,
    metric_bar_width, wrapped_alert_rows,
};

fn date(value: &str) -> i32 {
    NaiveDate::parse_from_str(value, "%Y-%m-%d")
        .unwrap()
        .to_epoch_days()
}

#[test]
fn compacts_ai_reset_labels() {
    let today = date("2026-08-22");
    for (reset, expected) in [
        ("resets upon renewal in 1 day", "23 Aug"),
        ("resets upon renewal in 29 days", "20 Sep"),
        ("resets upon renewal in 1 month", "22 Sep"),
        ("resets upon renewal in 2 months", "22 Oct"),
        ("resets upon renewal in 2 weeks", "5 Sep"),
        ("resets upon renewal in 3 hours", "in 3h"),
        ("resets upon renewal on 27 Aug", "on 27 Aug"),
    ] {
        assert_eq!(amp_compact_reset_label_at(reset, today), expected);
    }
}

#[test]
fn reset_labels_keep_unrecognised_text() {
    let today = date("2026-08-22");
    assert_eq!(amp_compact_reset_label_at("in 1,000 minutes", today), "in 1,000m");
    assert_eq!(amp_compact_reset_label_at("in 2 fortnights", today), "in 2 fortnights");
    assert_eq!(amp_compact_reset_label_at("in two days", today), "in two days");
    assert_eq!(amp_compact_reset_label_at("in 1 day ago", today), "in 1 day ago");
    assert_eq!(amp_compact_reset_label_at("tomorrow", today), "tomorrow");
    let local_today = chrono::Local::now().date_naive();
    assert_eq!(
        amp_compact_reset_label("resets upon renewal in 1 day"),
        (local_today + chrono::Days::new(1)).format("%-d %b").to_string()
    );
}

#[test]
fn splits_columns_evenly_with_the_wider_ones_first() {
    assert_eq!(equal_column_widths(10, 3), vec![4, 3, 3]);
    assert_eq!(equal_column_widths(9, 3), vec![3, 3, 3]);
    assert_eq!(equal_column_widths(2, 4), vec![1, 1, 0, 0]);
    assert_eq!(equal_column_widths(51, 7).iter().sum::<usize>(), 51);
}

#[test]
fn fits_text_into_fixed_and_centered_cells() {
    assert_eq!(fixed("Codex", 8), "Codex   ");
    assert_eq!(fixed("Activity", 3), "Act");
    assert_eq!(fixed("·", 2), "· ");
    assert_eq!(centered("ab", 7), "  ab   ");
    assert_eq!(centered("abcdef", 4), "abcd");
}

#[test]
fn leaves_the_rest_of_the_row_to_the_bar() {
    assert_eq!(metric_bar_width(58, 8, 9), 39);
    assert_eq!(metric_bar_width(10, 8, 9), 0);
}

#[test]
fn wraps_alerts_at_word_boundaries() {
    let rows = wrapped_alert_rows(
        "Amp Code activity history sync completes in ~5h 38m · resumes in ~40m",
        40,
    );
    assert_eq!(
        rows,
        vec![
            "Amp Code activity history sync completes",
            "in ~5h 38m · resumes in ~40m",
        ]
    );
    assert!(rows.iter().all(|row| row.chars().count() <= 40));
    assert_eq!(wrapped_alert_rows("  a  bb ", 0), vec!["a", "bb"]);
    assert!(wrapped_alert_rows("   ", 10).is_empty());
}
