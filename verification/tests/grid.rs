use chrono::NaiveDate;
use stats::calendar::{activity_calendar, CodexActivitySummary, CodexActivityUsage, CodexDailyUsageBucket};
use stats::grid::{
    activity_daily_cells, activity_month_labels, activity_overview_columns, calendar_marks,
    weekday_name, DayMark, OverviewValue,
};

fn date(value: &str) -> i32 {
    NaiveDate::parse_from_str(value, "%Y-%m-%d")
        .unwrap()
        .to_epoch_days()
}

fn activity(buckets: &[(&str, u64)]) -> CodexActivityUsage {
    CodexActivityUsage {
        daily_usage_buckets: Some(
            buckets
                .iter()
                .map(|(start_date, tokens)| CodexDailyUsageBucket {
                    start_date: (*start_date).to_string(),
                    tokens: *tokens,
                })
                .collect(),
        ),
        summary: None,
    }
}

#[test]
fn activity_places_activity_in_calendar_rows_and_marks_missing_past_dates() {
    let usage = activity(&[("2026-07-26", 10), ("2026-08-01", 20)]);
    let calendar = activity_calendar(&usage, 30, date("2026-08-01")).unwrap();
    let marks = calendar_marks(&calendar);

    assert_eq!(marks.len(), 7);
    assert_eq!(weekday_name(0), "Sun");
    assert_eq!(calendar.gutter_width + calendar.weeks * 2 - 1, 30);
    assert_eq!(marks[0][0], DayMark::Quiet);
    assert!(matches!(marks[0][calendar.weeks - 1], DayMark::Active(_)));
    assert!(matches!(marks[6][calendar.weeks - 1], DayMark::Active(_)));
    assert!(marks[1..6]
        .iter()
        .all(|row| row[calendar.weeks - 1] == DayMark::Quiet));
}

#[test]
fn activity_leaves_current_week_future_days_blank() {
    let usage = activity(&[("2026-07-12", 1), ("2026-08-05", 5)]);
    let calendar = activity_calendar(&usage, 30, date("2026-08-05")).unwrap();
    let marks = calendar_marks(&calendar);
    let last = calendar.weeks - 1;

    assert!(matches!(marks[3][last], DayMark::Active(_)));
    assert_eq!(marks[4][last], DayMark::Blank);
    assert_eq!(marks[5][last], DayMark::Blank);
    assert_eq!(marks[6][last], DayMark::Blank);
}

#[test]
fn activity_labels_months_above_their_first_visible_weeks() {
    let usage = activity(&[("2026-07-01", 1), ("2026-08-02", 2)]);
    let calendar = activity_calendar(&usage, 40, date("2026-08-02")).unwrap();

    let labels = activity_month_labels(&calendar);

    assert!(labels.contains("Jul"));
    assert!(labels.contains("Aug"));
    assert!(labels.find("Jul").unwrap() < labels.find("Aug").unwrap());

    let edge_usage = activity(&[("2026-08-01", 1)]);
    let edge_calendar = activity_calendar(&edge_usage, 40, date("2026-08-01")).unwrap();
    let edge_labels = activity_month_labels(&edge_calendar);
    assert!(!edge_labels.trim_end().ends_with('A'));
    assert_eq!(edge_labels.chars().count(), edge_calendar.weeks * 2 - 1);
}

#[test]
fn activity_renders_daily_dates_and_token_values_without_bars() {
    let usage = activity(&[
        ("2026-07-26", 10),
        ("2026-07-27", 20),
        ("2026-07-28", 30),
        ("2026-07-29", 40),
        ("2026-07-30", 50),
        ("2026-07-31", 60),
        ("2026-08-01", 70),
    ]);
    let calendar = activity_calendar(&usage, 51, date("2026-08-02")).unwrap();
    let cells = activity_daily_cells(&calendar, 51);

    assert_eq!(cells.len(), 7);
    assert_eq!(cells.iter().map(|c| c.width).sum::<usize>() + 6, 51);
    assert_eq!(cells[0].label.trim(), "26/7");
    assert_eq!(cells[6].label.trim(), "1/8");
    assert_eq!(cells[0].tokens, 10);
    assert_eq!(cells[6].tokens, 70);
    assert_eq!(cells[0].level, 1);
    assert_eq!(cells[6].level, 4);
    assert!(cells.iter().all(|c| !c.label.starts_with(' ')));
}

#[test]
fn activity_renders_missing_daily_usage_as_dim_dots() {
    let empty = activity(&[("2026-08-02", 0)]);
    let empty_calendar = activity_calendar(&empty, 22, date("2026-08-02")).unwrap();
    let cells = activity_daily_cells(&empty_calendar, 22);

    assert_eq!(cells.len(), 7);
    assert!(cells.iter().all(|c| c.tokens == 0 && c.level == 0));
    assert!(activity_daily_cells(&empty_calendar, 6).is_empty());
}

#[test]
fn overview_columns_share_the_width() {
    let mut usage = activity(&[("2026-08-01", 2)]);
    usage.summary = Some(CodexActivitySummary {
        lifetime_tokens: Some(12_300_000_000),
        peak_daily_tokens: Some(420_000_000),
        longest_running_turn_sec: Some(9_000),
        current_streak_days: Some(5),
        longest_streak_days: Some(23),
    });
    let calendar = activity_calendar(&usage, 100, date("2026-08-02")).unwrap();
    let (columns, gap) = activity_overview_columns(&calendar, 51);

    assert_eq!(gap, 1);
    assert_eq!(columns.len(), 6);
    let headings = columns.iter().map(|c| c.heading).collect::<Vec<_>>();
    assert_eq!(headings, vec!["7D", "30D", "Total", "Peak", "Streak", "Best"]);
    assert_eq!(columns[0].value, OverviewValue::Tokens(2));
    assert_eq!(columns[2].value, OverviewValue::Tokens(12_300_000_000));
    assert_eq!(columns[4].value, OverviewValue::Days(5));
    assert_eq!(columns[5].value, OverviewValue::Days(23));
    assert_eq!(columns.iter().map(|c| c.width).sum::<usize>() + 5, 51);
}

#[test]
fn main_leaves_current_week_future_days_blank() {
    let usage = activity(&[("2026-07-12", 1), ("2026-08-05", 5)]);
    let calendar = activity_calendar(&usage, 30, date("2026-08-05")).unwrap();
    let marks = calendar_marks(&calendar);
    let last = calendar.weeks - 1;

    assert!(matches!(marks[3][last], DayMark::Active(_)));
    assert_eq!(marks[4][last], DayMark::Blank);
    assert_eq!(marks[5][last], DayMark::Blank);
    assert_eq!(marks[6][last], DayMark::Blank);
}

#[test]
fn main_labels_months_above_their_first_visible_weeks() {
    let usage = activity(&[("2026-07-01", 1), ("2026-08-02", 2)]);
    let calendar = activity_calendar(&usage, 40, date("2026-08-02")).unwrap();

    let labels = activity_month_labels(&calendar);

    assert!(labels.contains("Jul"));
    assert!(labels.contains("Aug"));
    assert!(labels.find("Jul").unwrap() < labels.find("Aug").unwrap());

    let edge_usage = activity(&[("2026-08-01", 1)]);
    let edge_calendar = activity_calendar(&edge_usage, 40, date("2026-08-01")).unwrap();
    let edge_labels = activity_month_labels(&edge_calendar);
    assert!(!edge_labels.trim_end().ends_with('A'));
}

#[test]
fn main_renders_missing_daily_usage_as_dim_dots() {
    let empty = activity(&[("2026-08-02", 0)]);
    let empty_calendar = activity_calendar(&empty, 22, date("2026-08-02")).unwrap();
    let cells = activity_daily_cells(&empty_calendar, 22);

    assert_eq!(cells.len(), 7);
    assert!(cells.iter().all(|c| c.tokens == 0 && c.level == 0));
    assert!(activity_daily_cells(&empty_calendar, 6).is_empty());
}

#[test]
fn main_includes_account_metrics_in_the_overview_columns() {
    let mut usage = activity(&[("2026-08-01", 2)]);
    usage.summary = Some(CodexActivitySummary {
        lifetime_tokens: Some(12_300_000_000),
        peak_daily_tokens: Some(420_000_000),
        longest_running_turn_sec: Some(9_000),
        current_streak_days: Some(5),
        longest_streak_days: Some(23),
    });
    let calendar = activity_calendar(&usage, 100, date("2026-08-02")).unwrap();

    let (columns, _) = activity_overview_columns(&calendar, 51);
    assert_eq!(columns.len(), 6);
    assert_eq!(columns[2].heading, "Total");
    assert_eq!(columns[3].heading, "Peak");
    assert_eq!(columns[4].heading, "Streak");
    assert_eq!(columns[5].heading, "Best");
    assert_eq!(columns[2].value, OverviewValue::Tokens(12_300_000_000));
    assert_eq!(columns[3].value, OverviewValue::Tokens(420_000_000));
    assert_eq!(columns[4].value, OverviewValue::Days(5));
    assert_eq!(columns[5].value, OverviewValue::Days(23));
    assert_eq!(calendar.summary.unwrap().longest_running_turn_sec, Some(9_000));
}
