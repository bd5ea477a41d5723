use stats::calendar::shown_bucket_indices;
use chrono::NaiveDate;
use stats::activity::{
    activity_intensity, activity_quartiles, amp_activity_history_days, compact_duration, sync_eta,
};
use stats::amp::{AmpActivityUsage, AmpDailyUsageBucket, AmpTokenCategory};
use stats::calendar::{
    activity_calendar, activity_period_tokens, amp_activity_sync_message, CodexActivitySummary,
    CodexActivityUsage, CodexDailyUsageBucket,
};
use stats::dates::sunday_of_week;
use stats::layout::wrapped_alert_rows;
use stats::model::ProviderState;

fn date(value: &str) -> i32 {
    NaiveDate::parse_from_str(value, "%Y-%m-%d")
        .unwrap()
        .to_epoch_days()
}

fn activity(buckets: &[(&str, u64)]) -> CodexActivityUsage {
    CodexActivityUsage {
        daily_usage_buckets: Some(
            buckets
                .iter()
                .map(|(start_date, tokens)| CodexDailyUsageBucket {
                    start_date: (*start_date).to_string(),
                    tokens: *tokens,
                })
                .collect(),
        ),
        summary: None,
    }
}

fn amp_bucket(day: &str, tokens: u64) -> AmpDailyUsageBucket {
    AmpDailyUsageBucket {
        date: day.to_string(),
        tokens,
        orb_runtime_millis: 0,
        covered_cost: None,
        paid_cost: None,
        sources: Vec::new(),
        models: Vec::new(),
    }
}

#[test]
fn activity_anchors_calendar_to_the_utc_week_and_uses_every_column_that_fits() {
    let usage = activity(&[("2026-08-01", 20)]);

    let calendar = activity_calendar(&usage, 30, date("2026-08-05")).unwrap();

    assert_eq!(calendar.weeks, 13);
    assert_eq!(calendar.start_week, date("2026-05-10"));
    assert_eq!(sunday_of_week(calendar.utc_today), date("2026-08-02"));
}

#[test]
fn activity_uses_full_width_even_when_returned_history_is_shorter() {
    let usage = activity(&[("2026-06-01", 1), ("2026-08-02", 2)]);

    let calendar = activity_calendar(&usage, 16, date("2026-08-02")).unwrap();

    assert_eq!(calendar.weeks, 6);
    assert_eq!(calendar.start_week, date("2026-06-28"));
}

#[test]
fn activity_assigns_four_levels_from_visible_quartiles() {
    let quartiles = activity_quartiles(&[10, 20, 30, 40, 50, 60, 70, 80]);

    assert_eq!(quartiles, [20, 40, 60]);
    assert_eq!(activity_intensity(10, quartiles), 1);
    assert_eq!(activity_intensity(30, quartiles), 2);
    assert_eq!(activity_intensity(50, quartiles), 3);
    assert_eq!(activity_intensity(70, quartiles), 4);
}

#[test]
fn main_assigns_four_levels_from_visible_quartiles() {
    let quartiles = activity_quartiles(&[10, 20, 30, 40, 50, 60, 70, 80]);

    assert_eq!(quartiles, [20, 40, 60]);
    assert_eq!(activity_intensity(10, quartiles), 1);
    assert_eq!(activity_intensity(30, quartiles), 2);
    assert_eq!(activity_intensity(50, quartiles), 3);
    assert_eq!(activity_intensity(70, quartiles), 4);
}

#[test]
fn activity_selects_the_latest_bucket_and_summarizes_anchored_calendar_days() {
    let usage = activity(&[
        ("2026-08-01", 47_250_000),
        ("2026-07-02", 99_000_000),
        ("2026-07-03", 10_000_000),
        ("2026-07-26", 200_000_000),
        ("2026-08-01", 100_000_000),
        ("2026-07-31", 47_250_000),
    ]);
    let calendar = activity_calendar(&usage, 100, date("2026-08-02")).unwrap();

    assert_eq!(calendar.latest_date, date("2026-08-01"));
    assert_eq!(activity_period_tokens(&calendar, 1), 100_000_000);
    assert_eq!(activity_period_tokens(&calendar, 7), 347_250_000);
    assert_eq!(activity_period_tokens(&calendar, 30), 357_250_000);
}

#[test]
fn activity_includes_account_metrics_in_the_overview_columns() {
    let mut usage = activity(&[("2026-08-01", 2)]);
    usage.summary = Some(CodexActivitySummary {
        lifetime_tokens: Some(12_300_000_000),
        peak_daily_tokens: Some(420_000_000),
        longest_running_turn_sec: Some(9_000),
        current_streak_days: Some(5),
        longest_streak_days: Some(23),
    });
    let calendar = activity_calendar(&usage, 100, date("2026-08-02")).unwrap();

    assert_eq!(
        calendar.summary.unwrap().longest_running_turn_sec,
        Some(9_000)
    );
}

#[test]
fn activity_treats_null_buckets_as_unavailable_and_skips_malformed_dates() {
    let null_usage = CodexActivityUsage {
        daily_usage_buckets: None,
        summary: None,
    };
    assert!(activity_calendar(&null_usage, 40, date("2026-08-02")).is_none());

    let usage = activity(&[("not-a-date", 99), ("2026-08-02", 2)]);
    let calendar = activity_calendar(&usage, 40, date("2026-08-02")).unwrap();
    assert_eq!(calendar.latest_date, date("2026-08-02"));
    assert_eq!(calendar.tokens_by_date.len(), 1);
}

#[test]
fn amp_activity_history_matches_the_full_visible_grid() {
    let today = date("2026-08-02");
    assert_eq!(amp_activity_history_days(40, today), 120);
    assert_eq!(amp_activity_history_days(58, today), 78);

    let usage = CodexActivityUsage {
        daily_usage_buckets: Some(vec![CodexDailyUsageBucket {
            start_date: "2026-08-02".to_string(),
            tokens: 1,
        }]),
        summary: None,
    };
    let calendar = activity_calendar(&usage, 40, today).unwrap();
    assert_eq!(
        (today - calendar.start_week) as usize + 1,
        amp_activity_history_days(40, today)
    );
}

#[test]
fn combines_the_budget_pause_with_the_overall_sync_eta() {
    let mut state = ProviderState::empty();
    state.result = Some(AmpActivityUsage {
        daily_usage_buckets: vec![amp_bucket("2026-08-02", 1)],
    });
    state.retry_after_millis = Some(40 * 60 * 1000);

    let message = amp_activity_sync_message(&state, 40, date("2026-08-02")).unwrap();

    assert_eq!(
        message,
        "Amp Code activity history sync completes in ~5h 38m · resumes in ~40m"
    );
}

#[test]
fn renders_cached_amp_activity_and_aggregate_details() {
    let mut first = amp_bucket("2026-08-01", 100_000_000);
    first.orb_runtime_millis = 60_000;
    first.covered_cost = Some("1.25".to_string());
    first.sources = vec![
        AmpTokenCategory {
            label: "ChatGPT Pro".to_string(),
            tokens: 99_000_000,
        },
        AmpTokenCategory {
            label: "Amp".to_string(),
            tokens: 1_000_000,
        },
    ];
    first.models = vec![
        AmpTokenCategory {
            label: "GPT-5.6 Sol".to_string(),
            tokens: 90_000_000,
        },
        AmpTokenCategory {
            label: "GPT-5.5".to_string(),
            tokens: 10_000_000,
        },
    ];
    let mut second = amp_bucket("2026-08-02", 200_000_000);
    second.orb_runtime_millis = 3_600_000;
    second.paid_cost = Some("0.50".to_string());
    let mut state = ProviderState::empty();
    state.result = Some(AmpActivityUsage {
        daily_usage_buckets: vec![first, second],
    });

    let sync = amp_activity_sync_message(&state, 40, date("2026-08-02")).unwrap();
    assert_eq!(sync, "Amp Code activity history sync completes in ~4h 55m");
    assert_eq!(compact_duration(60_000 + 3_600_000), "1h1m");
}

#[test]
fn sync_eta_rounds_up_to_minutes_and_hours() {
    assert_eq!(sync_eta(0), "0m");
    assert_eq!(sync_eta(1), "1m");
    assert_eq!(sync_eta(3_540), "59m");
    assert_eq!(sync_eta(3_541), "1h");
    assert_eq!(sync_eta(3_600), "1h");
    assert_eq!(sync_eta(17_700), "4h 55m");
}

#[test]
fn compact_duration_drops_seconds() {
    assert_eq!(compact_duration(59_999), "0m");
    assert_eq!(compact_duration(3_540_000), "59m");
    assert_eq!(compact_duration(3_600_000), "1h0m");
    assert_eq!(compact_duration(4_812_210), "1h20m");
}

#[test]
fn sync_message_is_absent_once_history_is_complete_or_failed() {
    let today = date("2026-08-02");
    let mut state = ProviderState::empty();
    assert!(amp_activity_sync_message(&state, 40, today).is_none());
    let days = stats::amp::activity_dates(today, 120);
    state.result = Some(AmpActivityUsage {
        daily_usage_buckets: days
            .iter()
            .map(|day| {
                amp_bucket(
                    &NaiveDate::from_epoch_days(*day)
                        .unwrap()
                        .format("%Y-%m-%d")
                        .to_string(),
                    1,
                )
            })
            .collect(),
    });
    assert!(amp_activity_sync_message(&state, 40, today).is_none());
    state.result = Some(AmpActivityUsage {
        daily_usage_buckets: vec![amp_bucket("2026-08-02", 1)],
    });
    state.error = Some("boom".to_string());
    assert!(amp_activity_sync_message(&state, 40, today).is_none());
}

#[test]
fn renders_wrapped_alerts_at_the_top_only_when_present() {
    let today = date("2026-08-02");
    let mut state = ProviderState::empty();
    state.result = Some(AmpActivityUsage {
        daily_usage_buckets: vec![amp_bucket("2026-08-02", 1)],
    });
    state.retry_after_millis = Some(40 * 60 * 1000);

    let message = amp_activity_sync_message(&state, 40, today).unwrap();
    let rows = wrapped_alert_rows(&message, 40);

    assert!(rows[0].starts_with("Amp Code activity history sync"));
    assert!(rows.join(" ").contains("resumes in ~40m"));
    assert!(!rows.join(" ").contains("Amp sync"));
    assert!(rows.iter().all(|row| row.chars().count() <= 40));

    let empty: ProviderState<AmpActivityUsage> = ProviderState::empty();
    assert!(amp_activity_sync_message(&empty, 40, today).is_none());
}

#[test]
fn main_treats_null_buckets_as_unavailable_and_skips_malformed_dates() {
    let null_usage = CodexActivityUsage {
        daily_usage_buckets: None,
        summary: None,
    };
    assert!(activity_calendar(&null_usage, 40, date("2026-08-02")).is_none());

    let usage = activity(&[("not-a-date", 99), ("2026-08-02", 2)]);
    let calendar = activity_calendar(&usage, 40, date("2026-08-02")).unwrap();
    assert_eq!(calendar.latest_date, date("2026-08-02"));
    assert_eq!(calendar.tokens_by_date.len(), 1);
}

#[test]
fn quartiles_are_ordered_members_whatever_the_order() {
    let a = activity_quartiles(&[80, 10, 60, 30, 50, 20, 70, 40]);
    let b = activity_quartiles(&[10, 20, 30, 40, 50, 60, 70, 80]);
    assert_eq!(a, b);
    assert!(a[0] <= a[1] && a[1] <= a[2]);
    assert_eq!(activity_quartiles(&[]), [0, 0, 0]);
    assert_eq!(activity_quartiles(&[7]), [7, 7, 7]);
}

#[test]
fn only_buckets_on_shown_days_are_summarised() {
    let buckets = vec![
        amp_bucket("2026-07-01", 1),
        amp_bucket("bad", 2),
        amp_bucket("2026-08-01", 3),
        amp_bucket("2026-08-03", 4),
    ];
    let shown = shown_bucket_indices(&buckets, date("2026-07-26"), date("2026-08-02"));
    assert_eq!(shown, vec![2]);
}
