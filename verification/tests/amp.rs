use chrono::NaiveDate;
use stats::amp::{
    activity_dates, aggregate_categories, upsert_daily_bucket, AmpActivityUsage,
    AmpDailyUsageBucket, AmpTokenCategory,
};

fn date(value: &str) -> i32 {
    NaiveDate::parse_from_str(value, "%Y-%m-%d")
        .unwrap()
        .to_epoch_days()
}

fn bucket(day: &str, tokens: u64) -> AmpDailyUsageBucket {
    AmpDailyUsageBucket {
        date: day.to_string(),
        tokens,
        orb_runtime_millis: 0,
        covered_cost: None,
        paid_cost: None,
        sources: Vec::new(),
        models: Vec::new(),
    }
}

fn category(label: &str, tokens: u64) -> AmpTokenCategory {
    AmpTokenCategory {
        label: label.to_string(),
        tokens,
    }
}

#[test]
fn builds_a_thirty_day_activity_window_newest_first() {
    let today = date("2026-08-25");
    let dates = activity_dates(today, 30);
    assert_eq!(dates.len(), 30);
    assert_eq!(dates[0], today);
    assert_eq!(dates[29], date("2026-07-27"));
}

#[test]
fn replaces_a_cached_day_and_keeps_days_in_order() {
    let mut activity = AmpActivityUsage {
        daily_usage_buckets: vec![
            bucket("2026-08-03", 3),
            bucket("2026-08-01", 1),
            bucket("2026-08-02", 2),
        ],
    };
    upsert_daily_bucket(&mut activity, bucket("2026-08-02", 20));
    let days = activity
        .daily_usage_buckets
        .iter()
        .map(|b| (b.date.as_str(), b.tokens))
        .collect::<Vec<_>>();
    assert_eq!(
        days,
        vec![("2026-08-01", 1), ("2026-08-02", 20), ("2026-08-03", 3)]
    );
    upsert_daily_bucket(&mut activity, bucket("2026-07-31", 7));
    assert_eq!(activity.daily_usage_buckets[0].date, "2026-07-31");
    assert_eq!(activity.daily_usage_buckets.len(), 4);
}

#[test]
fn totals_categories_by_label_most_tokens_first() {
    let totals = aggregate_categories(&[
        category("GPT-5.6 Sol", 90_000_000),
        category("GPT-5.5", 10_000_000),
        category("GPT-5.5", 5_000_000),
        category("Amp", 15_000_000),
        category("Zed", u64::MAX),
        category("Zed", 1),
    ]);
    assert_eq!(
        totals,
        vec![
            ("Zed".to_string(), u64::MAX),
            ("GPT-5.6 Sol".to_string(), 90_000_000),
            ("Amp".to_string(), 15_000_000),
            ("GPT-5.5".to_string(), 15_000_000),
        ]
    );
    assert!(aggregate_categories(&[]).is_empty());
}

#[test]
fn storing_grows_only_for_new_days_and_again_changes_nothing() {
    let mut activity = AmpActivityUsage {
        daily_usage_buckets: vec![bucket("2026-08-01", 1), bucket("2026-08-02", 2)],
    };
    upsert_daily_bucket(&mut activity, bucket("2026-08-02", 5));
    assert_eq!(activity.daily_usage_buckets.len(), 2);
    upsert_daily_bucket(&mut activity, bucket("2026-08-03", 3));
    assert_eq!(activity.daily_usage_buckets.len(), 3);
    let before = activity
        .daily_usage_buckets
        .iter()
        .map(|b| (b.date.clone(), b.tokens))
        .collect::<Vec<_>>();
    upsert_daily_bucket(&mut activity, bucket("2026-08-03", 3));
    let after = activity
        .daily_usage_buckets
        .iter()
        .map(|b| (b.date.clone(), b.tokens))
        .collect::<Vec<_>>();
    assert_eq!(before, after);
    let mut dates = after.iter().map(|(d, _)| d.clone()).collect::<Vec<_>>();
    dates.dedup();
    assert_eq!(dates.len(), 3);
}
