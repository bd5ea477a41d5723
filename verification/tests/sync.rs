use stats::sync::day_range_args;
use chrono::NaiveDate;
use stats::amp::{AmpActivityUsage, AmpDailyUsageBucket};
use stats::cli::Mode;
use stats::limiter::{amp_command_result, AmpRequestKind, AmpRequestLedger};
use stats::model::{provider_ready_for_once, ProviderState};
use stats::sync::{
    decide_after_fetch, history_request_days, lookup_kind, next_lookup, restart_at_once,
    start_pass, DayFetch, SyncDecision,
};

fn date(value: &str) -> i32 {
    NaiveDate::parse_from_str(value, "%Y-%m-%d")
        .unwrap()
        .to_epoch_days()
}

fn bucket(day: &str) -> AmpDailyUsageBucket {
    AmpDailyUsageBucket {
        date: day.to_string(),
        tokens: 1,
        orb_runtime_millis: 0,
        covered_cost: None,
        paid_cost: None,
        sources: Vec::new(),
        models: Vec::new(),
    }
}

#[test]
fn passes_skip_completed_days_already_cached() {
    let today = date("2026-08-25");
    let activity = AmpActivityUsage {
        daily_usage_buckets: vec![bucket("2026-08-25"), bucket("2026-08-24"), bucket("2026-08-22")],
    };
    let mut pass = start_pass(today, 3);
    assert_eq!(pass.dates.len(), 7);
    assert_eq!(next_lookup(&mut pass, &activity), Some(today));
    assert_eq!(next_lookup(&mut pass, &activity), Some(date("2026-08-23")));
    assert_eq!(next_lookup(&mut pass, &activity), Some(date("2026-08-21")));
    assert_eq!(next_lookup(&mut pass, &activity), Some(date("2026-08-20")));
    assert_eq!(next_lookup(&mut pass, &activity), Some(date("2026-08-19")));
    assert_eq!(next_lookup(&mut pass, &activity), None);
    assert_eq!(history_request_days(120), 120);
    assert!(restart_at_once(120, 78));
    assert!(!restart_at_once(78, 78));
}

#[test]
fn decides_what_a_lookup_answer_means() {
    let today = date("2026-08-25");
    let yesterday = date("2026-08-24");
    assert_eq!(
        decide_after_fetch(&DayFetch::Ready(bucket("2026-08-24")), yesterday, today),
        SyncDecision::Store
    );
    assert_eq!(
        decide_after_fetch(&DayFetch::Deferred(1_500), yesterday, today),
        SyncDecision::RetryAfter(1_500)
    );
    assert_eq!(
        decide_after_fetch(&DayFetch::Deferred(600_000), today, today),
        SyncDecision::SkipToday
    );
    assert_eq!(
        decide_after_fetch(&DayFetch::Deferred(600_000), yesterday, today),
        SyncDecision::Pause(600_000)
    );
    assert_eq!(
        decide_after_fetch(&DayFetch::Failed("boom".to_string()), yesterday, today),
        SyncDecision::Fail
    );
    assert_eq!(lookup_kind(today, today), AmpRequestKind::Current);
    assert_eq!(lookup_kind(yesterday, today), AmpRequestKind::Historical);
    let _ = Mode::Stats;
}

#[test]
fn command_results_turn_rate_limits_into_pauses() {
    let now = 10_000_000;
    let mut ledger = AmpRequestLedger::default();
    assert_eq!(
        amp_command_result(&mut ledger, now, true, "Total tokens: 5\n", "", "exit status: 0"),
        Ok("Total tokens: 5\n".to_string())
    );
    assert_eq!(ledger.blocked_until, None);
    assert_eq!(
        amp_command_result(&mut ledger, now, false, "  \n", " denied \n", "exit status: 1"),
        Err("denied".to_string())
    );
    assert_eq!(
        amp_command_result(&mut ledger, now, false, "", "", "exit status: 2"),
        Err("amp usage exited with exit status: 2".to_string())
    );
    assert_eq!(
        amp_command_result(&mut ledger, now, false, "HTTP 429", "Retry in 45m", "exit status: 1"),
        Err("Amp usage rate limited; retrying in 45m".to_string())
    );
    assert_eq!(ledger.blocked_until, Some(now + 2_700_000));
}

#[test]
fn once_output_waits_for_fresh_or_failed_providers() {
    let started = 1_000_000;
    let mut state: ProviderState<u8> = ProviderState::empty();
    assert!(!provider_ready_for_once(&state, started));
    state.updated_at = Some(started - 1_999);
    assert!(provider_ready_for_once(&state, started));
    state.updated_at = Some(started - 2_000);
    assert!(!provider_ready_for_once(&state, started));
    state.error = Some("boom".to_string());
    assert!(provider_ready_for_once(&state, started));
}

#[test]
fn a_day_lookup_spans_midnight_to_midnight_utc() {
    let (start, end) = day_range_args(date("2026-08-31")).unwrap();
    assert_eq!(start, "2026-08-31T00:00:00Z");
    assert_eq!(end, "2026-09-01T00:00:00Z");
    assert!(day_range_args(stats::dates::MAX_DAY).is_none());
}
