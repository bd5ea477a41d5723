use stats::limiter::{
    amp_request_delay, compact_retry_duration, is_rate_limited, prune_request_ledger,
    record_rate_limit, reserve_amp_request, retry_after_millis, AmpRequestKind,
    AmpRequestLedger, AmpRequestRecord,
};

fn record(at: u64, kind: &str) -> AmpRequestRecord {
    AmpRequestRecord {
        requested_at: at,
        kind: kind.to_string(),
    }
}

#[test]
fn recognizes_rate_limits_and_retry_windows() {
    assert!(is_rate_limited("HTTP 429: Too Many Requests"));
    assert!(is_rate_limited("usage rate limit exceeded"));
    assert_eq!(retry_after_millis("Retry-After: 90 seconds"), Some(90_000));
    assert_eq!(retry_after_millis("Retry in 45m"), Some(2_700_000));
    assert_eq!(retry_after_millis("Try again in 12 minutes"), Some(720_000));
    assert_eq!(retry_after_millis("Try again in 2 hours"), Some(7_200_000));
    assert!(!is_rate_limited("Total tokens: 429"));
}

#[test]
fn enforces_rolling_total_and_historical_budgets() {
    let now = 10_000_000;
    let total_ledger = AmpRequestLedger {
        requests: (0..40)
            .map(|offset| record(now - 100_000 + offset * 1_000, "account"))
            .collect(),
        blocked_until: None,
    };
    assert!(amp_request_delay(&total_ledger, AmpRequestKind::Account, now).is_some());

    let history_ledger = AmpRequestLedger {
        requests: (0..24)
            .map(|offset| record(now - 100_000 + offset * 1_000, "historical"))
            .collect(),
        blocked_until: None,
    };
    assert!(amp_request_delay(&history_ledger, AmpRequestKind::Historical, now).is_some());
    assert!(amp_request_delay(&history_ledger, AmpRequestKind::Account, now).is_none());
}

#[test]
fn enforces_current_refresh_and_server_cooldowns() {
    let now = 10_000_000;
    let current_ledger = AmpRequestLedger {
        requests: vec![record(now - 300_000, "current")],
        blocked_until: None,
    };
    assert_eq!(
        amp_request_delay(&current_ledger, AmpRequestKind::Current, now).unwrap() / 1_000,
        600
    );
    let blocked_ledger = AmpRequestLedger {
        blocked_until: Some(now + 120_000),
        ..AmpRequestLedger::default()
    };
    assert_eq!(
        amp_request_delay(&blocked_ledger, AmpRequestKind::Account, now).unwrap() / 1_000,
        120
    );
}

#[test]
fn prunes_expired_requests_and_cooldowns() {
    let now = 10_000_000;
    let mut ledger = AmpRequestLedger {
        requests: vec![
            record(now - 3_600_000, "historical"),
            record(now - 3_599_000, "account"),
        ],
        blocked_until: Some(now),
    };
    prune_request_ledger(&mut ledger, now);
    assert_eq!(ledger.requests.len(), 1);
    assert_eq!(ledger.requests[0].kind, "account");
    assert_eq!(ledger.blocked_until, None);
}

#[test]
fn granted_lookups_are_recorded_and_spaced() {
    let now = 10_000_000;
    let mut ledger = AmpRequestLedger::default();
    assert_eq!(reserve_amp_request(&mut ledger, AmpRequestKind::Historical, now), 0);
    assert_eq!(ledger.requests.len(), 1);
    assert_eq!(ledger.requests[0].kind, "historical");
    assert_eq!(
        reserve_amp_request(&mut ledger, AmpRequestKind::Historical, now + 400),
        600
    );
    assert_eq!(ledger.requests.len(), 1);
}

#[test]
fn rate_limits_pause_until_the_window_frees() {
    let now = 10_000_000;
    let mut ledger = AmpRequestLedger {
        requests: vec![record(now - 3_000_000, "account")],
        blocked_until: None,
    };
    assert_eq!(record_rate_limit(&mut ledger, now, None), 600_000);
    assert_eq!(ledger.blocked_until, Some(now + 600_000));
    let mut fresh = AmpRequestLedger::default();
    assert_eq!(record_rate_limit(&mut fresh, now, None), 3_600_000);
    assert_eq!(record_rate_limit(&mut fresh, now, Some(5_000)), 5_000);
    assert_eq!(compact_retry_duration(5_000), "1m");
    assert_eq!(compact_retry_duration(3_600_000), "1h");
    assert_eq!(compact_retry_duration(3_660_001), "1h 2m");
}

#[test]
fn a_long_run_of_lookups_never_exceeds_the_hourly_budgets() {
    let mut ledger = AmpRequestLedger::default();
    let kinds = [
        AmpRequestKind::Historical,
        AmpRequestKind::Account,
        AmpRequestKind::Historical,
        AmpRequestKind::Current,
    ];
    let mut now: u64 = 10_000_000;
    for step in 0..2_000_u64 {
        if step % 97 == 0 {
            record_rate_limit(&mut ledger, now, Some(30_000));
        } else {
            reserve_amp_request(&mut ledger, kinds[(step % 4) as usize], now);
        }
        let recent = ledger
            .requests
            .iter()
            .filter(|r| now < r.requested_at + 3_600_000)
            .collect::<Vec<_>>();
        assert!(recent.len() <= 40);
        assert!(recent.iter().filter(|r| r.kind == "historical").count() <= 24);
        now += 1_500;
    }
}
