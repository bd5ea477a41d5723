use stats::report::decimal_display_of;
use chrono::NaiveDate;
use stats::config::AiDisplayConfig;
use stats::model::ProviderState;
use stats::report::{
    amp_once_lines, currency_text, extract_amp_daily_usage, extract_amp_usage, table_rows,
    token_categories, AmpUsage,
};

fn percent(value: &Option<String>) -> Option<f64> {
    value.as_deref().map(|text| text.parse::<f64>().unwrap())
}

#[test]
fn amp_extracts_current_amp_megawatt_usage() {
    let output = "Signed in as user@example.com\n**Amp Megawatt Subscription:** 82% other usage and 64.5% orb usage remaining - resets upon renewal in 1 month\n**Individual credits:** $1.01 remaining\n\nRange: 2026-08-18T05:45:24.249Z to 2026-08-25T05:45:24.249Z (end exclusive)\nTotal Orb runtime: 1h20m12.210s (4,812,210 ms)\n";
    let usage = extract_amp_usage(output).expect("usage");
    assert_eq!(usage.plan.as_deref(), Some("Megawatt"));
    assert_eq!(percent(&usage.other_percent_remaining), Some(82.0));
    assert_eq!(percent(&usage.orb_percent_remaining), Some(64.5));
    assert_eq!(usage.orb_runtime.as_deref(), Some("1h20m12.210s"));
    assert_eq!(usage.individual_credits_remaining.as_deref(), Some("$1.01"));
    assert_eq!(
        usage.reset.as_deref(),
        Some("resets upon renewal in 1 month")
    );
}

#[test]
fn amp_extracts_historical_amp_megawatt_usage() {
    let usage = extract_amp_usage("Subscription Megawatt: 82% other usage and 64.5% orb usage remaining - resets upon renewal in 1 month\n").expect("usage");
    assert_eq!(usage.plan.as_deref(), Some("Megawatt"));
    assert_eq!(percent(&usage.other_percent_remaining), Some(82.0));
    assert_eq!(percent(&usage.orb_percent_remaining), Some(64.5));
    assert_eq!(usage.orb_runtime, None);
    assert_eq!(usage.individual_credits_remaining, None);
}

#[test]
fn main_extracts_current_amp_megawatt_usage() {
    let output = "Signed in as user@example.com\n**Amp Megawatt Subscription:** 82% other usage and 64.5% orb usage remaining - resets upon renewal in 1 month\n**Individual credits:** $1.01 remaining\n";
    let usage = extract_amp_usage(output).expect("usage");
    assert_eq!(usage.plan.as_deref(), Some("Megawatt"));
    assert_eq!(percent(&usage.other_percent_remaining), Some(82.0));
    assert_eq!(
        usage.reset.as_deref(),
        Some("resets upon renewal in 1 month")
    );
}

#[test]
fn main_extracts_historical_amp_megawatt_usage() {
    let output = "Subscription Megawatt: 82% other usage and 64.5% orb usage remaining - resets upon renewal in 1 month\n";
    let usage = extract_amp_usage(output).expect("usage");
    assert_eq!(usage.plan.as_deref(), Some("Megawatt"));
    assert_eq!(percent(&usage.other_percent_remaining), Some(82.0));
}

#[test]
fn extracts_other_subscription_plans_and_day_renewals() {
    let usage = extract_amp_usage(
        "Amp Gigawatt Subscription: 97.5% other usage and 100% orb usage remaining - resets upon renewal in 29 days\n",
    )
    .expect("usage");
    assert_eq!(usage.plan.as_deref(), Some("Gigawatt"));
    assert_eq!(percent(&usage.other_percent_remaining), Some(97.5));
    assert_eq!(percent(&usage.orb_percent_remaining), Some(100.0));
    assert_eq!(
        usage.reset.as_deref(),
        Some("resets upon renewal in 29 days")
    );
}

#[test]
fn extracts_subscription_usage_without_a_renewal_date() {
    let usage = extract_amp_usage(
        "Amp Megawatt Subscription: 82% other usage and 64.5% orb usage remaining\n",
    )
    .expect("usage");
    assert_eq!(usage.plan.as_deref(), Some("Megawatt"));
    assert_eq!(percent(&usage.other_percent_remaining), Some(82.0));
    assert_eq!(percent(&usage.orb_percent_remaining), Some(64.5));
    assert_eq!(usage.reset, None);
}

#[test]
fn extracts_historical_usage_with_optional_fields_omitted() {
    let usage = extract_amp_usage(
        "Subscription Free: 72.25% other usage remaining\nIndividual credits remaining: $0.50\n",
    )
    .expect("usage");
    assert_eq!(usage.plan.as_deref(), Some("Free"));
    assert_eq!(percent(&usage.other_percent_remaining), Some(72.25));
    assert_eq!(percent(&usage.orb_percent_remaining), None);
    assert_eq!(usage.individual_credits_remaining.as_deref(), Some("$0.50"));
    assert_eq!(usage.reset, None);
}

#[test]
fn ignores_text_without_a_subscription_line() {
    assert!(extract_amp_usage("Signed in as user@example.com\n").is_none());
    let usage = extract_amp_usage(
        "\u{1b}[1mAmp Pro Subscription:\u{1b}[0m 10% other usage remaining\n",
    )
    .expect("usage");
    assert_eq!(usage.plan.as_deref(), Some("Pro"));
}

const ACTIVITY: &str = r#"# Usage
Range: 2026-08-24T00:00:00.000Z to 2026-08-25T00:00:00.000Z (end exclusive)
Total Orb runtime: 1h2m3s (3,723,000 ms)
Total tokens: 352,596,082

## From
| Source | Tokens |
| --- | ---: |
| ChatGPT Plus/Pro | 352,500,000 |
| Amp | 96,082 |

## Models
| Model | Tokens |
| --- | ---: |
| GPT-5.6 Sol | 340,187,011 |
| GPT-5.6 Terra | 12,409,071 |

## Daily Recorded Cost
| Date (UTC) | Covered | Paid | Total |
| --- | ---: | ---: | ---: |
| 2026-08-24 | $1.25 | $0.05 | $1.30 |

## Usage by Thread
| Thread | Tokens | Covered | Paid | Total |
| --- | ---: | ---: | ---: | ---: |
| Private title (T-example) | 42 | $0 | $0 | $0 |
"#;

#[test]
fn extracts_range_scoped_amp_activity() {
    let day = NaiveDate::from_ymd_opt(2026, 8, 24).unwrap().to_epoch_days();
    let usage = extract_amp_daily_usage(ACTIVITY, day).expect("activity");

    assert_eq!(usage.date, "2026-08-24");
    assert_eq!(usage.tokens, 352_596_082);
    assert_eq!(usage.orb_runtime_millis, 3_723_000);
    assert_eq!(percent(&usage.covered_cost), Some(1.25));
    assert_eq!(percent(&usage.paid_cost), Some(0.05));
    assert_eq!(usage.sources.len(), 2);
    assert_eq!(usage.sources[0].label, "ChatGPT Plus/Pro");
    assert_eq!(usage.models[1].tokens, 12_409_071);
}

#[test]
fn reads_markdown_tables_by_heading() {
    let rows = table_rows(ACTIVITY, "Daily Recorded Cost");
    assert_eq!(
        rows,
        vec![vec!["2026-08-24", "$1.25", "$0.05", "$1.30"]]
    );
    assert!(table_rows(ACTIVITY, "Missing").is_empty());
    let models = token_categories(ACTIVITY, "Models");
    assert_eq!(models.len(), 2);
    assert_eq!(models[0].label, "GPT-5.6 Sol");
    assert_eq!(models[0].tokens, 340_187_011);
    assert_eq!(currency_text(" $1,234.50 "), "1234.50");
}

#[test]
fn a_day_without_a_tokens_line_is_not_read() {
    let day = NaiveDate::from_ymd_opt(2026, 8, 24).unwrap().to_epoch_days();
    assert!(extract_amp_daily_usage("## From\n| Source | Tokens |\n", day).is_none());
    let other_day = NaiveDate::from_ymd_opt(2026, 8, 23).unwrap().to_epoch_days();
    let usage = extract_amp_daily_usage(ACTIVITY, other_day).expect("activity");
    assert_eq!(usage.covered_cost, None);
    assert_eq!(usage.paid_cost, None);
}

#[test]
fn formats_all_amp_values_for_once_output() {
    let mut state = ProviderState::empty();
    state.result = Some(AmpUsage {
        plan: Some("Gigawatt".into()),
        other_percent_remaining: Some("97.5".into()),
        orb_percent_remaining: Some("64.25".into()),
        orb_runtime: Some("12m3s".into()),
        individual_credits_remaining: Some("$2.50".into()),
        reset: Some("resets upon renewal in 4 days".into()),
    });
    state.stale = true;

    let lines = amp_once_lines(&state, &AiDisplayConfig::default(), "unknown");

    assert_eq!(lines[0], "Amp usage last updated unknown");
    assert_eq!(
        lines[1],
        "Gigawatt 97.5% remaining · Other usage · resets upon renewal in 4 days"
    );
    assert_eq!(lines[2], "Amp Orbs 64.25% remaining · 12m3s runtime");
    assert_eq!(lines[3], "Amp credits $2.50 remaining");
}

#[test]
fn once_output_shows_only_the_error_after_a_failed_refresh() {
    let mut state = ProviderState::empty();
    state.error = Some("timed out".into());
    let lines = amp_once_lines(&state, &AiDisplayConfig::default(), "unknown");
    assert_eq!(lines, vec!["Amp error: timed out".to_string()]);
    let empty: ProviderState<AmpUsage> = ProviderState::empty();
    assert!(amp_once_lines(&empty, &AiDisplayConfig::default(), "unknown").is_empty());
}

#[test]
fn percentages_print_as_their_numbers() {
    assert_eq!(decimal_display_of("72.50"), "72.5");
    assert_eq!(decimal_display_of("82"), "82");
    assert_eq!(decimal_display_of("100.0"), "100");
    assert_eq!(decimal_display_of("007.250"), "7.25");
    assert_eq!(decimal_display_of("0.00"), "0");
    let mut state = ProviderState::empty();
    state.result = Some(AmpUsage {
        plan: None,
        other_percent_remaining: Some("72.50".into()),
        orb_percent_remaining: None,
        orb_runtime: None,
        individual_credits_remaining: None,
        reset: None,
    });
    let lines = amp_once_lines(&state, &AiDisplayConfig::default(), "unknown");
    assert_eq!(lines, vec!["Amp 72.5% remaining · Other usage".to_string()]);
}
