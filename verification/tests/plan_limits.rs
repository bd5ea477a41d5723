use stats::plan_limits::{extract_claude_usage, ClaudeWindow};

#[test]
fn extracts_claude_plan_limits() {
    let usage = extract_claude_usage(
        "Current session: 8% used · resets Aug 25, 2:29pm (America/Los_Angeles)\n\
         Current week (all models): 85% used · resets Aug 26, 7:59pm\n\
         Current week (Fable): 0% used\n",
    )
    .unwrap();

    assert_eq!(usage.limits.len(), 3);
    assert!(matches!(usage.limits[0].window, ClaudeWindow::FiveHour));
    assert_eq!(usage.limits[0].used_percent, "8");
    assert_eq!(
        usage.limits[0].reset.as_deref(),
        Some("Aug 25, 2:29pm (America/Los_Angeles)")
    );
    assert!(matches!(usage.limits[1].window, ClaudeWindow::SevenDay));
    assert_eq!(usage.limits[1].used_percent, "85");
    assert_eq!(usage.limits[1].reset.as_deref(), Some("Aug 26, 7:59pm"));
    assert!(matches!(&usage.limits[2].window, ClaudeWindow::Model(m) if m == "Fable"));
    assert_eq!(usage.limits[2].reset, None);
}

#[test]
fn ignores_cost_and_activity_rows() {
    assert!(extract_claude_usage("Session cost: $0.00\nTotal sessions: 42\n").is_none());
}

#[test]
fn extracts_parenthesized_reset_without_dropping_timezone() {
    let usage = extract_claude_usage(
        "Current session: 7.5% used (resets Aug 25, 2:29pm (America/Los_Angeles))",
    )
    .unwrap();

    assert_eq!(usage.limits[0].used_percent, "7.5");
    assert_eq!(
        usage.limits[0].reset.as_deref(),
        Some("Aug 25, 2:29pm (America/Los_Angeles)")
    );
}

#[test]
fn week_rows_without_a_scope_are_the_seven_day_limit() {
    let usage = extract_claude_usage("  CURRENT WEEK: 12% used\r\n\nCurrent week (): 3% used\n").unwrap();
    assert_eq!(usage.limits.len(), 2);
    assert!(matches!(usage.limits[0].window, ClaudeWindow::SevenDay));
    assert!(matches!(usage.limits[1].window, ClaudeWindow::SevenDay));
    assert!(extract_claude_usage("Current session: no data\n").is_none());
}
