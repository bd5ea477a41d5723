use stats::cli::{
    config_path_args, configured_args, env_u64, is_executable, mode_from_argv0, parse_next_u64,
    scan_args, Action, Mode,
};
use stats::config::{Clock, Config};

fn words(args: &[&str]) -> Vec<String> {
    args.iter().map(|a| a.to_string()).collect()
}

#[test]
fn reads_flags_and_their_values() {
    let scan = scan_args(&words(&[
        "--once",
        "-i",
        "30",
        "--amp-interval",
        "120",
        "--config",
        "/tmp/c.toml",
    ]))
    .unwrap();
    assert!(scan.once);
    assert_eq!(scan.interval, Some(30));
    assert_eq!(scan.amp_interval, Some(120));
    assert_eq!(scan.storage_interval, None);
    assert_eq!(scan.config_path.as_deref(), Some("/tmp/c.toml"));
    assert!(!scan.help);
}

#[test]
fn reports_command_line_errors() {
    assert_eq!(
        scan_args(&words(&["config", "show"])).unwrap_err(),
        "expected `stats config path`"
    );
    assert_eq!(
        scan_args(&words(&["--config"])).unwrap_err(),
        "--config requires a path"
    );
    assert_eq!(
        scan_args(&words(&["--interval"])).unwrap_err(),
        "--interval requires a value"
    );
    assert_eq!(
        scan_args(&words(&["-i", "soon"])).unwrap_err(),
        "-i requires an integer value"
    );
    assert_eq!(
        scan_args(&words(&["--bogus"])).unwrap_err(),
        "unknown argument: --bogus"
    );
}

#[test]
fn help_stops_reading() {
    let scan = scan_args(&words(&["--help", "--bogus"])).unwrap();
    assert!(scan.help);
    let scan = scan_args(&words(&["config", "path", "--codex-usage-status"])).unwrap();
    assert!(scan.config_path_action);
    assert!(scan.codex_usage_status);
}

#[test]
fn parses_the_value_after_a_flag() {
    assert_eq!(parse_next_u64(Some("42"), "-i"), Ok(42));
    assert_eq!(
        parse_next_u64(None, "--storage-interval"),
        Err("--storage-interval requires a value".to_string())
    );
    assert_eq!(
        parse_next_u64(Some("-1"), "-i"),
        Err("-i requires an integer value".to_string())
    );
    assert_eq!(env_u64(Some("90"), 5), 90);
    assert_eq!(env_u64(Some("x"), 5), 5);
    assert_eq!(env_u64(None, 5), 5);
}

#[test]
fn picks_the_mode_from_the_program_name() {
    assert_eq!(
        mode_from_argv0(Some("/usr/local/bin/codex-usage-status")),
        Mode::CodexUsageStatus
    );
    assert_eq!(mode_from_argv0(Some("/usr/local/bin/stats")), Mode::Stats);
    assert_eq!(mode_from_argv0(None), Mode::Stats);
}

#[test]
fn flags_beat_environment_and_configuration() {
    let scan = scan_args(&words(&["--amp-interval", "90"])).unwrap();
    let args = configured_args(
        &scan,
        Mode::Stats,
        "/tmp/c.toml".to_string(),
        Config::default(),
        Some("15"),
        Some("600"),
        Some("10"),
        None,
    )
    .unwrap();
    assert_eq!(args.action, Action::Run);
    assert_eq!(args.interval, 15);
    assert_eq!(args.amp_interval, 90);
    assert_eq!(args.storage_interval, 60);
    assert_eq!(args.clocks.len(), 4);
}

#[test]
fn rejects_too_short_intervals() {
    let scan = scan_args(&words(&["-i", "4"])).unwrap();
    assert_eq!(
        configured_args(
            &scan,
            Mode::Stats,
            String::new(),
            Config::default(),
            None,
            None,
            None,
            None
        )
        .unwrap_err(),
        "interval must be an integer >= 5 seconds"
    );
    let scan = scan_args(&words(&["--amp-interval", "59"])).unwrap();
    assert_eq!(
        configured_args(
            &scan,
            Mode::Stats,
            String::new(),
            Config::default(),
            None,
            None,
            None,
            None
        )
        .unwrap_err(),
        "amp interval must be an integer >= 60 seconds"
    );
}

#[test]
fn environment_clocks_replace_the_configured_ones_only_when_valid() {
    let scan = scan_args(&[]).unwrap();
    let clock = |label: &str, timezone: &str| Clock {
        label: label.to_string(),
        timezone: timezone.to_string(),
    };
    let london = vec![
        clock("London", "Europe/London"),
        clock("Tokyo", "Asia/Tokyo"),
        clock("Paris", "Europe/Paris"),
        clock("Seattle", "America/Los_Angeles"),
    ];
    let args = configured_args(
        &scan,
        Mode::Stats,
        String::new(),
        Config::default(),
        None,
        None,
        None,
        Some(london),
    )
    .unwrap();
    assert_eq!(args.clocks[0].label, "London");
    let bad = vec![clock("London", "Europe/London")];
    let args = configured_args(
        &scan,
        Mode::Stats,
        String::new(),
        Config::default(),
        None,
        None,
        None,
        Some(bad),
    )
    .unwrap();
    assert_eq!(args.clocks[0].label, "Mumbai");
}

#[test]
fn config_path_uses_default_settings() {
    let scan = scan_args(&words(&["config", "path"])).unwrap();
    let args = config_path_args(&scan, Mode::Stats, "/tmp/c.toml".to_string());
    assert_eq!(args.action, Action::ConfigPath);
    assert_eq!(args.interval, 60);
    assert_eq!(args.amp_interval, 300);
    assert_eq!(args.storage_interval, 300);
    assert_eq!(args.config_path, "/tmp/c.toml");
}

#[test]
fn execute_bits_make_a_file_executable() {
    assert!(is_executable(0o755));
    assert!(is_executable(0o001));
    assert!(!is_executable(0o644));
}
