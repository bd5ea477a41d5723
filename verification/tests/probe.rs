use stats::probe::{
    cache_dir_from, cache_path, default_interface, listening_ports, port_from_address,
    short_group, short_window, QuotaGroup,
};

#[test]
fn extracts_lsof_listening_port() {
    assert_eq!(port_from_address("127.0.0.1:42123"), Some(42123));
    assert_eq!(port_from_address("TCP"), None);
}

#[test]
fn port_is_taken_after_the_last_colon() {
    assert_eq!(port_from_address("[::1]:8080"), Some(8080));
    assert_eq!(port_from_address("*:70000"), None);
    assert_eq!(port_from_address("host:"), None);
    assert_eq!(port_from_address("host:+80"), Some(80));
}

#[test]
fn lists_the_first_port_of_each_lsof_line() {
    let output = "COMMAND PID USER FD TYPE DEVICE SIZE/OFF NODE NAME\r\nagy 42 me 10u IPv4 0x1 0t0 TCP 127.0.0.1:42123 (LISTEN)\nagy 42 me 11u IPv6 0x2 0t0 TCP [::1]:42124 (LISTEN)\n";
    assert_eq!(listening_ports(output), vec![42123, 42124]);
    assert!(listening_ports("").is_empty());
}

#[test]
fn reads_the_default_route_interface() {
    let output = "   route to: default\ndestination: default\n  interface: en0 \n      flags: <UP,DONE>\n";
    assert_eq!(default_interface(Some(output)), "en0");
    assert_eq!(default_interface(Some("gateway: 10.0.0.1\n")), "network");
    assert_eq!(default_interface(None), "network");
}

#[test]
fn shortens_antigravity_group_and_window_names() {
    assert_eq!(short_group("Gemini Models"), QuotaGroup::Gemini);
    assert_eq!(short_group("Other Models"), QuotaGroup::Other);
    assert_eq!(short_window("Weekly Limit"), "7d");
    assert_eq!(short_window("Five Hour Limit"), "5h");
    assert_eq!(short_window("5-hour"), "5h");
    assert_eq!(short_window("Daily"), "Daily");
}

#[test]
fn places_usage_caches_under_the_cache_directory() {
    assert_eq!(
        cache_dir_from(Some("/Users/me/Library/Caches"), Some("/Users/me")),
        "/Users/me/Library/Caches/stats"
    );
    assert_eq!(cache_dir_from(None, Some("/home/me")), "/home/me/stats");
    assert_eq!(cache_dir_from(None, None), "./stats");
    assert_eq!(
        cache_path("/home/me/stats", "amp"),
        "/home/me/stats/amp-usage.json"
    );
}
