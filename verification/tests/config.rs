use stats::config::{
    path_from, validate, AiDisplayConfig, AmpActivityDisplayConfig, Clock,
    CodexActivityDisplayConfig, Config, SectionDisplayConfig, SectionsConfig,
    SystemDisplayConfig,
};

#[test]
fn uses_xdg_config_home_when_absolute() {
    let path = path_from(Some("/tmp/config"), None).unwrap();
    assert_eq!(path, "/tmp/config/stats/config.toml");
}

#[test]
fn falls_back_to_dot_config_for_relative_xdg_path() {
    let path = path_from(Some("relative"), Some("/Users/example")).unwrap();
    assert_eq!(path, "/Users/example/.config/stats/config.toml");
}

#[test]
fn provider_demand_ignores_heading_only_sections() {
    let sections = SectionsConfig::default();
    let display = SectionDisplayConfig {
        system: SystemDisplayConfig {
            heading: true,
            cpu: false,
            ram: false,
            gpu: false,
            storage: false,
            network: false,
        },
        ai: AiDisplayConfig {
            heading: true,
            amp_plan: false,
            amp_orbs: false,
            amp_credits: false,
            codex_quota: false,
            claude_quota: false,
            antigravity_quota: false,
            cursor_quota: false,
            grok_quota: false,
        },
        amp_activity: AmpActivityDisplayConfig {
            heading: true,
            calendar: false,
            daily_activity: false,
            usage_summary: false,
            models: false,
            sources: false,
            sync_alerts: false,
        },
        codex_activity: CodexActivityDisplayConfig {
            heading: true,
            calendar: false,
            overview: false,
            daily_activity: false,
        },
        ..SectionDisplayConfig::default()
    };

    assert!(!display.system_needed(&sections));
    assert!(!display.amp_ai_needed(&sections));
    assert!(!display.codex_ai_needed(&sections));
    assert!(!display.claude_ai_needed(&sections));
    assert!(!display.antigravity_ai_needed(&sections));
    assert!(!display.cursor_ai_needed(&sections));
    assert!(!display.grok_ai_needed(&sections));
    assert!(!display.amp_activity_needed(&sections));
    assert!(!display.codex_activity_needed(&sections));
}

#[test]
fn default_config_validates_and_needs_every_provider_shown() {
    let config = Config::default();
    assert_eq!(config.version, 2);
    assert_eq!(config.clocks.len(), 4);
    assert_eq!(config.clocks[0].label, "Mumbai");
    assert!(config.sections.amp_activity);
    assert_eq!(config.desktop.font_size, 15);
    assert!(!config.desktop.show_scrollbar);
    assert_eq!(config.refresh.claude_seconds, 300);
    assert_eq!(config.refresh.quota_seconds, 300);
    assert!(validate(&config).is_ok());
    assert!(config.section_display.system_needed(&config.sections));
    assert!(config.section_display.amp_activity_needed(&config.sections));
}

#[test]
fn validate_rejects_other_versions() {
    let mut config = Config::default();
    config.version = 1;
    assert!(validate(&config).unwrap_err().contains("unsupported version 1"));
    config.version = 3;
    assert_eq!(
        validate(&config).unwrap_err(),
        "unsupported version 3; expected 2"
    );
}

#[test]
fn validate_rejects_an_enabled_section_without_display_options() {
    let mut config = Config::default();
    config.section_display.system = SystemDisplayConfig {
        heading: false,
        cpu: false,
        ram: false,
        gpu: false,
        storage: false,
        network: false,
    };
    assert!(validate(&config)
        .unwrap_err()
        .contains("sections.system requires at least one section_display.system option"));
    config.sections.system = false;
    assert!(validate(&config).is_ok());
    assert!(!config.section_display.system.any());
}

#[test]
fn validate_rejects_an_unknown_timezone() {
    let mut config = Config::default();
    config.clocks[0] = Clock {
        label: "Mumbai".to_string(),
        timezone: "Nowhere/Unknown".to_string(),
    };
    assert!(validate(&config)
        .unwrap_err()
        .contains("unknown clock timezone"));
}
