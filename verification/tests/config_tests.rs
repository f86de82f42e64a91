use iron_shield::config::{
    default_site_name, is_reload_trigger, ChangeKind, Clock, Config, Site, CONFIG_FILE,
    DEFAULT_MONITOR_INTERVAL_SECS, MIN_MONITOR_INTERVAL_SECS,
};

#[test]
fn default_site_name_returns_expected_value() {
    assert_eq!(default_site_name(), "Iron Shield Dashboard");
}

#[test]
fn clock_display_formats_all_variants() {
    assert_eq!(Clock::Hour24.to_string(), "24hour");
    assert_eq!(Clock::Hour12.to_string(), "12hour");
    assert_eq!(Clock::NoClock.to_string(), "none");
    assert_eq!(Clock::default(), Clock::NoClock);
}

#[test]
fn site_creation_with_all_fields() {
    let site = Site {
        name: "Test Site".to_string(),
        url: "https://test.com".to_string(),
        category: "Test Category".to_string(),
        tags: vec!["test".to_string(), "example".to_string()],
        monitor_interval_secs: DEFAULT_MONITOR_INTERVAL_SECS,
        disabled: false,
        uptime_percentage: 9950,
    };

    assert_eq!(site.name, "Test Site");
    assert_eq!(site.url, "https://test.com");
    assert_eq!(site.category, "Test Category");
    assert_eq!(site.tags, vec!["test".to_string(), "example".to_string()]);
    assert!((site.uptime_percentage as f64 / 100.0 - 99.5).abs() < f64::EPSILON);
}

#[test]
fn site_creation_with_default_category() {
    let site = Site {
        name: "Test Site".to_string(),
        url: "https://test.com".to_string(),
        category: String::default(),
        tags: vec![],
        monitor_interval_secs: DEFAULT_MONITOR_INTERVAL_SECS,
        disabled: false,
        uptime_percentage: Default::default(),
    };

    assert_eq!(site.category, "");
    assert!((site.uptime_percentage as f64 / 100.0 - 0.0).abs() < f64::EPSILON);
}

#[test]
fn config_default_values() {
    let config = Config::default();

    assert_eq!(config.site_name, "Iron Shield Dashboard");
    assert_eq!(config.clock, Clock::NoClock);
    assert!(config.sites.is_empty());
}

#[test]
fn site_default_uptime_percentage() {
    let site = Site {
        name: "Test Site".to_string(),
        url: "https://example.com".to_string(),
        category: "Test".to_string(),
        tags: vec![],
        monitor_interval_secs: DEFAULT_MONITOR_INTERVAL_SECS,
        disabled: false,
        uptime_percentage: Default::default(),
    };

    assert!((site.uptime_percentage as f64 / 100.0 - 0.0).abs() < f64::EPSILON);
}

#[test]
fn clock_parse_reads_the_three_formats() {
    assert_eq!(Clock::parse("24hour"), Some(Clock::Hour24));
    assert_eq!(Clock::parse("12hour"), Some(Clock::Hour12));
    assert_eq!(Clock::parse("none"), Some(Clock::NoClock));
    assert_eq!(Clock::parse("None"), None);
    assert_eq!(Clock::parse(""), None);
    assert_eq!(Clock::parse("24hour "), None);
    for clock in [Clock::Hour24, Clock::Hour12, Clock::NoClock] {
        assert_eq!(Clock::parse(&clock.to_string()), Some(clock));
    }
}

#[test]
fn config_constants() {
    assert_eq!(CONFIG_FILE, "config.json5");
    assert!(MIN_MONITOR_INTERVAL_SECS >= 1);
    assert!(DEFAULT_MONITOR_INTERVAL_SECS >= MIN_MONITOR_INTERVAL_SECS);
    assert!(Config::default().opentelemetry_endpoint.is_none());
}

#[test]
fn reload_is_triggered_by_changes_to_the_config_file() {
    let paths = vec![false, true];
    assert!(is_reload_trigger(ChangeKind::Modify, &paths));
    assert!(is_reload_trigger(ChangeKind::Create, &paths));
    assert!(is_reload_trigger(ChangeKind::Remove, &paths));
    assert!(!is_reload_trigger(ChangeKind::Other, &paths));
    assert!(!is_reload_trigger(ChangeKind::Modify, &vec![false, false]));
    assert!(!is_reload_trigger(ChangeKind::Modify, &vec![]));
    assert!(is_reload_trigger(ChangeKind::Remove, &vec![true]));
}
