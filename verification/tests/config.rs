use daystrom_tui::config::{
    default_refresh_interval, default_service_timeout, default_theme, default_timeout, default_timezone, Config,
    Protocol, Settings,
};

#[test]
fn defaults_have_documented_values() {
    assert_eq!(default_timeout(), 5);
    assert_eq!(default_service_timeout(), 10);
    assert_eq!(default_refresh_interval(), 5);
    assert_eq!(default_theme(), "default");
    assert_eq!(default_timezone(), "UTC");
}

#[test]
fn default_settings_use_the_defaults() {
    let settings = Settings::default();
    assert_eq!(settings.refresh_interval, 5);
    assert_eq!(settings.log_file, None);
    assert_eq!(settings.theme, "default");
    assert_eq!(settings.timezone, "UTC");
}

#[test]
fn default_config_has_no_hosts() {
    let config = Config::default();
    assert!(config.hosts.is_empty());
    assert_eq!(config.settings, Settings::default());
}

#[test]
fn protocol_names_are_lower_case() {
    assert_eq!(Protocol::Tcp.to_string(), "tcp");
    assert_eq!(Protocol::Udp.to_string(), "udp");
    assert_eq!(Protocol::Http.to_string(), "http");
    assert_eq!(Protocol::Https.to_string(), "https");
}
