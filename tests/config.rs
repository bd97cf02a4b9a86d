use waytray_daemon::config::{
    BatteryModuleConfig, ClockModuleConfig, Config, ScriptModuleConfig, DEFAULT_CONFIG,
};

#[test]
fn test_default_config() {
    let config = Config::default();
    assert!(config.modules.tray.enabled);
    assert!(config.modules.battery.is_none());
    assert!(config.notifications.enabled);
}

#[test]
fn test_module_order() {
    let mut config = Config::default();
    config.modules.order = vec!["battery".to_string(), "tray".to_string()];
    config.modules.tray.enabled = true;
    config.modules.battery = Some(BatteryModuleConfig::default());
    let order = config.module_order();
    assert_eq!(order[0], "battery");
    assert_eq!(order[1], "tray");
}

#[test]
fn module_order_appends_unlisted_enabled_modules() {
    let mut config = Config::default();
    config.modules.order = vec!["clock".to_string()];
    let mut clock = ClockModuleConfig::default();
    clock.enabled = true;
    config.modules.clock = Some(clock);
    let mut battery = BatteryModuleConfig::default();
    battery.enabled = false;
    config.modules.battery = Some(battery);
    config.modules.scripts.push(ScriptModuleConfig {
        name: "my-script".to_string(),
        command: "/path/to/script.sh".to_string(),
        interval_seconds: 30,
        icon: None,
        tooltip: None,
    });
    assert_eq!(config.module_order(), vec!["clock", "tray", "script:my-script"]);
    assert_eq!(config.enabled_modules(), vec!["tray", "clock", "script:my-script"]);
}

#[test]
fn default_sections() {
    let b = BatteryModuleConfig::default();
    assert_eq!((b.low_threshold, b.critical_threshold), (20, 10));
    let c = ClockModuleConfig::default();
    assert_eq!(c.format, "%H:%M");
    assert_eq!(Config::default().notifications.timeout_ms, 5000);
    assert_eq!(Config::default_config_string(), DEFAULT_CONFIG);
    assert!(DEFAULT_CONFIG.contains("[modules.tray]"));
}
