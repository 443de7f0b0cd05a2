use deepdash::config::{
    config_path_summary, config_read_failed, config_write_failed, save_failure_message, validate,
    LauncherConfigService, SaveFailure, StoredConfig, CONFIG_FILE,
};
use deepdash::models::{default_theme, LauncherConfig};

fn config(port: u16, theme: &str) -> LauncherConfig {
    LauncherConfig { port, theme: theme.to_string(), lan_enabled: false, lan_host: None }
}

#[test]
fn default_config_is_valid() {
    let config = LauncherConfig::default();
    assert_eq!(config.port, 3080);
    assert_eq!(config.theme, "system");
    assert_eq!(default_theme(), "system");
    assert!(!config.lan_enabled);
    assert!(config.lan_host.is_none());
    assert!(validate(&config).is_ok());
}

#[test]
fn validates_port_then_theme() {
    assert!(validate(&config(1, "light")).is_ok());
    assert!(validate(&config(65535, "dark")).is_ok());
    let error = validate(&config(0, "purple")).unwrap_err();
    assert_eq!(error.kind, "invalidPort");
    assert_eq!(error.message, "端口必须在 1 到 65535 之间。");
    let error = validate(&config(3080, "purple")).unwrap_err();
    assert_eq!(error.kind, "invalidTheme");
    assert_eq!(error.message, "主题模式无效。");
    assert!(validate(&config(3080, "System")).is_err());
}

#[test]
fn loads_what_was_stored() {
    let service = LauncherConfigService::new("C:/data/launcher-config.json");
    assert_eq!(service.path(), "C:/data/launcher-config.json");
    assert_eq!(CONFIG_FILE, "launcher-config.json");
    let loaded = service.load(StoredConfig::Missing).unwrap();
    assert_eq!(loaded.port, 3080);
    let loaded = service.load(StoredConfig::Parsed(config(4000, "dark"))).unwrap();
    assert_eq!(loaded.port, 4000);
    assert_eq!(loaded.theme, "dark");
    assert_eq!(
        service.load(StoredConfig::Unreadable("denied".to_string())).unwrap_err(),
        "无法读取启动器配置：denied"
    );
    assert_eq!(
        service.load(StoredConfig::Malformed("eof".to_string())).unwrap_err(),
        "启动器配置格式无效：eof"
    );
    assert_eq!(
        service.load(StoredConfig::Parsed(config(0, "dark"))).unwrap_err(),
        "端口必须在 1 到 65535 之间。"
    );
}

#[test]
fn summarises_the_config_path() {
    let service = LauncherConfigService::new("C:/data/launcher-config.json");
    assert_eq!(config_path_summary(&service), "路径：C:/data/launcher-config.json");
    let long = LauncherConfigService::new(&"p".repeat(900));
    assert_eq!(config_path_summary(&long).chars().count(), 800);
    let error = config_read_failed("bad", &service);
    assert_eq!(error.kind, "configReadFailed");
    assert_eq!(error.message, "bad");
    assert_eq!(error.detail.as_deref(), Some("路径：C:/data/launcher-config.json"));
    assert_eq!(config_write_failed("bad", &service).kind, "configWriteFailed");
}

#[test]
fn save_lets_through_only_accepted_configs() {
    let service = LauncherConfigService::new("C:/data/launcher-config.json");
    let saved = service.save(config(4000, "dark")).unwrap();
    assert_eq!(saved.port, 4000);
    assert_eq!(saved.theme, "dark");
    assert_eq!(service.save(config(0, "dark")).unwrap_err(), "端口必须在 1 到 65535 之间。");
    assert_eq!(service.save(config(4000, "blue")).unwrap_err(), "主题模式无效。");
}

#[test]
fn saved_config_loads_back() {
    let service = LauncherConfigService::new("C:/data/launcher-config.json");
    let mut wanted = config(5173, "light");
    wanted.lan_enabled = true;
    wanted.lan_host = Some("192.168.1.4".to_string());
    let saved = service.save(wanted.clone()).unwrap();
    let loaded = service.load(StoredConfig::Parsed(saved)).unwrap();
    assert_eq!(loaded.port, 5173);
    assert_eq!(loaded.theme, "light");
    assert!(loaded.lan_enabled);
    assert_eq!(loaded.lan_host.as_deref(), Some("192.168.1.4"));
}

#[test]
fn save_failures_name_the_stage() {
    assert_eq!(save_failure_message(SaveFailure::Encode("bad".to_string())), "无法编码启动器配置：bad");
    assert_eq!(save_failure_message(SaveFailure::Write("denied".to_string())), "无法保存启动器配置：denied");
}
