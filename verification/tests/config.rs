use indexer::config::{AppConfig, GlobalDefaults, LogLevel, ProviderConfig, VectorDbConfig};

#[test]
fn test_config_getters() {
    let gd = GlobalDefaults { provider: "prov".to_string(), db: "db".to_string() };
    assert_eq!(gd.provider(), "prov");
    assert_eq!(gd.db(), "db");
    let pc = ProviderConfig { api_key: "key".to_string(), model: "mod".to_string() };
    assert_eq!(pc.api_key(), "key");
    assert_eq!(pc.model(), "mod");
    let vdb = VectorDbConfig { url: "url".to_string(), key_prefix: "kp".to_string() };
    assert_eq!(vdb.url(), "url");
    assert_eq!(vdb.key_prefix(), "kp");
}

#[test]
fn test_provider_selection_from_config() {
    let mut config = AppConfig::default();
    config.global_defaults = Some(GlobalDefaults {
        provider: "openai".to_string(),
        db: "redis".to_string(),
    });
    let provider = config.global_defaults.as_ref().unwrap().provider.clone();
    assert_eq!(provider, "openai");
}

#[test]
fn test_provider_missing_in_config() {
    let config = AppConfig::default();
    let result = config.global_defaults.as_ref().map(|gd| gd.provider.clone());
    assert!(result.is_none(), "Should be None if provider missing in config");
}

#[test]
fn test_default_config_is_empty() {
    let config = AppConfig::default();
    assert!(config.redis_url.is_none());
    assert!(config.log_level.is_none());
    assert!(config.providers.is_none());
    assert!(config.vector_dbs.is_none());
}

#[test]
fn test_log_level_names() {
    let mut config = AppConfig::default();
    assert_eq!(config.level(), LogLevel::Info);
    for (name, level) in [
        ("debug", LogLevel::Debug),
        ("warn", LogLevel::Warn),
        ("error", LogLevel::Error),
        ("trace", LogLevel::Trace),
        ("info", LogLevel::Info),
        ("loud", LogLevel::Info),
        ("", LogLevel::Info),
    ] {
        config.log_level = Some(name.to_string());
        assert_eq!(config.level(), level);
    }
}
