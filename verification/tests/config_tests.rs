use rustagent::config::{ApiKeyConfig, KeySource, API_KEY_ENV, CONFIG_FILE_NAME};
use rustagent::platform::HostOs;

#[test]
fn validate_rejects_empty() {
    let cfg = ApiKeyConfig {
        key: String::new(),
        source: KeySource::Missing,
    };
    assert!(cfg.validate("/home/u/.config/rustagent/config.toml").is_err());
}

#[test]
fn validate_rejects_whitespace() {
    let cfg = ApiKeyConfig {
        key: "abc def".to_string(),
        source: KeySource::Environment,
    };
    assert!(cfg.validate("/home/u/.config/rustagent/config.toml").is_err());
}

#[test]
fn validate_accepts_valid_key() {
    let cfg = ApiKeyConfig {
        key: "sk-1234567890abcdef".to_string(),
        source: KeySource::Environment,
    };
    assert!(cfg.validate("/home/u/.config/rustagent/config.toml").is_ok());
}

#[test]
fn validate_messages_name_the_sources() {
    let missing = ApiKeyConfig {
        key: "  \t".to_string(),
        source: KeySource::Missing,
    };
    assert_eq!(
        missing.validate("/cfg/config.toml"),
        Err("No Albert API key found. Set the ALBERT_API_KEY environment variable or create a config file at /cfg/config.toml.".to_string())
    );
    let spaced = ApiKeyConfig {
        key: "sk-abc\n".to_string(),
        source: KeySource::ConfigFile,
    };
    assert_eq!(
        spaced.validate("/cfg/config.toml"),
        Err("The Albert API key contains whitespace and looks invalid.".to_string())
    );
}

#[test]
fn environment_key_takes_precedence() {
    let cfg = ApiKeyConfig::resolve(Some("  sk-env  "), Some("sk-file"));
    assert_eq!(cfg.key, "sk-env");
    assert_eq!(cfg.source, KeySource::Environment);
}

#[test]
fn blank_environment_key_falls_back_to_file() {
    let cfg = ApiKeyConfig::resolve(Some("   "), Some("\tsk-file\n"));
    assert_eq!(cfg.key, "sk-file");
    assert_eq!(cfg.source, KeySource::ConfigFile);
    let cfg = ApiKeyConfig::resolve(None, Some("sk-file"));
    assert_eq!(cfg.source, KeySource::ConfigFile);
}

#[test]
fn no_key_anywhere_is_missing() {
    let cfg = ApiKeyConfig::resolve(None, None);
    assert_eq!(cfg.key, "");
    assert_eq!(cfg.source, KeySource::Missing);
    let cfg = ApiKeyConfig::resolve(Some(""), Some(" "));
    assert_eq!(cfg.source, KeySource::Missing);
    assert!(cfg.validate("x").is_err());
}

#[test]
fn config_file_path_joins_the_file_name() {
    assert_eq!(CONFIG_FILE_NAME, "config.toml");
    assert_eq!(API_KEY_ENV, "ALBERT_API_KEY");
    assert_eq!(
        ApiKeyConfig::config_file_path(HostOs::Linux, "/home/u/.config/rustagent"),
        "/home/u/.config/rustagent/config.toml"
    );
    assert_eq!(
        ApiKeyConfig::config_file_path(HostOs::Linux, "/etc/"),
        "/etc/config.toml"
    );
    assert_eq!(
        ApiKeyConfig::config_file_path(HostOs::Windows, "C:\\Users\\u\\AppData\\Roaming\\rustagent"),
        "C:\\Users\\u\\AppData\\Roaming\\rustagent\\config.toml"
    );
    assert_eq!(ApiKeyConfig::config_file_path(HostOs::Linux, ""), "config.toml");
}

#[test]
fn file_config_holds_the_key() {
    let cfg = ApiKeyConfig {
        key: "sk-1".to_string(),
        source: KeySource::Environment,
    };
    assert_eq!(cfg.file_config().api_key, Some("sk-1".to_string()));
}

#[test]
fn saved_valid_key_is_loaded_back() {
    let cfg = ApiKeyConfig {
        key: "sk-roundtrip".to_string(),
        source: KeySource::Environment,
    };
    assert!(cfg.validate("p").is_ok());
    let saved = cfg.file_config();
    let back = ApiKeyConfig::resolve(None, saved.api_key.as_deref());
    assert_eq!(back.key, "sk-roundtrip");
    assert_eq!(back.source, KeySource::ConfigFile);
}
