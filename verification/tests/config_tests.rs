use std::time::Duration;
use unifi_exporter::config::Config;

fn create_test_config() -> Config {
    Config {
        controller_url: "https://192.168.1.1:8443".to_string(),
        api_key: None,
        username: Some("admin".to_string()),
        password: Some("password".to_string()),
        site: "default".to_string(),
        port: 9897,
        poll_interval: 30,
        log_level: "info".to_string(),
        http_timeout: 10,
        verify_ssl: true,
    }
}

#[test]
fn test_poll_interval_duration() {
    let config = create_test_config();
    assert_eq!(config.poll_interval_duration(), Duration::from_secs(30));
}

#[test]
fn test_http_timeout_duration() {
    let mut config = create_test_config();
    config.http_timeout = 15;
    assert_eq!(config.http_timeout_duration(), Duration::from_secs(15));
}

#[test]
fn test_validate_with_api_key() {
    let mut config = create_test_config();
    config.api_key = Some("test-api-key".to_string());
    config.username = None;
    config.password = None;
    assert!(config.validate().is_ok());
}

#[test]
fn test_validate_with_username_password() {
    let config = create_test_config();
    assert!(config.validate().is_ok());
}

#[test]
fn test_validate_missing_auth() {
    let mut config = create_test_config();
    config.api_key = None;
    config.username = None;
    config.password = None;
    assert!(config.validate().is_err());
    assert_eq!(
        config.validate().unwrap_err(),
        "Either UNIFI_API_KEY or both UNIFI_USERNAME and UNIFI_PASSWORD must be provided"
    );
}

#[test]
fn test_validate_missing_password() {
    let mut config = create_test_config();
    config.api_key = None;
    config.password = None;
    assert!(config.validate().is_err());
}

#[test]
fn test_default_values() {
    let config = Config {
        controller_url: "https://test.local".to_string(),
        api_key: Some("key".to_string()),
        username: None,
        password: None,
        site: "default".to_string(),
        port: 9897,
        poll_interval: 30,
        log_level: "info".to_string(),
        http_timeout: 10,
        verify_ssl: true,
    };
    assert_eq!(config.site, "default");
    assert_eq!(config.port, 9897);
    assert_eq!(config.poll_interval, 30);
    assert_eq!(config.log_level, "info");
    assert_eq!(config.http_timeout, 10);
    assert_eq!(config.verify_ssl, true);
}

#[test]
fn test_validate_empty_url() {
    let mut config = create_test_config();
    config.controller_url = "".to_string();
    assert!(config.validate().is_err());
    assert!(config.validate().unwrap_err().contains("cannot be empty"));
}

#[test]
fn test_validate_invalid_url_scheme() {
    let mut config = create_test_config();
    config.controller_url = "ftp://test.local".to_string();
    assert!(config.validate().is_err());
    assert!(config
        .validate()
        .unwrap_err()
        .contains("must start with http:// or https://"));
}

#[test]
fn test_validate_zero_poll_interval() {
    let mut config = create_test_config();
    config.poll_interval = 0;
    assert!(config.validate().is_err());
    assert!(config
        .validate()
        .unwrap_err()
        .contains("POLL_INTERVAL must be greater than 0"));
}

#[test]
fn test_validate_zero_timeout() {
    let mut config = create_test_config();
    config.http_timeout = 0;
    assert!(config.validate().is_err());
    assert!(config
        .validate()
        .unwrap_err()
        .contains("HTTP_TIMEOUT must be greater than 0"));
}

#[test]
fn test_validate_zero_port() {
    let mut config = create_test_config();
    config.port = 0;
    assert!(config.validate().is_err());
    assert!(config.validate().unwrap_err().contains("METRICS_PORT cannot be 0"));
}

#[test]
fn test_validate_invalid_log_level() {
    let mut config = create_test_config();
    config.log_level = "invalid".to_string();
    assert!(config.validate().is_err());
    assert!(config.validate().unwrap_err().contains("LOG_LEVEL must be one of"));
}

#[test]
fn test_validate_case_insensitive_log_level() {
    let mut config = create_test_config();
    config.log_level = "INFO".to_string();
    assert!(config.validate().is_ok());

    config.log_level = "Debug".to_string();
    assert!(config.validate().is_ok());
}

#[test]
fn test_validate_log_level_message_lists_levels() {
    let mut config = create_test_config();
    config.log_level = "verbose".to_string();
    assert_eq!(
        config.validate().unwrap_err(),
        "LOG_LEVEL must be one of: trace, debug, info, warn, error"
    );
}
