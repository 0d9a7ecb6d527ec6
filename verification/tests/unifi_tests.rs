use std::time::Duration;
use unifi_exporter::unifi::AuthMethod;
use unifi_exporter::unifi::AuthStatus;
use unifi_exporter::unifi::DataAction;
use unifi_exporter::unifi::FetchPhase;
use unifi_exporter::unifi::UniFiClient;
use unifi_exporter::unifi::UniFiError;

fn api_key_client() -> UniFiClient {
    UniFiClient::new(
        "https://192.168.1.1:8443".to_string(),
        Some("test-api-key".to_string()),
        None,
        None,
        "default".to_string(),
        Duration::from_secs(10),
        false,
    )
    .unwrap()
}

fn user_pass_client() -> UniFiClient {
    UniFiClient::new(
        "https://192.168.1.1:8443".to_string(),
        None,
        Some("admin".to_string()),
        Some("password".to_string()),
        "default".to_string(),
        Duration::from_secs(10),
        false,
    )
    .unwrap()
}

#[test]
fn test_unifi_client_creation_with_api_key() {
    let client = UniFiClient::new(
        "https://192.168.1.1:8443".to_string(),
        Some("test-api-key".to_string()),
        None,
        None,
        "default".to_string(),
        Duration::from_secs(10),
        false,
    );
    assert!(client.is_ok());
    let client = client.unwrap();
    assert_eq!(client.site, "default");
    assert_eq!(client.base_url, "https://192.168.1.1:8443");
}

#[test]
fn test_unifi_client_creation_with_username_password() {
    let client = UniFiClient::new(
        "https://192.168.1.1:8443".to_string(),
        None,
        Some("admin".to_string()),
        Some("password".to_string()),
        "default".to_string(),
        Duration::from_secs(10),
        false,
    );
    assert!(client.is_ok());
}

#[test]
fn test_unifi_client_creation_missing_auth() {
    let client = UniFiClient::new(
        "https://192.168.1.1:8443".to_string(),
        None,
        None,
        None,
        "default".to_string(),
        Duration::from_secs(10),
        false,
    );
    assert!(client.is_err());
    let err = client.err().unwrap();
    assert!(err
        .to_string()
        .contains("Either API key or username/password must be provided"));
}

#[test]
fn test_unifi_client_strips_trailing_slash() {
    let client = UniFiClient::new(
        "https://192.168.1.1:8443/".to_string(),
        Some("test-api-key".to_string()),
        None,
        None,
        "default".to_string(),
        Duration::from_secs(10),
        false,
    )
    .unwrap();
    assert_eq!(client.base_url, "https://192.168.1.1:8443");
}

#[test]
fn test_unifi_error_display() {
    let error = UniFiError::AuthenticationFailed;
    assert_eq!(error.message(), "Authentication failed");

    let error = UniFiError::ParseError("Invalid JSON".to_string());
    assert_eq!(error.message(), "Failed to parse response: Invalid JSON");
}

#[test]
fn test_unifi_error_request_failed_message() {
    let error = UniFiError::RequestFailed("connection refused".to_string());
    assert_eq!(error.message(), "HTTP request failed: connection refused");
}

#[test]
fn test_ensure_authenticated_with_api_key() {
    let client = api_key_client();
    // API key auth is always valid without a login.
    let result = client.ensure_authenticated();
    assert_eq!(result, AuthStatus::Valid);
}

#[test]
fn test_ensure_authenticated_requires_login_without_token() {
    let mut client = user_pass_client();
    assert_eq!(client.ensure_authenticated(), AuthStatus::LoginRequired);
    let cookies = vec!["unifises=abc".to_string()];
    client.login_outcome(true, &cookies).unwrap();
    assert_eq!(client.ensure_authenticated(), AuthStatus::Valid);
    client.invalidate();
    assert_eq!(client.ensure_authenticated(), AuthStatus::LoginRequired);
}

#[test]
fn test_login_request_shape() {
    let client = user_pass_client();
    let (url, body) = client.login_request();
    assert_eq!(url, "https://192.168.1.1:8443/api/login");
    assert_eq!(body.username, "admin");
    assert_eq!(body.password, "password");
    assert_eq!(body.remember, false);
}

#[test]
fn test_login_outcome_joins_cookies() {
    let mut client = user_pass_client();
    let cookies = vec![
        "unifises=abc; Path=/".to_string(),
        "csrf_token=xyz".to_string(),
    ];
    assert!(client.login_outcome(true, &cookies).is_ok());
    let (header, value) = client.attach();
    assert_eq!(header, "Cookie");
    assert_eq!(value, "unifises=abc; Path=/; csrf_token=xyz");
}

#[test]
fn test_login_outcome_rejects_failure_status() {
    let mut client = user_pass_client();
    let cookies = vec!["unifises=abc".to_string()];
    let r = client.login_outcome(false, &cookies);
    assert!(matches!(r, Err(UniFiError::AuthenticationFailed)));
    assert_eq!(client.ensure_authenticated(), AuthStatus::LoginRequired);
}

#[test]
fn test_login_outcome_rejects_missing_cookies() {
    let mut client = user_pass_client();
    let r = client.login_outcome(true, &Vec::new());
    assert!(matches!(r, Err(UniFiError::AuthenticationFailed)));
}

#[test]
fn test_attach_api_key_header() {
    let client = api_key_client();
    let (header, value) = client.attach();
    assert_eq!(header, "X-API-KEY");
    assert_eq!(value, "test-api-key");
}

#[test]
fn test_data_urls_by_scheme() {
    let key = api_key_client();
    assert_eq!(
        key.device_stats_url(),
        "https://192.168.1.1:8443/proxy/network/api/s/default/stat/device"
    );
    assert_eq!(
        key.client_stats_url(),
        "https://192.168.1.1:8443/proxy/network/api/s/default/stat/sta"
    );
    assert_eq!(
        key.sites_url(),
        "https://192.168.1.1:8443/proxy/network/integration/v1/sites"
    );

    let pass = user_pass_client();
    assert_eq!(
        pass.device_stats_url(),
        "https://192.168.1.1:8443/api/s/default/stat/device"
    );
    assert_eq!(
        pass.client_stats_url(),
        "https://192.168.1.1:8443/api/s/default/stat/sta"
    );
    assert_eq!(pass.sites_url(), "https://192.168.1.1:8443/api/self/sites");
}

#[test]
fn test_reauthentication_retries_exactly_once() {
    // A 401 on a first password-authenticated data request invalidates the
    // session and demands one re-login and retry; a 401 on the retried
    // request surfaces an authentication failure, never another retry.
    let mut client = user_pass_client();
    let cookies = vec!["unifises=abc".to_string()];
    client.login_outcome(true, &cookies).unwrap();

    let first = client.handle_data_status(FetchPhase::First, 401);
    assert!(matches!(first, DataAction::Relogin));
    assert_eq!(client.ensure_authenticated(), AuthStatus::LoginRequired);

    client.login_outcome(true, &cookies).unwrap();
    let second = client.handle_data_status(FetchPhase::Retried, 401);
    assert!(matches!(
        second,
        DataAction::Fail(UniFiError::AuthenticationFailed)
    ));
}

#[test]
fn test_data_status_success_proceeds() {
    let mut client = api_key_client();
    assert!(matches!(
        client.handle_data_status(FetchPhase::First, 200),
        DataAction::Proceed
    ));
    assert!(matches!(
        client.handle_data_status(FetchPhase::First, 299),
        DataAction::Proceed
    ));
}

#[test]
fn test_data_status_other_failures_are_parse_errors() {
    let mut client = user_pass_client();
    match client.handle_data_status(FetchPhase::First, 500) {
        DataAction::Fail(UniFiError::ParseError(m)) => {
            assert_eq!(m, "API request failed with status: 500");
        }
        other => panic!("unexpected action: {:?}", other),
    }
    // A 401 under key authentication is not retried; it is a parse-class
    // failure naming the status.
    let mut key = api_key_client();
    match key.handle_data_status(FetchPhase::First, 401) {
        DataAction::Fail(UniFiError::ParseError(m)) => {
            assert_eq!(m, "API request failed with status: 401");
        }
        other => panic!("unexpected action: {:?}", other),
    }
}

#[test]
fn test_auth_method_held_as_given() {
    let client = user_pass_client();
    match &client.auth_method {
        AuthMethod::UserPass { username, password } => {
            assert_eq!(username, "admin");
            assert_eq!(password, "password");
        }
        AuthMethod::ApiKey(_) => panic!("expected password authentication"),
    }
}
