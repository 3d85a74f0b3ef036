use proxypass::cli::{listen_address, log_filter, password_username, proxy_url, test_succeeded, CliError, KEYCHAIN_SERVICE};
use proxypass::config::Config;

#[test]
fn listen_and_proxy_addresses() {
    let mut c = Config::default();
    assert_eq!(listen_address(&c), "127.0.0.1:3128");
    assert_eq!(proxy_url(&c), "http://127.0.0.1:3128");
    c.proxy.listen = "0.0.0.0".to_string();
    c.proxy.port = 8080;
    assert_eq!(listen_address(&c), "0.0.0.0:8080");
}

#[test]
fn test_status_success_or_redirect() {
    assert!(test_succeeded(200));
    assert!(test_succeeded(301));
    assert!(test_succeeded(399));
    assert!(!test_succeeded(199));
    assert!(!test_succeeded(400));
    assert!(!test_succeeded(502));
}

#[test]
fn password_needs_configured_user() {
    let mut c = Config::default();
    assert_eq!(password_username(&c), Err(CliError::NoUsername));
    c.auth.username = Some("DOMAIN\\user".to_string());
    assert_eq!(password_username(&c), Ok("DOMAIN\\user".to_string()));
    assert_eq!(KEYCHAIN_SERVICE, "proxypass");
}

#[test]
fn log_filter_prefers_environment() {
    let c = Config::default();
    assert_eq!(log_filter(None, &c), "info");
    assert_eq!(log_filter(Some("debug".to_string()), &c), "debug");
}
