use proxypass::config::{AuthMethod, Config};

#[test]
fn default_config_values() {
    let c = Config::default();
    assert_eq!(c.proxy.pac, None);
    assert_eq!(c.proxy.proxy, None);
    assert_eq!(c.proxy.port, 3128);
    assert_eq!(c.proxy.listen, "127.0.0.1");
    assert_eq!(c.proxy.no_proxy, vec!["localhost", "127.0.0.1", "*.local"]);
    assert_eq!(c.auth.username, None);
    assert_eq!(c.auth.method, AuthMethod::Negotiate);
    assert_eq!(c.pac.cache_ttl, 300);
    assert!(c.pac.reload_on_network_change);
    assert_eq!(c.log.level, "info");
    assert_eq!(c.log.file.as_deref(), Some("/tmp/proxypass.log"));
}
