//! The proxy's configuration, as read from `proxypass.toml`.
use vstd::prelude::*;

verus! {

broadcast use vstd::string::group_string_axioms;

/// Whole configuration file.
#[derive(Debug, Clone)]
pub struct Config {
    pub proxy: ProxyConfig,
    pub auth: AuthConfig,
    pub pac: PacConfig,
    pub log: LogConfig,
}

/// The `[proxy]` table.
#[derive(Debug, Clone)]
pub struct ProxyConfig {
    /// PAC URL (takes precedence over `proxy`).
    pub pac: Option<String>,
    /// Static upstream proxy `host:port`.
    pub proxy: Option<String>,
    pub port: u16,
    pub listen: String,
    /// Host patterns that bypass every upstream proxy.
    pub no_proxy: Vec<String>,
}

/// The `[auth]` table.
#[derive(Debug, Clone)]
pub struct AuthConfig {
    pub username: Option<String>,
    pub method: AuthMethod,
}

/// How the proxy answers a `407` from the upstream proxy.
#[derive(Debug, Clone, Copy, PartialEq, Eq, Structural)]
pub enum AuthMethod {
    Auto,
    Negotiate,
    Ntlm,
    Basic,
    /// `method = "none"`: never answer a `407`.
    Disabled,
}

/// The method lets the proxy answer with Negotiate: `auto` and
/// `negotiate` (`ntlm`, which the README does not describe, counts as
/// `auto`).
pub open spec fn negotiate_allowed(method: AuthMethod) -> bool {
    method == AuthMethod::Auto || method == AuthMethod::Negotiate || method == AuthMethod::Ntlm
}

/// The method lets the proxy answer with Basic credentials: `auto` and
/// `basic` (`ntlm` counts as `auto`).
pub open spec fn basic_allowed(method: AuthMethod) -> bool {
    method == AuthMethod::Auto || method == AuthMethod::Basic || method == AuthMethod::Ntlm
}

impl AuthMethod {
    /// Whether Negotiate may be used.
    pub fn allows_negotiate(&self) -> (r: bool)
        ensures
            r == negotiate_allowed(*self),
    {
        match self {
            AuthMethod::Auto | AuthMethod::Negotiate | AuthMethod::Ntlm => true,
            _ => false,
        }
    }

    /// Whether Basic credentials may be used.
    pub fn allows_basic(&self) -> (r: bool)
        ensures
            r == basic_allowed(*self),
    {
        match self {
            AuthMethod::Auto | AuthMethod::Basic | AuthMethod::Ntlm => true,
            _ => false,
        }
    }
}

/// The `[pac]` table.
#[derive(Debug, Clone)]
pub struct PacConfig {
    /// Seconds a fetched PAC script (and each answer computed from it) stays fresh.
    pub cache_ttl: u64,
    pub reload_on_network_change: bool,
}

/// The `[log]` table.
#[derive(Debug, Clone)]
pub struct LogConfig {
    pub level: String,
    pub file: Option<String>,
}

/// The configuration written when none exists yet.
pub open spec fn is_default_config(c: Config) -> bool {
    &&& c.proxy.pac is None
    &&& c.proxy.proxy is None
    &&& c.proxy.port == 3128
    &&& c.proxy.listen@ == "127.0.0.1"@
    &&& c.proxy.no_proxy@.len() == 3
    &&& c.proxy.no_proxy@[0]@ == "localhost"@
    &&& c.proxy.no_proxy@[1]@ == "127.0.0.1"@
    &&& c.proxy.no_proxy@[2]@ == "*.local"@
    &&& c.auth.username is None
    &&& c.auth.method == AuthMethod::Negotiate
    &&& c.pac.cache_ttl == 300
    &&& c.pac.reload_on_network_change
    &&& c.log.level@ == "info"@
    &&& c.log.file matches Some(f) && f@ == "/tmp/proxypass.log"@
}

impl Default for Config {
    fn default() -> (c: Self)
        ensures
            is_default_config(c),
    {
        let no_proxy = vec!["localhost".to_string(), "127.0.0.1".to_string(), "*.local".to_string()];
        Config {
            proxy: ProxyConfig {
                pac: None,
                proxy: None,
                port: 3128,
                listen: "127.0.0.1".to_string(),
                no_proxy,
            },
            auth: AuthConfig { username: None, method: AuthMethod::Negotiate },
            pac: PacConfig { cache_ttl: 300, reload_on_network_change: true },
            log: LogConfig {
                level: "info".to_string(),
                file: Some("/tmp/proxypass.log".to_string()),
            },
        }
    }
}

} // verus!
