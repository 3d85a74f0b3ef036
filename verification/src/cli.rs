//! The decisions behind the command-line commands: the addresses the proxy
//! listens on and is tested through, which user a password belongs to, and
//! which log filter applies.
use vstd::prelude::*;

use crate::config::Config;
use crate::text::{chars_of, decimal_digits, push_chars, push_str, string_from_chars, u32_decimal};

verus! {

broadcast use vstd::string::group_string_axioms;

/// The URL `proxypass test` fetches when none is given.
pub const DEFAULT_TEST_URL: &'static str = "https://www.google.com";

/// What the command line asks for.
pub enum Commands {
    /// Start the proxy daemon; with `foreground` run it in this process
    /// (as launchd does), else ask the service manager to start it.
    Start { foreground: bool },
    /// Stop the proxy daemon.
    Stop,
    /// Restart the proxy daemon.
    Restart,
    /// Show the daemon's status.
    Status,
    /// Fetch `url` through the proxy.
    Test { url: String },
    /// Open the configuration file in `$EDITOR`.
    Config,
    /// Store or update the proxy password in the OS keychain.
    Password,
    /// Install the daemon as a service that starts at login.
    Install,
    /// Remove that service.
    Uninstall,
}

/// The parsed command line.
pub struct Cli {
    pub command: Commands,
}

/// The keychain service name passwords are stored under.
pub const KEYCHAIN_SERVICE: &'static str = "proxypass";

/// `listen:port`.
pub open spec fn listen_address_spec(cfg: Config) -> Seq<char> {
    cfg.proxy.listen@ + ":"@ + decimal_digits(cfg.proxy.port as nat)
}

/// The socket address the proxy listens on, as text.
pub fn listen_address(cfg: &Config) -> (r: String)
    ensures
        r@ == listen_address_spec(*cfg),
{
    let mut out = chars_of(cfg.proxy.listen.as_str());
    push_str(&mut out, ":");
    let d = u32_decimal(cfg.proxy.port as u32);
    push_chars(&mut out, d.as_slice());
    string_from_chars(out.as_slice())
}

/// The proxy URL a test request goes through: `http://listen:port`.
pub fn proxy_url(cfg: &Config) -> (r: String)
    ensures
        r@ == "http://"@ + listen_address_spec(*cfg),
{
    let addr = listen_address(cfg);
    let mut out = chars_of("http://");
    push_str(&mut out, addr.as_str());
    string_from_chars(out.as_slice())
}

/// A test request worked when its status is a success or a redirection.
pub fn test_succeeded(status: u16) -> (r: bool)
    ensures
        r == (200 <= status < 400),
{
    200 <= status && status < 400
}

/// Why a command cannot proceed.
#[derive(Debug, Clone, Copy, PartialEq, Eq, Structural)]
pub enum CliError {
    /// The configuration names no user to store a password for.
    NoUsername,
}

/// The user whose keychain password `proxypass password` sets.
pub fn password_username(cfg: &Config) -> (r: Result<String, CliError>)
    ensures
        match cfg.auth.username {
            Some(u) => r matches Ok(s) && s@ == u@,
            None => r == Err::<String, CliError>(CliError::NoUsername),
        },
{
    match &cfg.auth.username {
        Some(u) => Ok(u.clone()),
        None => Err(CliError::NoUsername),
    }
}

/// The log filter: the `RUST_LOG` value when it is set, else the configured level.
pub fn log_filter(rust_log: Option<String>, cfg: &Config) -> (r: String)
    ensures
        match rust_log {
            Some(v) => r == v,
            None => r@ == cfg.log.level@,
        },
{
    match rust_log {
        Some(v) => v,
        None => cfg.log.level.clone(),
    }
}

} // verus!
