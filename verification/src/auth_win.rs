//! Authentication on platforms without GSSAPI (Windows): Negotiate is
//! unavailable, so every challenge is answered with Basic credentials.
use vstd::prelude::*;

pub use crate::auth::{
    basic_token, detect_scheme, extract_negotiate_challenge, extract_proxy_authenticate,
    resolve_basic_auth, resolve_basic_credentials, resolve_basic_credentials_from_password,
    AuthScheme, CredentialError, NegotiateError,
};
pub use crate::spnego::{spnego_cache, SpnegoCache};

use crate::auth::{basic_token_spec, passwords_fit};

verus! {

/// A Negotiate context; never created on these platforms.
pub struct NegotiateContext;

/// Negotiate cannot start here: always an error.
pub fn negotiate_init(_proxy_host: &str, _proxy_port: u16) -> (r: Result<(String, NegotiateContext), NegotiateError>)
    ensures
        r matches Err(NegotiateError::Unsupported),
{
    Err(NegotiateError::Unsupported)
}

/// No Negotiate round can run here: always an error.
pub fn negotiate_step(_ctx: &mut NegotiateContext, _challenge: &[u8]) -> (r: Result<Option<String>, NegotiateError>)
    ensures
        r matches Err(NegotiateError::Unsupported),
{
    Err(NegotiateError::Unsupported)
}

/// The `Proxy-Authorization` value a forwarded request is retried with:
/// Basic credentials for the configured user whatever the challenge, or
/// nothing when there is no user or password.
pub fn build_forward_auth_header<E, F: FnOnce(&str) -> Result<String, E>>(
    _proxy_authenticate: &str,
    _upstream_host: &str,
    _upstream_port: u16,
    username: Option<&str>,
    get_password: F,
) -> (r: Result<Option<String>, NegotiateError>)
    requires
        username matches Some(u) ==> call_requires(get_password, (u,)) && passwords_fit(
            u@,
            get_password,
        ),
    ensures
        username is None ==> r == Ok::<Option<String>, NegotiateError>(None),
        username matches Some(u) ==> exists|p: Result<String, E>|
            #[trigger] call_ensures(get_password, (u,), p) && match p {
                Ok(pw) => r matches Ok(Some(t)) && t@ == basic_token_spec(u@, pw@),
                Err(_) => r == Ok::<Option<String>, NegotiateError>(None),
            },
{
    Ok(resolve_basic_auth(username, get_password))
}

/// There is no second Negotiate round here: never a header.
pub fn negotiate_round2(_proxy_authenticate: &str, _upstream_host: &str, _upstream_port: u16) -> (r:
    Result<Option<String>, NegotiateError>)
    ensures
        r == Ok::<Option<String>, NegotiateError>(None),
{
    Ok(None)
}

} // verus!
