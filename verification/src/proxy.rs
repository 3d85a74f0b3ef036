//! Request routing: which requests bypass the upstream proxy, how requests
//! and upstream addresses are written, and what authorization a forwarded
//! (non-CONNECT) request is retried with.
use vstd::prelude::*;

use crate::auth::{
    basic_token_spec, detect_scheme, extract_negotiate_challenge, negotiate_challenge_spec,
    passwords_fit, scheme_for, AuthScheme, CredentialError,
};
use crate::codec::{base64_standard_decode, decode_base64, unicode_lowercase};
use crate::pac::{directive_of, parse_pac_result, ProxyDirective};
use crate::config::{basic_allowed, negotiate_allowed, AuthMethod, Config};
use crate::text::{
    before_first, chars_before_first, chars_end_with, chars_eq, chars_of, chars_start_with,
    decimal_digits, ends_with, find_char_from, index_of, parse_u16,
    parse_u16_spec, push_chars, push_str, split_seq, starts_with, string_from_chars, sub_chars,
    u32_decimal,
};

verus! {

broadcast use vstd::string::group_string_axioms;

/// The port used when an upstream proxy address names none (or an invalid one).
pub const DEFAULT_UPSTREAM_PORT: u16 = 3128;

// ─────────────────────────────── no_proxy ───────────────────────────────

/// Whether a `no_proxy` pattern covers `host` (a host name without port):
/// an exact name; `*.suffix` for any host ending in `.suffix`; `prefix.*`
/// for any host starting with `prefix.`.
pub open spec fn pattern_matches(pattern: Seq<char>, host: Seq<char>) -> bool {
    ||| pattern == host
    ||| (starts_with(pattern, "*."@) && ends_with(host, pattern.skip(1)))
    ||| (ends_with(pattern, ".*"@) && starts_with(host, pattern.take(pattern.len() - 1)))
}

/// Some pattern of `patterns` covers `host`.
pub open spec fn no_proxy_spec(host: Seq<char>, patterns: Seq<Seq<char>>) -> bool {
    exists|i: int| 0 <= i < patterns.len() && pattern_matches(#[trigger] patterns[i], host)
}

/// Whether one pattern covers `host`.
pub fn pattern_covers(pattern: &str, host: &[char]) -> (r: bool)
    ensures
        r == pattern_matches(pattern@, host@),
{
    proof {
        reveal_strlit("*.");
        reveal_strlit(".*");
    }
    let p = chars_of(pattern);
    if chars_eq(p.as_slice(), host) {
        return true;
    }
    let star_dot = chars_of("*.");
    if chars_start_with(p.as_slice(), star_dot.as_slice()) {
        let suffix = sub_chars(p.as_slice(), 1, p.len());
        assert(suffix@ == p@.skip(1));
        if chars_end_with(host, suffix.as_slice()) {
            return true;
        }
    }
    let dot_star = chars_of(".*");
    if chars_end_with(p.as_slice(), dot_star.as_slice()) {
        let prefix = sub_chars(p.as_slice(), 0, p.len() - 1);
        assert(prefix@ == p@.take(p@.len() - 1));
        if chars_start_with(host, prefix.as_slice()) {
            return true;
        }
    }
    false
}

/// Whether `host` (`name:port` or `name`) bypasses the upstream proxy.
pub fn is_no_proxy(host: &str, no_proxy: &[String]) -> (r: bool)
    ensures
        r == no_proxy_spec(
            before_first(host@, ':'),
            no_proxy@.map_values(|p: String| p@),
        ),
{
    let hc = chars_of(host);
    let host_only = chars_before_first(hc.as_slice(), ':');
    let ghost pats = no_proxy@.map_values(|p: String| p@);
    let n = no_proxy.len();
    for i in 0..n
        invariant
            n == no_proxy@.len(),
            pats == no_proxy@.map_values(|p: String| p@),
            host_only@ == before_first(host@, ':'),
            forall|j: int| 0 <= j < i ==> !pattern_matches(#[trigger] pats[j], host_only@),
    {
        if pattern_covers(no_proxy[i].as_str(), host_only.as_slice()) {
            assert(pats[i as int] == no_proxy@[i as int]@);
            return true;
        }
    }
    false
}

// ─────────────────────────────── addresses ───────────────────────────────

/// The host part of an upstream address: everything before the first `:`.
pub open spec fn upstream_host_spec(upstream: Seq<char>) -> Seq<char> {
    before_first(upstream, ':')
}

/// The port of an upstream address: the text between the first and second
/// `:` read as a number, 3128 when there is no such text or it is not a
/// valid port.
pub open spec fn upstream_port_spec(upstream: Seq<char>) -> u16 {
    let i = index_of(upstream, ':');
    if i < 0 {
        DEFAULT_UPSTREAM_PORT
    } else {
        match parse_u16_spec(before_first(upstream.skip(i + 1), ':')) {
            Some(p) => p,
            None => DEFAULT_UPSTREAM_PORT,
        }
    }
}

/// Splits an upstream `host:port` address.
pub fn split_upstream(upstream: &str) -> (r: (String, u16))
    ensures
        r.0@ == upstream_host_spec(upstream@),
        r.1 == upstream_port_spec(upstream@),
{
    let cs = chars_of(upstream);
    let host = chars_before_first(cs.as_slice(), ':');
    let found = find_char_from(cs.as_slice(), ':', 0);
    assert(cs@.skip(0) == cs@);
    let port = match found {
        None => DEFAULT_UPSTREAM_PORT,
        Some(i) => {
            let n = cs.len();
            assert(i < n);
            let rest = sub_chars(cs.as_slice(), i + 1, n);
            assert(rest@ == cs@.skip(i + 1));
            let piece = chars_before_first(rest.as_slice(), ':');
            match parse_u16(piece.as_slice()) {
                Some(p) => p,
                None => DEFAULT_UPSTREAM_PORT,
            }
        },
    };
    (string_from_chars(host.as_slice()), port)
}

/// `host:port` for a request: the authority's host with its port (443 for
/// CONNECT and 80 otherwise when it names none); else the `Host` header;
/// else empty.
pub open spec fn request_host_spec(
    authority: Option<(Seq<char>, Option<u16>)>,
    host_header: Option<Seq<char>>,
    is_connect: bool,
) -> Seq<char> {
    match authority {
        Some((h, port)) => {
            let p: u16 = match port {
                Some(p) => p,
                None => if is_connect {
                    443
                } else {
                    80
                },
            };
            h + ":"@ + decimal_digits(p as nat)
        },
        None => match host_header {
            Some(v) => v,
            None => seq![],
        },
    }
}

/// The `host:port` a request is for.  `authority` is the request URI's host
/// and port, `host_header` the `Host` header's value (empty when it is not
/// visible ASCII).
pub fn extract_host(authority: Option<(&str, Option<u16>)>, host_header: Option<&str>, is_connect: bool) -> (r:
    String)
    ensures
        r@ == request_host_spec(
            match authority {
                Some((h, p)) => Some((h@, p)),
                None => None,
            },
            match host_header {
                Some(v) => Some(v@),
                None => None,
            },
            is_connect,
        ),
{
    match authority {
        Some((h, port)) => {
            let p: u16 = match port {
                Some(p) => p,
                None => if is_connect {
                    443
                } else {
                    80
                },
            };
            let mut out = chars_of(h);
            push_str(&mut out, ":");
            let digits = u32_decimal(p as u32);
            push_chars(&mut out, digits.as_slice());
            string_from_chars(out.as_slice())
        },
        None => match host_header {
            Some(v) => v.to_owned(),
            None => String::new(),
        },
    }
}

/// The URL handed to the PAC script: `https://host/path` for CONNECT,
/// `http://host/path` otherwise.
pub open spec fn request_url_spec(is_connect: bool, host: Seq<char>, path: Seq<char>) -> Seq<
    char,
> {
    (if is_connect {
        "https"@
    } else {
        "http"@
    }) + "://"@ + host + path
}

/// The URL a request is evaluated for.
pub fn request_url(is_connect: bool, host: &str, path: &str) -> (r: String)
    ensures
        r@ == request_url_spec(is_connect, host@, path@),
{
    let mut out = if is_connect {
        chars_of("https")
    } else {
        chars_of("http")
    };
    push_str(&mut out, "://");
    push_str(&mut out, host);
    push_str(&mut out, path);
    string_from_chars(out.as_slice())
}

/// A CONNECT request for `target`, with a `Proxy-Authorization` header when
/// a token is given.
pub open spec fn connect_request_spec(target: Seq<char>, token: Option<Seq<char>>) -> Seq<char> {
    match token {
        Some(t) => "CONNECT "@ + target + " HTTP/1.1\r\nHost: "@ + target
            + "\r\nProxy-Authorization: "@ + t + "\r\n\r\n"@,
        None => "CONNECT "@ + target + " HTTP/1.1\r\nHost: "@ + target + "\r\n\r\n"@,
    }
}

/// The raw CONNECT request sent to the upstream proxy.
pub fn connect_request(target: &str, token: Option<&str>) -> (r: String)
    ensures
        r@ == connect_request_spec(
            target@,
            match token {
                Some(t) => Some(t@),
                None => None,
            },
        ),
{
    let mut out = chars_of("CONNECT ");
    push_str(&mut out, target);
    push_str(&mut out, " HTTP/1.1\r\nHost: ");
    push_str(&mut out, target);
    match token {
        Some(t) => {
            push_str(&mut out, "\r\nProxy-Authorization: ");
            push_str(&mut out, t);
            push_str(&mut out, "\r\n\r\n");
        },
        None => {
            push_str(&mut out, "\r\n\r\n");
        },
    }
    string_from_chars(out.as_slice())
}

// ─────────────────────────────── error replies ───────────────────────────────

/// The error responses the proxy gives its client.
#[derive(Debug, Clone, Copy, PartialEq, Eq, Structural)]
pub enum ErrorReply {
    /// 502: the upstream proxy could not be reached.
    UpstreamUnreachable,
    /// 502: the upstream proxy refused the CONNECT.
    ConnectRefused,
    /// 407: authentication with the upstream proxy failed.
    AuthFailed,
    /// 502: the target could not be reached directly.
    DirectUnreachable,
    /// 501: plain HTTP without an upstream proxy is not forwarded.
    DirectHttpUnsupported,
}

impl ErrorReply {
    /// The HTTP status code of the reply.
    pub fn status(&self) -> (r: u16)
        ensures
            r == match *self {
                ErrorReply::AuthFailed => 407u16,
                ErrorReply::DirectHttpUnsupported => 501u16,
                _ => 502u16,
            },
    {
        match self {
            ErrorReply::AuthFailed => 407,
            ErrorReply::DirectHttpUnsupported => 501,
            _ => 502,
        }
    }

    /// The body text of the reply.
    pub fn message(&self) -> (r: &'static str)
        ensures
            r@ == match *self {
                ErrorReply::UpstreamUnreachable => "Upstream connection failed"@,
                ErrorReply::ConnectRefused => "Upstream CONNECT failed"@,
                ErrorReply::AuthFailed => "Auth failed"@,
                ErrorReply::DirectUnreachable => "Direct connection failed"@,
                ErrorReply::DirectHttpUnsupported => "Direct HTTP not supported"@,
            },
    {
        match self {
            ErrorReply::UpstreamUnreachable => "Upstream connection failed",
            ErrorReply::ConnectRefused => "Upstream CONNECT failed",
            ErrorReply::AuthFailed => "Auth failed",
            ErrorReply::DirectUnreachable => "Direct connection failed",
            ErrorReply::DirectHttpUnsupported => "Direct HTTP not supported",
        }
    }
}

// ─────────────────────────── forwarded requests ───────────────────────────

/// The `Proxy-Authorization` value a forwarded request is retried with after
/// a `407` whose `Proxy-Authenticate` value is `proxy_authenticate`:
/// a Negotiate token from `negotiate_init` when Negotiate is asked for and
/// the method allows it (Basic credentials when that fails and the method
/// allows Basic); Basic credentials when Basic is asked for, or Negotiate
/// under method `basic`, and the method allows it; nothing otherwise.
pub fn build_forward_auth_header<
    E1,
    E2,
    N: FnOnce(&str, u16) -> Result<String, E1>,
    P: FnOnce(&str) -> Result<String, E2>,
>(
    proxy_authenticate: &str,
    upstream_host: &str,
    upstream_port: u16,
    cfg: &Config,
    negotiate_init: N,
    get_password: P,
) -> (r: Result<Option<String>, CredentialError<E2>>)
    requires
        call_requires(negotiate_init, (upstream_host, upstream_port)),
        cfg.auth.username matches Some(u) ==> (forall|s: &str| s@ == u@ ==> call_requires(
            get_password,
            (s,),
        )) && passwords_fit(u@, get_password),
    ensures
        ({
            let scheme = scheme_for(unicode_lowercase(proxy_authenticate@));
            let method = cfg.auth.method;
            let basic = |r: Result<Option<String>, CredentialError<E2>>|
                match cfg.auth.username {
                    None => r matches Err(CredentialError::NoUsername),
                    Some(u) => exists|s: &str, p: Result<String, E2>|
                        #[trigger] call_ensures(get_password, (s,), p) && s@ == u@ && match p {
                            Ok(pw) => r matches Ok(Some(t)) && t@ == basic_token_spec(u@, pw@),
                            Err(e) => r matches Err(CredentialError::NoPassword { user, cause })
                                && user@ == u@ && cause == e,
                        },
                };
            match scheme {
                AuthScheme::Unknown => r matches Ok(None),
                AuthScheme::Negotiate => if negotiate_allowed(method) {
                    exists|n: Result<String, E1>|
                        #[trigger] call_ensures(negotiate_init, (upstream_host, upstream_port), n)
                            && match n {
                            Ok(tok) => r matches Ok(Some(t)) && t == tok,
                            Err(_) => if basic_allowed(method) {
                                basic(r)
                            } else {
                                r matches Ok(None)
                            },
                        }
                } else if method == AuthMethod::Basic {
                    basic(r)
                } else {
                    r matches Ok(None)
                },
                AuthScheme::Basic => if basic_allowed(method) {
                    basic(r)
                } else {
                    r matches Ok(None)
                },
            }
        }),
{
    let scheme = detect_scheme(proxy_authenticate);
    let method = cfg.auth.method;
    match scheme {
        AuthScheme::Negotiate => if method.allows_negotiate() {
            match negotiate_init(upstream_host, upstream_port) {
                Ok(token) => Ok(Some(token)),
                Err(_) => if method.allows_basic() {
                    forward_basic(cfg, get_password)
                } else {
                    Ok(None)
                },
            }
        } else if method == AuthMethod::Basic {
            forward_basic(cfg, get_password)
        } else {
            Ok(None)
        },
        AuthScheme::Basic => if method.allows_basic() {
            forward_basic(cfg, get_password)
        } else {
            Ok(None)
        },
        AuthScheme::Unknown => Ok(None),
    }
}

/// Basic credentials for a forwarded request, with the configured user.
fn forward_basic<E2, P: FnOnce(&str) -> Result<String, E2>>(cfg: &Config, get_password: P) -> (r:
    Result<Option<String>, CredentialError<E2>>)
    requires
        cfg.auth.username matches Some(u) ==> (forall|s: &str| s@ == u@ ==> call_requires(
            get_password,
            (s,),
        )) && passwords_fit(u@, get_password),
    ensures
        match cfg.auth.username {
            None => r matches Err(CredentialError::NoUsername),
            Some(u) => exists|s: &str, p: Result<String, E2>|
                #[trigger] call_ensures(get_password, (s,), p) && s@ == u@ && match p {
                    Ok(pw) => r matches Ok(Some(t)) && t@ == basic_token_spec(u@, pw@),
                    Err(e) => r matches Err(CredentialError::NoPassword { user, cause }) && user@
                        == u@ && cause == e,
                },
        },
{
    match &cfg.auth.username {
        None => Err(CredentialError::NoUsername),
        Some(u) => {
            let user = u.as_str();
            match get_password(user) {
                Ok(pw) => {
                    let t = crate::auth::basic_token(user, pw.as_str());
                    Ok(Some(t))
                },
                Err(e) => Err(CredentialError::NoPassword { user: u.clone(), cause: e }),
            }
        },
    }
}

// ─────────────────────────────── routing ───────────────────────────────

/// How a request leaves the proxy.
pub enum Route<S> {
    /// Straight to the target.
    Direct,
    /// A CONNECT tunnel through this upstream proxy.
    Tunnel(S),
    /// A forwarded request through this upstream proxy.
    Forward(S),
}

impl View for Route<String> {
    type V = Route<Seq<char>>;

    open spec fn view(&self) -> Route<Seq<char>> {
        match self {
            Route::Direct => Route::Direct,
            Route::Tunnel(u) => Route::Tunnel(u@),
            Route::Forward(u) => Route::Forward(u@),
        }
    }
}

/// The route for a request given the PAC answer (`None` when the lookup
/// failed, which counts as `DIRECT`).
pub open spec fn route_spec(pac_answer: Option<Seq<char>>, is_connect: bool) -> Route<Seq<char>> {
    let result = match pac_answer {
        Some(a) => a,
        None => "DIRECT"@,
    };
    match directive_of(split_seq(result, ';')) {
        ProxyDirective::Direct => Route::Direct,
        ProxyDirective::Proxy(up) => if is_connect {
            Route::Tunnel(up)
        } else {
            Route::Forward(up)
        },
    }
}

/// Where a request that does not bypass the proxy goes, from the PAC answer.
pub fn route_for(pac_answer: Option<&str>, is_connect: bool) -> (r: Route<String>)
    ensures
        r@ == route_spec(
            match pac_answer {
                Some(a) => Some(a@),
                None => None,
            },
            is_connect,
        ),
{
    let result = match pac_answer {
        Some(a) => a,
        None => "DIRECT",
    };
    match parse_pac_result(result) {
        ProxyDirective::Direct => Route::Direct,
        ProxyDirective::Proxy(up) => if is_connect {
            Route::Tunnel(up)
        } else {
            Route::Forward(up)
        },
    }
}

/// A second Negotiate round for a forwarded request: when the `407`'s
/// `Proxy-Authenticate` value carries a challenge that decodes, a fresh
/// context from `negotiate_init` is fed that challenge through
/// `negotiate_step`; any failure gives no header.
pub fn negotiate_round2<
    C,
    E,
    I: FnOnce(&str, u16) -> Result<C, E>,
    S: FnOnce(C, &[u8]) -> Result<Option<String>, E>,
>(
    proxy_authenticate: &str,
    upstream_host: &str,
    upstream_port: u16,
    negotiate_init: I,
    negotiate_step: S,
) -> (r: Result<Option<String>, ()>)
    requires
        call_requires(negotiate_init, (upstream_host, upstream_port)),
        forall|c: C, b: &[u8]| call_requires(negotiate_step, (c, b)),
    ensures
        ({
            let ch = negotiate_challenge_spec(proxy_authenticate@);
            &&& r is Ok
            &&& ch.len() == 0 ==> r == Ok::<Option<String>, ()>(None)
            &&& (ch.len() > 0 && base64_standard_decode(ch) is None) ==> r == Ok::<
                Option<String>,
                (),
            >(None)
            &&& (ch.len() > 0 && base64_standard_decode(ch) is Some) ==> exists|
                i: Result<C, E>,
            |
                #[trigger] call_ensures(negotiate_init, (upstream_host, upstream_port), i)
                    && match i {
                    Err(_) => r == Ok::<Option<String>, ()>(None),
                    Ok(c) => exists|b: &[u8], o: Result<Option<String>, E>|
                        #[trigger] call_ensures(negotiate_step, (c, b), o) && b@
                            == base64_standard_decode(ch)->0 && match o {
                            Ok(t) => r == Ok::<Option<String>, ()>(t),
                            Err(_) => r == Ok::<Option<String>, ()>(None),
                        },
                }
        }),
{
    let challenge = extract_negotiate_challenge(proxy_authenticate);
    if challenge.as_str().is_empty() {
        return Ok(None);
    }
    let decoded = match decode_base64(challenge.as_str()) {
        Some(d) => d,
        None => return Ok(None),
    };
    let ctx = match negotiate_init(upstream_host, upstream_port) {
        Ok(c) => c,
        Err(_) => return Ok(None),
    };
    match negotiate_step(ctx, decoded.as_slice()) {
        Ok(t) => Ok(t),
        Err(_) => Ok(None),
    }
}

/// Where a request goes: straight to the target when its host bypasses the
/// upstream proxy (`no_proxy`, which is decided before any PAC lookup),
/// else where the PAC answer sends it.
pub open spec fn request_route_spec(
    host: Seq<char>,
    no_proxy: Seq<Seq<char>>,
    pac_answer: Option<Seq<char>>,
    is_connect: bool,
) -> Route<Seq<char>> {
    if no_proxy_spec(before_first(host, ':'), no_proxy) {
        Route::Direct
    } else {
        route_spec(pac_answer, is_connect)
    }
}

/// The route of a request for `host` (`name:port`); `pac_answer` is the PAC
/// lookup's answer (`None` when it failed or was not made).
pub fn route_request(host: &str, no_proxy: &[String], pac_answer: Option<&str>, is_connect: bool) -> (r:
    Route<String>)
    ensures
        r@ == request_route_spec(
            host@,
            no_proxy@.map_values(|p: String| p@),
            match pac_answer {
                Some(a) => Some(a@),
                None => None,
            },
            is_connect,
        ),
{
    if is_no_proxy(host, no_proxy) {
        Route::Direct
    } else {
        route_for(pac_answer, is_connect)
    }
}

/// A host that `no_proxy` covers goes straight to the target whatever the
/// PAC script would answer.
pub proof fn lemma_no_proxy_before_pac(
    host: Seq<char>,
    no_proxy: Seq<Seq<char>>,
    pac_answer: Option<Seq<char>>,
    is_connect: bool,
)
    requires
        no_proxy_spec(before_first(host, ':'), no_proxy),
    ensures
        request_route_spec(host, no_proxy, pac_answer, is_connect) == Route::<Seq<char>>::Direct,
{
}

// ─────────────────────────── forwarded requests ───────────────────────────

/// Where a forwarded (non-CONNECT) request stands.
#[derive(Debug, Clone, Copy, PartialEq, Eq, Structural)]
pub enum ForwardPhase {
    /// The request went out without credentials.
    FirstSent,
    /// The proxy answered `407`; waiting for the `Proxy-Authorization` value.
    AwaitingHeader,
    /// The request went out again, with credentials, on a fresh connection.
    RetrySent,
    /// The last response is the answer.
    Done,
}

/// What came of the last action on a forwarded request.
pub enum ForwardEvent<S> {
    /// The upstream response's status code.
    Status(u16),
    /// The `Proxy-Authorization` value to retry with, if any.
    Header(Option<S>),
}

/// What to do next with a forwarded request.
pub enum ForwardAction<S> {
    /// Build the `Proxy-Authorization` value from the `407`'s challenge.
    BuildHeader,
    /// Send the request again on a fresh connection with this value.
    Retry(S),
    /// The retry was refused too: try a second Negotiate round (which can
    /// only be logged), then answer with the response.
    Round2,
    /// Answer the client with the last response.
    Return,
}

impl View for ForwardEvent<String> {
    type V = ForwardEvent<Seq<char>>;

    open spec fn view(&self) -> ForwardEvent<Seq<char>> {
        match self {
            ForwardEvent::Status(c) => ForwardEvent::Status(*c),
            ForwardEvent::Header(Some(h)) => ForwardEvent::Header(Some(h@)),
            ForwardEvent::Header(None) => ForwardEvent::Header(None),
        }
    }
}

impl View for ForwardAction<String> {
    type V = ForwardAction<Seq<char>>;

    open spec fn view(&self) -> ForwardAction<Seq<char>> {
        match self {
            ForwardAction::BuildHeader => ForwardAction::BuildHeader,
            ForwardAction::Retry(h) => ForwardAction::Retry(h@),
            ForwardAction::Round2 => ForwardAction::Round2,
            ForwardAction::Return => ForwardAction::Return,
        }
    }
}

/// The forwarded request's next phase and action on `e`: a `407` to the
/// first request asks for credentials; with a value the request is sent
/// once more, without one the `407` is the answer; a `407` to the retry
/// leads to a second Negotiate round; every other response is the answer.
pub open spec fn forward_next(p: ForwardPhase, e: ForwardEvent<Seq<char>>) -> (
    ForwardPhase,
    ForwardAction<Seq<char>>,
) {
    match p {
        ForwardPhase::FirstSent => match e {
            ForwardEvent::Status(c) => if c == 407 {
                (ForwardPhase::AwaitingHeader, ForwardAction::BuildHeader)
            } else {
                (ForwardPhase::Done, ForwardAction::Return)
            },
            _ => (ForwardPhase::Done, ForwardAction::Return),
        },
        ForwardPhase::AwaitingHeader => match e {
            ForwardEvent::Header(Some(h)) => (ForwardPhase::RetrySent, ForwardAction::Retry(h)),
            _ => (ForwardPhase::Done, ForwardAction::Return),
        },
        ForwardPhase::RetrySent => match e {
            ForwardEvent::Status(c) => if c == 407 {
                (ForwardPhase::Done, ForwardAction::Round2)
            } else {
                (ForwardPhase::Done, ForwardAction::Return)
            },
            _ => (ForwardPhase::Done, ForwardAction::Return),
        },
        ForwardPhase::Done => (ForwardPhase::Done, ForwardAction::Return),
    }
}

/// Advances a forwarded request from phase `p` on event `e`.
pub fn forward_step(p: ForwardPhase, e: ForwardEvent<String>) -> (r: (ForwardPhase, ForwardAction<String>))
    ensures
        (r.0, r.1@) == forward_next(p, e@),
{
    match p {
        ForwardPhase::FirstSent => match e {
            ForwardEvent::Status(c) => if c == 407 {
                (ForwardPhase::AwaitingHeader, ForwardAction::BuildHeader)
            } else {
                (ForwardPhase::Done, ForwardAction::Return)
            },
            _ => (ForwardPhase::Done, ForwardAction::Return),
        },
        ForwardPhase::AwaitingHeader => match e {
            ForwardEvent::Header(Some(h)) => (ForwardPhase::RetrySent, ForwardAction::Retry(h)),
            _ => (ForwardPhase::Done, ForwardAction::Return),
        },
        ForwardPhase::RetrySent => match e {
            ForwardEvent::Status(c) => if c == 407 {
                (ForwardPhase::Done, ForwardAction::Round2)
            } else {
                (ForwardPhase::Done, ForwardAction::Return)
            },
            _ => (ForwardPhase::Done, ForwardAction::Return),
        },
        ForwardPhase::Done => (ForwardPhase::Done, ForwardAction::Return),
    }
}

/// A forwarded request is sent again at most once, only after the value to
/// send it with was built, and credentials are built only after a `407`.
pub proof fn lemma_forward_retries_once(p: ForwardPhase, e: ForwardEvent<Seq<char>>)
    ensures
        forward_next(p, e).1 is Retry ==> p == ForwardPhase::AwaitingHeader
            && forward_next(p, e).0 == ForwardPhase::RetrySent,
        forward_next(p, e).1 is BuildHeader ==> p == ForwardPhase::FirstSent && e
            == ForwardEvent::<Seq<char>>::Status(407),
        p == ForwardPhase::RetrySent || p == ForwardPhase::Done ==> !(forward_next(p, e).1 is Retry)
            && forward_next(p, e).0 == ForwardPhase::Done,
{
}

/// A `prefix.*` pattern covers only hosts that begin with `prefix.`.
pub proof fn lemma_prefix_pattern_needs_prefix(pattern: Seq<char>, host: Seq<char>)
    requires
        ends_with(pattern, ".*"@),
        !starts_with(pattern, "*."@),
        pattern != host,
        pattern_matches(pattern, host),
    ensures
        starts_with(host, pattern.take(pattern.len() - 1)),
{
}

/// A `*.suffix` pattern covers only hosts that end in `.suffix`.
pub proof fn lemma_suffix_pattern_needs_suffix(pattern: Seq<char>, host: Seq<char>)
    requires
        starts_with(pattern, "*."@),
        !ends_with(pattern, ".*"@),
        pattern != host,
        pattern_matches(pattern, host),
    ensures
        ends_with(host, pattern.skip(1)),
{
}

/// Only a CONNECT is tunnelled and only a plain request is forwarded; a
/// request the PAC answer sends through a proxy goes to the same proxy
/// whichever its method: tunnelled for CONNECT, forwarded otherwise.
pub proof fn lemma_route_follows_method(
    host: Seq<char>,
    no_proxy: Seq<Seq<char>>,
    pac_answer: Option<Seq<char>>,
    up: Seq<char>,
)
    ensures
        !(request_route_spec(host, no_proxy, pac_answer, false) is Tunnel),
        !(request_route_spec(host, no_proxy, pac_answer, true) is Forward),
        request_route_spec(host, no_proxy, pac_answer, true) == Route::Tunnel(up)
            <==> request_route_spec(host, no_proxy, pac_answer, false) == Route::Forward(up),
        request_route_spec(host, no_proxy, pac_answer, true) is Direct
            <==> request_route_spec(host, no_proxy, pac_answer, false) is Direct,
{
}

} // verus!
