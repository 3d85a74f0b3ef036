//! Opening a CONNECT tunnel through the upstream proxy, including the
//! `407` authentication handshake (Negotiate with up to five rounds, Basic,
//! and the Basic fallback when Negotiate fails).
//!
//! The tunnel is a state machine: the caller performs each action (network
//! I/O, GSS calls, keychain and configuration reads) and feeds back what
//! came of it as the next event.
use vstd::prelude::*;

use crate::auth::{
    basic_token, basic_token_spec, check_credentials_fit, credentials_fit, detect_scheme,
    extract_negotiate_challenge, extract_proxy_authenticate, negotiate_challenge_spec,
    proxy_authenticate_text, scheme_for, AuthScheme,
};
use crate::codec::{base64_standard_decode, decode_base64, unicode_lowercase};
use crate::config::{basic_allowed, negotiate_allowed, AuthMethod};
use crate::proxy::{connect_request, connect_request_spec, split_upstream, upstream_host_spec, upstream_port_spec, ErrorReply};
use crate::spnego::{cache_lookup, SpnegoCache};
use crate::text::{
    before_first, chars_before_first, chars_of, find_char_from, index_of, parse_u16,
    parse_u16_spec, sub_chars,
};

verus! {

broadcast use vstd::string::group_string_axioms;

/// Most further Negotiate rounds after the first authenticated CONNECT.
pub const MAX_EXTRA_ROUNDS: u8 = 4;

/// Where the tunnel's handshake stands.  `S` is the text type.
pub enum TunnelPhase<S> {
    /// Waiting for the TCP connection to the upstream proxy.
    Connecting,
    /// Sent a CONNECT carrying the cached token; waiting for the reply.
    CachedSent,
    /// The cached token was refused; waiting for the new connection.
    Reconnecting,
    /// Sent a CONNECT without credentials; waiting for the reply.
    PlainSent,
    /// Waiting for a fresh Negotiate context; `challenge` is the token the
    /// proxy sent with its `407` (possibly empty).
    NegotiateInit { challenge: S },
    /// Waiting for the context to answer the proxy's first challenge.
    NegotiateFirstStep,
    /// Sent an authenticated CONNECT in round `round`; `header` is the
    /// value that is cached on success.
    NegotiateSent { header: S, round: u8 },
    /// Waiting for the context to answer the challenge in `reply`.
    NegotiateStep { header: S, round: u8, reply: S },
    /// Waiting for the keychain password of `user`.
    BasicPassword { user: S },
    /// Sent a Basic CONNECT carrying `token`.
    BasicSent { token: S },
    /// Negotiate failed; waiting for the configured user name.
    FallbackUser,
    /// Waiting for the keychain password of `user` for the fallback.
    FallbackPassword { user: S },
    /// Sent a Basic CONNECT carrying `token` on a fresh connection.
    FallbackSent { token: S },
    /// The tunnel is open or has failed.
    Done,
}

/// How a Negotiate context answered a challenge.
pub enum StepOutcome<S> {
    /// It produced the next `Proxy-Authorization` value.
    Token(S),
    /// It considers the handshake complete.
    Complete,
    /// It failed.
    Failed,
}

/// What came of the last action.
pub enum TunnelEvent<S> {
    /// The connection to the upstream proxy was (or was not) opened.
    Connected(bool),
    /// The upstream proxy's reply to the request just sent (read as text).
    Reply(S),
    /// The connection was reopened.
    Reconnected,
    /// Writing, reading or connecting failed.
    IoFailed,
    /// A Negotiate context was created; its first `Proxy-Authorization`
    /// value, or `None` when that failed.
    NegotiateStarted(Option<S>),
    /// The context answered a challenge.
    NegotiateStepped(StepOutcome<S>),
    /// The user name configured for the Basic fallback, if any.
    FallbackUsername(Option<S>),
    /// The keychain password, if there is one.
    Password(Option<S>),
}

/// What the caller must do next.
pub enum TunnelAction<S, B> {
    /// Connect to the upstream proxy.
    Connect,
    /// Write this request on the upstream connection and read the reply.
    Send(S),
    /// Reopen the upstream connection to the same address.
    Reconnect,
    /// Create a Negotiate context for the proxy at `host:port`.
    StartNegotiate { host: S, port: u16 },
    /// Feed this challenge into the Negotiate context.
    NegotiateStep(B),
    /// Read the configured user name for the Basic fallback.
    LoadFallbackUser,
    /// Read the keychain password of this user.
    FetchPassword(S),
    /// Open a fresh connection to the same address, write this request
    /// and read the reply; on success it replaces the old connection.
    SendFresh(S),
    /// The tunnel is open: answer 200 and relay bytes both ways.
    Established,
    /// Answer the client with this error.
    Respond(ErrorReply),
    /// The request fails with an error.
    Fail,
    /// The request cannot be handled: the Basic credentials are too large
    /// to encode.
    Abort,
}

/// What happens to the token cache.
pub enum CacheEffect<S> {
    Keep,
    Clear,
    /// Store this token as accepted now.
    Store(S),
}

/// One transition of the handshake.
pub struct Transition<S, B> {
    pub phase: TunnelPhase<S>,
    pub action: TunnelAction<S, B>,
    pub cache: CacheEffect<S>,
}

/// The handshake's mathematical state.
pub struct TunnelModel {
    pub target: Seq<char>,
    pub host: Seq<char>,
    pub port: u16,
    pub method: AuthMethod,
    pub username: Option<Seq<char>>,
    pub phase: TunnelPhase<Seq<char>>,
}

pub type ModelTransition = Transition<Seq<char>, Seq<u8>>;

/// A CONNECT tunnel being opened through an upstream proxy.
pub struct Tunnel {
    target: String,
    upstream_host: String,
    upstream_port: u16,
    method: AuthMethod,
    username: Option<String>,
    phase: TunnelPhase<String>,
}

pub open spec fn opt_view(o: Option<String>) -> Option<Seq<char>> {
    match o {
        Some(s) => Some(s@),
        None => None,
    }
}

impl View for TunnelPhase<String> {
    type V = TunnelPhase<Seq<char>>;

    open spec fn view(&self) -> TunnelPhase<Seq<char>> {
        match self {
            TunnelPhase::Connecting => TunnelPhase::Connecting,
            TunnelPhase::CachedSent => TunnelPhase::CachedSent,
            TunnelPhase::Reconnecting => TunnelPhase::Reconnecting,
            TunnelPhase::PlainSent => TunnelPhase::PlainSent,
            TunnelPhase::NegotiateInit { challenge } => TunnelPhase::NegotiateInit {
                challenge: challenge@,
            },
            TunnelPhase::NegotiateFirstStep => TunnelPhase::NegotiateFirstStep,
            TunnelPhase::NegotiateSent { header, round } => TunnelPhase::NegotiateSent {
                header: header@,
                round: *round,
            },
            TunnelPhase::NegotiateStep { header, round, reply } => TunnelPhase::NegotiateStep {
                header: header@,
                round: *round,
                reply: reply@,
            },
            TunnelPhase::BasicPassword { user } => TunnelPhase::BasicPassword { user: user@ },
            TunnelPhase::BasicSent { token } => TunnelPhase::BasicSent { token: token@ },
            TunnelPhase::FallbackUser => TunnelPhase::FallbackUser,
            TunnelPhase::FallbackPassword { user } => TunnelPhase::FallbackPassword {
                user: user@,
            },
            TunnelPhase::FallbackSent { token } => TunnelPhase::FallbackSent { token: token@ },
            TunnelPhase::Done => TunnelPhase::Done,
        }
    }
}

impl View for TunnelEvent<String> {
    type V = TunnelEvent<Seq<char>>;

    open spec fn view(&self) -> TunnelEvent<Seq<char>> {
        match self {
            TunnelEvent::Connected(b) => TunnelEvent::Connected(*b),
            TunnelEvent::Reply(r) => TunnelEvent::Reply(r@),
            TunnelEvent::Reconnected => TunnelEvent::Reconnected,
            TunnelEvent::IoFailed => TunnelEvent::IoFailed,
            TunnelEvent::NegotiateStarted(h) => TunnelEvent::NegotiateStarted(opt_view(*h)),
            TunnelEvent::NegotiateStepped(o) => TunnelEvent::NegotiateStepped(
                match o {
                    StepOutcome::Token(t) => StepOutcome::Token(t@),
                    StepOutcome::Complete => StepOutcome::Complete,
                    StepOutcome::Failed => StepOutcome::Failed,
                },
            ),
            TunnelEvent::FallbackUsername(u) => TunnelEvent::FallbackUsername(opt_view(*u)),
            TunnelEvent::Password(p) => TunnelEvent::Password(opt_view(*p)),
        }
    }
}

impl View for TunnelAction<String, Vec<u8>> {
    type V = TunnelAction<Seq<char>, Seq<u8>>;

    open spec fn view(&self) -> TunnelAction<Seq<char>, Seq<u8>> {
        match self {
            TunnelAction::Connect => TunnelAction::Connect,
            TunnelAction::Send(s) => TunnelAction::Send(s@),
            TunnelAction::Reconnect => TunnelAction::Reconnect,
            TunnelAction::StartNegotiate { host, port } => TunnelAction::StartNegotiate {
                host: host@,
                port: *port,
            },
            TunnelAction::NegotiateStep(b) => TunnelAction::NegotiateStep(b@),
            TunnelAction::LoadFallbackUser => TunnelAction::LoadFallbackUser,
            TunnelAction::FetchPassword(u) => TunnelAction::FetchPassword(u@),
            TunnelAction::SendFresh(s) => TunnelAction::SendFresh(s@),
            TunnelAction::Established => TunnelAction::Established,
            TunnelAction::Respond(r) => TunnelAction::Respond(*r),
            TunnelAction::Fail => TunnelAction::Fail,
            TunnelAction::Abort => TunnelAction::Abort,
        }
    }
}

impl View for CacheEffect<String> {
    type V = CacheEffect<Seq<char>>;

    open spec fn view(&self) -> CacheEffect<Seq<char>> {
        match self {
            CacheEffect::Keep => CacheEffect::Keep,
            CacheEffect::Clear => CacheEffect::Clear,
            CacheEffect::Store(t) => CacheEffect::Store(t@),
        }
    }
}

impl View for Transition<String, Vec<u8>> {
    type V = ModelTransition;

    open spec fn view(&self) -> ModelTransition {
        Transition { phase: self.phase@, action: self.action@, cache: self.cache@ }
    }
}

impl View for Tunnel {
    type V = TunnelModel;

    closed spec fn view(&self) -> TunnelModel {
        TunnelModel {
            target: self.target@,
            host: self.upstream_host@,
            port: self.upstream_port,
            method: self.method,
            username: opt_view(self.username),
            phase: self.phase@,
        }
    }
}

// ─────────────────────────────── the model ───────────────────────────────

pub open spec fn go(
    phase: TunnelPhase<Seq<char>>,
    action: TunnelAction<Seq<char>, Seq<u8>>,
    cache: CacheEffect<Seq<char>>,
) -> ModelTransition {
    Transition { phase, action, cache }
}

/// The handshake ends with this action.
pub open spec fn finish(action: TunnelAction<Seq<char>, Seq<u8>>) -> ModelTransition {
    go(TunnelPhase::Done, action, CacheEffect::Keep)
}

/// Authentication failed: answer 407 and forget the cached token.
pub open spec fn fail_auth() -> ModelTransition {
    go(TunnelPhase::Done, TunnelAction::Respond(ErrorReply::AuthFailed), CacheEffect::Clear)
}

/// The tunnel is open and `token` is remembered as accepted.
pub open spec fn accepted(token: Seq<char>) -> ModelTransition {
    go(TunnelPhase::Done, TunnelAction::Established, CacheEffect::Store(token))
}

/// Negotiate failed: try Basic with the configured user on a fresh connection.
pub open spec fn fallback_start() -> ModelTransition {
    go(TunnelPhase::FallbackUser, TunnelAction::LoadFallbackUser, CacheEffect::Keep)
}

/// The reply that stands for a refused cached token.
pub open spec fn refused_cached_reply() -> Seq<char> {
    "HTTP/1.1 407 Proxy Authentication Required\r\n\r\n"@
}

/// The status code of a raw HTTP reply: the three digits after the first
/// space of its first line (up to the next space or carriage return);
/// `None` when there are no such three digits.
pub open spec fn reply_status(resp: Seq<char>) -> Option<u16> {
    let line = before_first(resp, '\n');
    let i = index_of(line, ' ');
    if i < 0 {
        None
    } else {
        let piece = before_first(before_first(line.skip(i + 1), ' '), '\r');
        if piece.len() == 3 && piece[0] != '+' {
            parse_u16_spec(piece)
        } else {
            None
        }
    }
}

/// The reply's status code is `code`.
pub open spec fn has_status(resp: Seq<char>, code: u16) -> bool {
    reply_status(resp) == Some(code)
}

/// Negotiate failed: Basic with the configured user on a fresh connection
/// where the method allows Basic, else authentication fails.
pub open spec fn negotiate_failed(m: TunnelModel) -> ModelTransition {
    if basic_allowed(m.method) {
        fallback_start()
    } else {
        fail_auth()
    }
}

/// Answering with Basic credentials for the configured user.
pub open spec fn basic_start(m: TunnelModel) -> ModelTransition {
    match m.username {
        None => fail_auth(),
        Some(u) => go(
            TunnelPhase::BasicPassword { user: u },
            TunnelAction::FetchPassword(u),
            CacheEffect::Keep,
        ),
    }
}

/// Answering a `407` reply `resp`: with Negotiate when the proxy asks for
/// it and the method allows it; with Basic when the proxy asks for Basic,
/// or for Negotiate under method `basic`, and the method allows it; else
/// authentication fails.
pub open spec fn handshake_start(m: TunnelModel, resp: Seq<char>) -> ModelTransition {
    let h = proxy_authenticate_text(resp);
    match scheme_for(unicode_lowercase(h)) {
        AuthScheme::Negotiate => if negotiate_allowed(m.method) {
            go(
                TunnelPhase::NegotiateInit { challenge: negotiate_challenge_spec(h) },
                TunnelAction::StartNegotiate { host: m.host, port: m.port },
                CacheEffect::Keep,
            )
        } else if m.method == AuthMethod::Basic {
            basic_start(m)
        } else {
            fail_auth()
        },
        AuthScheme::Basic => if basic_allowed(m.method) {
            basic_start(m)
        } else {
            fail_auth()
        },
        AuthScheme::Unknown => fail_auth(),
    }
}

/// What a reply to an unauthenticated (or cached-token) CONNECT leads to.
pub open spec fn decide(m: TunnelModel, resp: Seq<char>) -> ModelTransition {
    if has_status(resp, 407) {
        handshake_start(m, resp)
    } else if !has_status(resp, 200) {
        finish(TunnelAction::Respond(ErrorReply::ConnectRefused))
    } else {
        finish(TunnelAction::Established)
    }
}

/// What the reply `resp` to the Negotiate CONNECT of round `round`, which
/// carried `header`, leads to.
pub open spec fn negotiate_reply(
    m: TunnelModel,
    header: Seq<char>,
    round: u8,
    resp: Seq<char>,
) -> ModelTransition {
    if has_status(resp, 200) {
        accepted(header)
    } else if round >= MAX_EXTRA_ROUNDS {
        negotiate_failed(m)
    } else if !has_status(resp, 407) {
        fail_auth()
    } else {
        let ch = negotiate_challenge_spec(proxy_authenticate_text(resp));
        if ch.len() == 0 {
            negotiate_failed(m)
        } else {
            match base64_standard_decode(ch) {
                None => negotiate_failed(m),
                Some(b) => go(
                    TunnelPhase::NegotiateStep { header, round, reply: resp },
                    TunnelAction::NegotiateStep(b),
                    CacheEffect::Keep,
                ),
            }
        }
    }
}

/// Sending Basic credentials for `user`/`pw`; `fresh` on a new connection.
pub open spec fn send_basic(m: TunnelModel, user: Seq<char>, pw: Seq<char>, fresh: bool) -> ModelTransition {
    if !credentials_fit(user, pw) {
        finish(TunnelAction::Abort)
    } else {
        let token = basic_token_spec(user, pw);
        let req = connect_request_spec(m.target, Some(token));
        if fresh {
            go(TunnelPhase::FallbackSent { token }, TunnelAction::SendFresh(req), CacheEffect::Keep)
        } else {
            go(TunnelPhase::BasicSent { token }, TunnelAction::Send(req), CacheEffect::Keep)
        }
    }
}

/// The handshake's transition on `e`; `cached` is what the token cache
/// holds for the current time.
pub open spec fn tunnel_next(
    m: TunnelModel,
    e: TunnelEvent<Seq<char>>,
    cached: Option<Seq<char>>,
) -> ModelTransition {
    match m.phase {
        TunnelPhase::Connecting => match e {
            TunnelEvent::Connected(ok) => if !ok {
                finish(TunnelAction::Respond(ErrorReply::UpstreamUnreachable))
            } else {
                match cached {
                    Some(t) => go(
                        TunnelPhase::CachedSent,
                        TunnelAction::Send(connect_request_spec(m.target, Some(t))),
                        CacheEffect::Keep,
                    ),
                    None => go(
                        TunnelPhase::PlainSent,
                        TunnelAction::Send(connect_request_spec(m.target, None)),
                        CacheEffect::Keep,
                    ),
                }
            },
            _ => finish(TunnelAction::Fail),
        },
        TunnelPhase::CachedSent => match e {
            TunnelEvent::Reply(r) => if has_status(r, 200) {
                decide(m, r)
            } else if has_status(r, 407) {
                go(TunnelPhase::Reconnecting, TunnelAction::Reconnect, CacheEffect::Clear)
            } else {
                finish(TunnelAction::Respond(ErrorReply::ConnectRefused))
            },
            _ => finish(TunnelAction::Fail),
        },
        TunnelPhase::Reconnecting => match e {
            TunnelEvent::Reconnected => decide(m, refused_cached_reply()),
            _ => finish(TunnelAction::Fail),
        },
        TunnelPhase::PlainSent => match e {
            TunnelEvent::Reply(r) => decide(m, r),
            _ => finish(TunnelAction::Fail),
        },
        TunnelPhase::NegotiateInit { challenge } => match e {
            TunnelEvent::NegotiateStarted(res) => match res {
                None => negotiate_failed(m),
                Some(h) => if challenge.len() == 0 {
                    go(
                        TunnelPhase::NegotiateSent { header: h, round: 0 },
                        TunnelAction::Send(connect_request_spec(m.target, Some(h))),
                        CacheEffect::Keep,
                    )
                } else {
                    match base64_standard_decode(challenge) {
                        None => fail_auth(),
                        Some(b) => go(
                            TunnelPhase::NegotiateFirstStep,
                            TunnelAction::NegotiateStep(b),
                            CacheEffect::Keep,
                        ),
                    }
                },
            },
            _ => fail_auth(),
        },
        TunnelPhase::NegotiateFirstStep => match e {
            TunnelEvent::NegotiateStepped(o) => match o {
                StepOutcome::Failed => fail_auth(),
                StepOutcome::Complete => negotiate_failed(m),
                StepOutcome::Token(t) => go(
                    TunnelPhase::NegotiateSent { header: t, round: 0 },
                    TunnelAction::Send(connect_request_spec(m.target, Some(t))),
                    CacheEffect::Keep,
                ),
            },
            _ => fail_auth(),
        },
        TunnelPhase::NegotiateSent { header, round } => match e {
            TunnelEvent::Reply(r) => negotiate_reply(m, header, round, r),
            _ => fail_auth(),
        },
        TunnelPhase::NegotiateStep { header, round, reply } => match e {
            TunnelEvent::NegotiateStepped(o) => match o {
                StepOutcome::Failed => negotiate_failed(m),
                StepOutcome::Complete => if has_status(reply, 200) {
                    accepted(header)
                } else {
                    negotiate_failed(m)
                },
                StepOutcome::Token(t) => go(
                    TunnelPhase::NegotiateSent { header: t, round: (round + 1) as u8 },
                    TunnelAction::Send(connect_request_spec(m.target, Some(t))),
                    CacheEffect::Keep,
                ),
            },
            _ => fail_auth(),
        },
        TunnelPhase::BasicPassword { user } => match e {
            TunnelEvent::Password(p) => match p {
                None => fail_auth(),
                Some(pw) => send_basic(m, user, pw, false),
            },
            _ => fail_auth(),
        },
        TunnelPhase::BasicSent { token } => match e {
            TunnelEvent::Reply(r) => if has_status(r, 200) {
                accepted(token)
            } else {
                fail_auth()
            },
            _ => fail_auth(),
        },
        TunnelPhase::FallbackUser => match e {
            TunnelEvent::FallbackUsername(u) => match u {
                None => fail_auth(),
                Some(user) => go(
                    TunnelPhase::FallbackPassword { user },
                    TunnelAction::FetchPassword(user),
                    CacheEffect::Keep,
                ),
            },
            _ => fail_auth(),
        },
        TunnelPhase::FallbackPassword { user } => match e {
            TunnelEvent::Password(p) => match p {
                None => fail_auth(),
                Some(pw) => send_basic(m, user, pw, true),
            },
            _ => fail_auth(),
        },
        TunnelPhase::FallbackSent { token } => match e {
            TunnelEvent::Reply(r) => if has_status(r, 200) {
                accepted(token)
            } else {
                fail_auth()
            },
            _ => fail_auth(),
        },
        TunnelPhase::Done => finish(TunnelAction::Fail),
    }
}

/// The phases hold only reachable round numbers.
pub open spec fn phase_wf(p: TunnelPhase<Seq<char>>) -> bool {
    match p {
        TunnelPhase::NegotiateSent { round, .. } => round <= MAX_EXTRA_ROUNDS,
        TunnelPhase::NegotiateStep { round, .. } => round < MAX_EXTRA_ROUNDS,
        _ => true,
    }
}

/// A measure that every transition out of an unfinished phase lowers.
pub open spec fn rank(p: TunnelPhase<Seq<char>>) -> nat {
    match p {
        TunnelPhase::Done => 0,
        TunnelPhase::BasicSent { .. } => 1,
        TunnelPhase::FallbackSent { .. } => 1,
        TunnelPhase::BasicPassword { .. } => 2,
        TunnelPhase::FallbackPassword { .. } => 2,
        TunnelPhase::FallbackUser => 3,
        TunnelPhase::NegotiateSent { round, .. } => (4 + 2 * (4 - round) + 1) as nat,
        TunnelPhase::NegotiateStep { round, .. } => (4 + 2 * (4 - round)) as nat,
        TunnelPhase::NegotiateFirstStep => 14,
        TunnelPhase::NegotiateInit { .. } => 15,
        TunnelPhase::PlainSent => 16,
        TunnelPhase::Reconnecting => 17,
        TunnelPhase::CachedSent => 18,
        TunnelPhase::Connecting => 19,
    }
}

// ─────────────────────────────── the machine ───────────────────────────────

/// The status code of a raw HTTP reply (see `reply_status`).
pub fn reply_status_of(resp: &str) -> (r: Option<u16>)
    ensures
        r == reply_status(resp@),
{
    let cs = chars_of(resp);
    let line = chars_before_first(cs.as_slice(), '\n');
    let found = find_char_from(line.as_slice(), ' ', 0);
    assert(line@.skip(0) == line@);
    match found {
        None => None,
        Some(i) => {
            let n = line.len();
            let rest = sub_chars(line.as_slice(), i + 1, n);
            assert(rest@ == line@.skip(i + 1));
            let word = chars_before_first(rest.as_slice(), ' ');
            let piece = chars_before_first(word.as_slice(), '\r');
            if piece.len() == 3 && piece[0] != '+' {
                parse_u16(piece.as_slice())
            } else {
                None
            }
        },
    }
}

/// Whether the reply's status code is `code`.
fn status_is(resp: &str, code: u16) -> (r: bool)
    ensures
        r == has_status(resp@, code),
{
    match reply_status_of(resp) {
        Some(c) => c == code,
        None => false,
    }
}

fn t_go(
    phase: TunnelPhase<String>,
    action: TunnelAction<String, Vec<u8>>,
    cache: CacheEffect<String>,
) -> (r: Transition<String, Vec<u8>>)
    ensures
        r@ == go(phase@, action@, cache@),
{
    Transition { phase, action, cache }
}

fn t_finish(action: TunnelAction<String, Vec<u8>>) -> (r: Transition<String, Vec<u8>>)
    ensures
        r@ == finish(action@),
{
    t_go(TunnelPhase::Done, action, CacheEffect::Keep)
}

fn t_fail_auth() -> (r: Transition<String, Vec<u8>>)
    ensures
        r@ == fail_auth(),
{
    t_go(TunnelPhase::Done, TunnelAction::Respond(ErrorReply::AuthFailed), CacheEffect::Clear)
}

fn t_accepted(token: String) -> (r: Transition<String, Vec<u8>>)
    ensures
        r@ == accepted(token@),
{
    t_go(TunnelPhase::Done, TunnelAction::Established, CacheEffect::Store(token))
}

fn t_fallback() -> (r: Transition<String, Vec<u8>>)
    ensures
        r@ == fallback_start(),
{
    t_go(TunnelPhase::FallbackUser, TunnelAction::LoadFallbackUser, CacheEffect::Keep)
}

impl Tunnel {
    /// The phase always holds a reachable round number.
    #[verifier::type_invariant]
    spec fn wf(self) -> bool {
        phase_wf(self.phase@)
    }

    /// A tunnel to `target` (the CONNECT request's URI) through the upstream
    /// proxy at `upstream`; its first action is to connect.
    pub fn new(target: &str, upstream: &str, method: AuthMethod, username: Option<&str>) -> (t: Self)
        ensures
            t@.target == target@,
            t@.host == upstream_host_spec(upstream@),
            t@.port == upstream_port_spec(upstream@),
            t@.method == method,
            t@.username == match username {
                Some(u) => Some(u@),
                None => None::<Seq<char>>,
            },
            t@.phase is Connecting,
    {
        let (host, port) = split_upstream(upstream);
        Tunnel {
            target: target.to_owned(),
            upstream_host: host,
            upstream_port: port,
            method,
            username: match username {
                Some(u) => Some(u.to_owned()),
                None => None,
            },
            phase: TunnelPhase::Connecting,
        }
    }

    /// Whether the handshake has ended.
    pub fn is_done(&self) -> (r: bool)
        ensures
            r == (self@.phase is Done),
    {
        matches!(self.phase, TunnelPhase::Done)
    }

    fn request(&self, token: Option<&str>) -> (r: String)
        ensures
            r@ == connect_request_spec(
                self@.target,
                match token {
                    Some(t) => Some(t@),
                    None => None,
                },
            ),
    {
        connect_request(self.target.as_str(), token)
    }

    fn t_negotiate_failed(&self) -> (r: Transition<String, Vec<u8>>)
        ensures
            r@ == negotiate_failed(self@),
    {
        if self.method.allows_basic() {
            t_fallback()
        } else {
            t_fail_auth()
        }
    }

    fn t_basic_start(&self) -> (r: Transition<String, Vec<u8>>)
        ensures
            r@ == basic_start(self@),
    {
        match &self.username {
            None => t_fail_auth(),
            Some(u) => t_go(
                TunnelPhase::BasicPassword { user: u.clone() },
                TunnelAction::FetchPassword(u.clone()),
                CacheEffect::Keep,
            ),
        }
    }

    fn t_handshake_start(&self, resp: &str) -> (r: Transition<String, Vec<u8>>)
        ensures
            r@ == handshake_start(self@, resp@),
    {
        let h = extract_proxy_authenticate(resp);
        let negotiate_ok = self.method.allows_negotiate();
        let basic_ok = self.method.allows_basic();
        match detect_scheme(h.as_str()) {
            AuthScheme::Negotiate => if negotiate_ok {
                let challenge = extract_negotiate_challenge(h.as_str());
                t_go(
                    TunnelPhase::NegotiateInit { challenge },
                    TunnelAction::StartNegotiate {
                        host: self.upstream_host.clone(),
                        port: self.upstream_port,
                    },
                    CacheEffect::Keep,
                )
            } else if self.method == AuthMethod::Basic {
                self.t_basic_start()
            } else {
                t_fail_auth()
            },
            AuthScheme::Basic => if basic_ok {
                self.t_basic_start()
            } else {
                t_fail_auth()
            },
            AuthScheme::Unknown => t_fail_auth(),
        }
    }

    fn t_decide(&self, resp: &str) -> (r: Transition<String, Vec<u8>>)
        ensures
            r@ == decide(self@, resp@),
    {
        if status_is(resp, 407) {
            self.t_handshake_start(resp)
        } else if !status_is(resp, 200) {
            t_finish(TunnelAction::Respond(ErrorReply::ConnectRefused))
        } else {
            t_finish(TunnelAction::Established)
        }
    }

    fn t_negotiate_reply(&self, header: String, round: u8, resp: String) -> (r: Transition<
        String,
        Vec<u8>,
    >)
        ensures
            r@ == negotiate_reply(self@, header@, round, resp@),
    {
        if status_is(resp.as_str(), 200) {
            return t_accepted(header);
        }
        if round >= MAX_EXTRA_ROUNDS {
            return self.t_negotiate_failed();
        }
        if !status_is(resp.as_str(), 407) {
            return t_fail_auth();
        }
        let h = extract_proxy_authenticate(resp.as_str());
        let ch = extract_negotiate_challenge(h.as_str());
        if ch.as_str().is_empty() {
            self.t_negotiate_failed()
        } else {
            match decode_base64(ch.as_str()) {
                None => self.t_negotiate_failed(),
                Some(b) => t_go(
                    TunnelPhase::NegotiateStep { header, round, reply: resp },
                    TunnelAction::NegotiateStep(b),
                    CacheEffect::Keep,
                ),
            }
        }
    }

    fn t_send_basic(&self, user: String, pw: String, fresh: bool) -> (r: Transition<
        String,
        Vec<u8>,
    >)
        ensures
            r@ == send_basic(self@, user@, pw@, fresh),
    {
        if !check_credentials_fit(user.as_str(), pw.as_str()) {
            return t_finish(TunnelAction::Abort);
        }
        let token = basic_token(user.as_str(), pw.as_str());
        let req = self.request(Some(token.as_str()));
        if fresh {
            t_go(TunnelPhase::FallbackSent { token }, TunnelAction::SendFresh(req), CacheEffect::Keep)
        } else {
            t_go(TunnelPhase::BasicSent { token }, TunnelAction::Send(req), CacheEffect::Keep)
        }
    }

    fn t_next(&self, e: TunnelEvent<String>, cached: Option<String>) -> (r: Transition<
        String,
        Vec<u8>,
    >)
        requires
            phase_wf(self@.phase),
        ensures
            r@ == tunnel_next(self@, e@, opt_view(cached)),
    {
        match &self.phase {
            TunnelPhase::Connecting => match e {
                TunnelEvent::Connected(ok) => if !ok {
                    t_finish(TunnelAction::Respond(ErrorReply::UpstreamUnreachable))
                } else {
                    match cached {
                        Some(t) => {
                            let req = self.request(Some(t.as_str()));
                            t_go(TunnelPhase::CachedSent, TunnelAction::Send(req), CacheEffect::Keep)
                        },
                        None => {
                            let req = self.request(None);
                            t_go(TunnelPhase::PlainSent, TunnelAction::Send(req), CacheEffect::Keep)
                        },
                    }
                },
                _ => t_finish(TunnelAction::Fail),
            },
            TunnelPhase::CachedSent => match e {
                TunnelEvent::Reply(r) => if status_is(r.as_str(), 200) {
                    self.t_decide(r.as_str())
                } else if status_is(r.as_str(), 407) {
                    t_go(TunnelPhase::Reconnecting, TunnelAction::Reconnect, CacheEffect::Clear)
                } else {
                    t_finish(TunnelAction::Respond(ErrorReply::ConnectRefused))
                },
                _ => t_finish(TunnelAction::Fail),
            },
            TunnelPhase::Reconnecting => match e {
                TunnelEvent::Reconnected => self.t_decide(
                    "HTTP/1.1 407 Proxy Authentication Required\r\n\r\n",
                ),
                _ => t_finish(TunnelAction::Fail),
            },
            TunnelPhase::PlainSent => match e {
                TunnelEvent::Reply(r) => self.t_decide(r.as_str()),
                _ => t_finish(TunnelAction::Fail),
            },
            TunnelPhase::NegotiateInit { challenge } => match e {
                TunnelEvent::NegotiateStarted(res) => match res {
                    None => self.t_negotiate_failed(),
                    Some(h) => if challenge.as_str().is_empty() {
                        let req = self.request(Some(h.as_str()));
                        t_go(
                            TunnelPhase::NegotiateSent { header: h, round: 0 },
                            TunnelAction::Send(req),
                            CacheEffect::Keep,
                        )
                    } else {
                        match decode_base64(challenge.as_str()) {
                            None => t_fail_auth(),
                            Some(b) => t_go(
                                TunnelPhase::NegotiateFirstStep,
                                TunnelAction::NegotiateStep(b),
                                CacheEffect::Keep,
                            ),
                        }
                    },
                },
                _ => t_fail_auth(),
            },
            TunnelPhase::NegotiateFirstStep => match e {
                TunnelEvent::NegotiateStepped(o) => match o {
                    StepOutcome::Failed => t_fail_auth(),
                    StepOutcome::Complete => self.t_negotiate_failed(),
                    StepOutcome::Token(t) => {
                        let req = self.request(Some(t.as_str()));
                        t_go(
                            TunnelPhase::NegotiateSent { header: t, round: 0 },
                            TunnelAction::Send(req),
                            CacheEffect::Keep,
                        )
                    },
                },
                _ => t_fail_auth(),
            },
            TunnelPhase::NegotiateSent { header, round } => match e {
                TunnelEvent::Reply(r) => self.t_negotiate_reply(header.clone(), *round, r),
                _ => t_fail_auth(),
            },
            TunnelPhase::NegotiateStep { header, round, reply } => match e {
                TunnelEvent::NegotiateStepped(o) => match o {
                    StepOutcome::Failed => self.t_negotiate_failed(),
                    StepOutcome::Complete => if status_is(reply.as_str(), 200) {
                        t_accepted(header.clone())
                    } else {
                        self.t_negotiate_failed()
                    },
                    StepOutcome::Token(t) => {
                        let req = self.request(Some(t.as_str()));
                        let next = *round + 1;
                        t_go(
                            TunnelPhase::NegotiateSent { header: t, round: next },
                            TunnelAction::Send(req),
                            CacheEffect::Keep,
                        )
                    },
                },
                _ => t_fail_auth(),
            },
            TunnelPhase::BasicPassword { user } => match e {
                TunnelEvent::Password(p) => match p {
                    None => t_fail_auth(),
                    Some(pw) => self.t_send_basic(user.clone(), pw, false),
                },
                _ => t_fail_auth(),
            },
            TunnelPhase::BasicSent { token } => match e {
                TunnelEvent::Reply(r) => if status_is(r.as_str(), 200) {
                    t_accepted(token.clone())
                } else {
                    t_fail_auth()
                },
                _ => t_fail_auth(),
            },
            TunnelPhase::FallbackUser => match e {
                TunnelEvent::FallbackUsername(u) => match u {
                    None => t_fail_auth(),
                    Some(user) => {
                        let fetch = TunnelAction::FetchPassword(user.clone());
                        t_go(TunnelPhase::FallbackPassword { user }, fetch, CacheEffect::Keep)
                    },
                },
                _ => t_fail_auth(),
            },
            TunnelPhase::FallbackPassword { user } => match e {
                TunnelEvent::Password(p) => match p {
                    None => t_fail_auth(),
                    Some(pw) => self.t_send_basic(user.clone(), pw, true),
                },
                _ => t_fail_auth(),
            },
            TunnelPhase::FallbackSent { token } => match e {
                TunnelEvent::Reply(r) => if status_is(r.as_str(), 200) {
                    t_accepted(token.clone())
                } else {
                    t_fail_auth()
                },
                _ => t_fail_auth(),
            },
            TunnelPhase::Done => t_finish(TunnelAction::Fail),
        }
    }

    /// Advances the handshake on `event`, reading and updating the token
    /// `cache` at time `now`, and returns what to do next.
    pub fn step(&mut self, event: TunnelEvent<String>, cache: &mut SpnegoCache, now: u64) -> (action:
        TunnelAction<String, Vec<u8>>)
        ensures
            ({
                let t = tunnel_next(
                    old(self)@,
                    event@,
                    cache_lookup(old(cache).entry(), old(cache).ttl(), now),
                );
                &&& final(self)@.phase == t.phase
                &&& final(self)@.target == old(self)@.target
                &&& final(self)@.host == old(self)@.host
                &&& final(self)@.port == old(self)@.port
                &&& final(self)@.method == old(self)@.method
                &&& final(self)@.username == old(self)@.username
                &&& action@ == t.action
                &&& final(cache).ttl() == old(cache).ttl()
                &&& match t.cache {
                    CacheEffect::Keep => final(cache).entry() == old(cache).entry(),
                    CacheEffect::Clear => final(cache).entry() is None,
                    CacheEffect::Store(tok) => final(cache).entry() == Some((tok, now)),
                }
            }),
            phase_wf(final(self)@.phase),
    {
        proof {
            use_type_invariant(&*self);
        }
        let cached = match &self.phase {
            TunnelPhase::Connecting => cache.get(now),
            _ => None,
        };
        proof {
            if !(self@.phase is Connecting) {
                assert(tunnel_next(self@, event@, opt_view(cached)) == tunnel_next(
                    self@,
                    event@,
                    cache_lookup(cache.entry(), cache.ttl(), now),
                ));
            }
        }
        let t = self.t_next(event, cached);
        proof {
            if !(self@.phase is Done) {
                lemma_tunnel_progress(self@, event@, opt_view(cached));
            }
        }
        let Transition { phase, action, cache: effect } = t;
        self.phase = phase;
        match effect {
            CacheEffect::Keep => {},
            CacheEffect::Clear => cache.clear(),
            CacheEffect::Store(tok) => cache.set(tok, now),
        }
        action
    }
}

// ─────────────────────────────── laws ───────────────────────────────

/// Every step from an unfinished phase reaches a well-formed phase of lower
/// rank: the handshake always ends, and a Negotiate handshake sends at most
/// one initial and four further authenticated CONNECTs.
pub proof fn lemma_tunnel_progress(
    m: TunnelModel,
    e: TunnelEvent<Seq<char>>,
    cached: Option<Seq<char>>,
)
    requires
        phase_wf(m.phase),
        !(m.phase is Done),
    ensures
        phase_wf(tunnel_next(m, e, cached).phase),
        rank(tunnel_next(m, e, cached).phase) < rank(m.phase),
{
}

/// A token is stored in the cache only when the tunnel is established.
pub proof fn lemma_cache_stored_only_on_success(
    m: TunnelModel,
    e: TunnelEvent<Seq<char>>,
    cached: Option<Seq<char>>,
)
    ensures
        tunnel_next(m, e, cached).cache is Store ==> tunnel_next(m, e, cached).action
            is Established,
{
}

/// Whenever authentication fails the cached token is forgotten.
pub proof fn lemma_auth_failure_clears_cache(
    m: TunnelModel,
    e: TunnelEvent<Seq<char>>,
    cached: Option<Seq<char>>,
)
    ensures
        tunnel_next(m, e, cached).action == TunnelAction::<Seq<char>, Seq<u8>>::Respond(
            ErrorReply::AuthFailed,
        ) ==> tunnel_next(m, e, cached).cache is Clear,
{
}

/// With authentication disabled a `407` is never answered with credentials:
/// no Negotiate context is started and no password is read.
pub proof fn lemma_disabled_sends_no_credentials(
    m: TunnelModel,
    e: TunnelEvent<Seq<char>>,
    cached: Option<Seq<char>>,
)
    requires
        m.method == AuthMethod::Disabled,
        m.phase is PlainSent || m.phase is CachedSent || m.phase is Reconnecting,
    ensures
        !(tunnel_next(m, e, cached).action is StartNegotiate),
        !(tunnel_next(m, e, cached).action is FetchPassword),
        !(tunnel_next(m, e, cached).action is LoadFallbackUser),
{
}

/// A fresh cached token is sent with the first CONNECT.
pub proof fn lemma_cached_token_reused(m: TunnelModel, token: Seq<char>)
    requires
        m.phase is Connecting,
    ensures
        tunnel_next(m, TunnelEvent::Connected(true), Some(token)).action == TunnelAction::<
            Seq<char>,
            Seq<u8>,
        >::Send(connect_request_spec(m.target, Some(token))),
{
}

/// Phases that answer with Basic credentials.
pub open spec fn basic_phase(p: TunnelPhase<Seq<char>>) -> bool {
    p is BasicPassword || p is BasicSent || p is FallbackUser || p is FallbackPassword
        || p is FallbackSent
}

/// Phases that answer with Negotiate.
pub open spec fn negotiate_phase(p: TunnelPhase<Seq<char>>) -> bool {
    p is NegotiateInit || p is NegotiateFirstStep || p is NegotiateSent || p is NegotiateStep
}

/// With method `negotiate` the handshake never turns to Basic: no Basic
/// phase is entered and no password or fallback user is read.
pub proof fn lemma_negotiate_method_never_uses_basic(
    m: TunnelModel,
    e: TunnelEvent<Seq<char>>,
    cached: Option<Seq<char>>,
)
    requires
        m.method == AuthMethod::Negotiate,
        !basic_phase(m.phase),
    ensures
        !basic_phase(tunnel_next(m, e, cached).phase),
        !(tunnel_next(m, e, cached).action is FetchPassword),
        !(tunnel_next(m, e, cached).action is LoadFallbackUser),
{
}

/// With method `basic` the handshake never turns to Negotiate: no
/// Negotiate phase is entered and no context is started or stepped.
pub proof fn lemma_basic_method_never_negotiates(
    m: TunnelModel,
    e: TunnelEvent<Seq<char>>,
    cached: Option<Seq<char>>,
)
    requires
        m.method == AuthMethod::Basic,
        !negotiate_phase(m.phase),
    ensures
        !negotiate_phase(tunnel_next(m, e, cached).phase),
        !(tunnel_next(m, e, cached).action is StartNegotiate),
        !(tunnel_next(m, e, cached).action is NegotiateStep),
{
}

/// Whenever the handshake enters a Negotiate round, the CONNECT it sends
/// carries the header that the round records.
pub proof fn lemma_negotiate_phase_records_sent_header(
    m: TunnelModel,
    e: TunnelEvent<Seq<char>>,
    cached: Option<Seq<char>>,
)
    ensures
        tunnel_next(m, e, cached).phase matches TunnelPhase::NegotiateSent { header, .. }
            ==> tunnel_next(m, e, cached).action == TunnelAction::<Seq<char>, Seq<u8>>::Send(
            connect_request_spec(m.target, Some(header)),
        ),
{
}

/// A 200 to a Negotiate CONNECT caches exactly the header that CONNECT
/// carried: the token of the last round, the one the proxy accepted.
pub proof fn lemma_accepted_header_cached(
    m: TunnelModel,
    header: Seq<char>,
    round: u8,
    resp: Seq<char>,
    cached: Option<Seq<char>>,
)
    requires
        m.phase == (TunnelPhase::NegotiateSent { header, round }),
        has_status(resp, 200),
    ensures
        tunnel_next(m, TunnelEvent::Reply(resp), cached).cache == CacheEffect::Store(header),
        tunnel_next(m, TunnelEvent::Reply(resp), cached).action is Established,
{
}

/// A reply is classified by its status code alone: one whose status is
/// neither 200 nor 407 is answered 502 on a fresh tunnel, whatever its
/// text holds.
pub proof fn lemma_other_status_refused(m: TunnelModel, resp: Seq<char>, cached: Option<Seq<char>>)
    requires
        m.phase is PlainSent,
        !has_status(resp, 200),
        !has_status(resp, 407),
    ensures
        tunnel_next(m, TunnelEvent::Reply(resp), cached).action == TunnelAction::<
            Seq<char>,
            Seq<u8>,
        >::Respond(ErrorReply::ConnectRefused),
{
}

/// When Negotiate fails because the proxy refuses the token with a `407`
/// that carries no further challenge, the handshake turns to Basic with
/// the configured user where the method allows Basic, and fails otherwise.
pub proof fn lemma_refused_token_falls_back(
    m: TunnelModel,
    header: Seq<char>,
    round: u8,
    resp: Seq<char>,
    cached: Option<Seq<char>>,
)
    requires
        m.phase == (TunnelPhase::NegotiateSent { header, round }),
        has_status(resp, 407),
        negotiate_challenge_spec(proxy_authenticate_text(resp)).len() == 0,
    ensures
        basic_allowed(m.method) ==> tunnel_next(m, TunnelEvent::Reply(resp), cached).action
            == TunnelAction::<Seq<char>, Seq<u8>>::LoadFallbackUser && tunnel_next(
            m,
            TunnelEvent::Reply(resp),
            cached,
        ).phase == TunnelPhase::<Seq<char>>::FallbackUser,
        !basic_allowed(m.method) ==> tunnel_next(m, TunnelEvent::Reply(resp), cached).action
            == TunnelAction::<Seq<char>, Seq<u8>>::Respond(ErrorReply::AuthFailed),
{
}

} // verus!
