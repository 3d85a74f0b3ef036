use proxypass::config::AuthMethod;
use proxypass::proxy::ErrorReply;
use proxypass::spnego::SpnegoCache;
use proxypass::tunnel::{reply_status_of, StepOutcome, Tunnel, TunnelAction, TunnelEvent};

type Action = TunnelAction<String, Vec<u8>>;

fn describe(a: &Action) -> String {
    match a {
        TunnelAction::Connect => "connect".to_string(),
        TunnelAction::Send(s) => format!("send {}", s),
        TunnelAction::Reconnect => "reconnect".to_string(),
        TunnelAction::StartNegotiate { host, port } => format!("negotiate {}:{}", host, port),
        TunnelAction::NegotiateStep(b) => format!("step {:?}", b),
        TunnelAction::LoadFallbackUser => "load user".to_string(),
        TunnelAction::FetchPassword(u) => format!("password {}", u),
        TunnelAction::SendFresh(s) => format!("fresh {}", s),
        TunnelAction::Established => "established".to_string(),
        TunnelAction::Respond(e) => format!("respond {}", e.status()),
        TunnelAction::Fail => "fail".to_string(),
        TunnelAction::Abort => "abort".to_string(),
    }
}

fn reply(s: &str) -> TunnelEvent<String> {
    TunnelEvent::Reply(s.to_string())
}

const TARGET: &str = "example.com:443";
const OK: &str = "HTTP/1.1 200 Connection established\r\n\r\n";

fn plain_connect() -> String {
    format!("send CONNECT {t} HTTP/1.1\r\nHost: {t}\r\n\r\n", t = TARGET)
}

fn auth_connect(token: &str) -> String {
    format!(
        "send CONNECT {t} HTTP/1.1\r\nHost: {t}\r\nProxy-Authorization: {k}\r\n\r\n",
        t = TARGET,
        k = token
    )
}

#[test]
fn tunnel_opens_without_authentication() {
    let mut cache = SpnegoCache::new();
    let mut t = Tunnel::new(TARGET, "proxy.corp:8080", AuthMethod::Negotiate, None);
    assert!(!t.is_done());
    let a = t.step(TunnelEvent::Connected(true), &mut cache, 0);
    assert_eq!(describe(&a), plain_connect());
    let a = t.step(reply(OK), &mut cache, 1);
    assert_eq!(describe(&a), "established");
    assert!(t.is_done());
    assert_eq!(cache.get(2), None);
}

#[test]
fn tunnel_upstream_unreachable() {
    let mut cache = SpnegoCache::new();
    let mut t = Tunnel::new(TARGET, "proxy.corp:8080", AuthMethod::Negotiate, None);
    let a = t.step(TunnelEvent::Connected(false), &mut cache, 0);
    assert!(matches!(a, TunnelAction::Respond(ErrorReply::UpstreamUnreachable)));
    assert!(t.is_done());
}

#[test]
fn tunnel_connect_refused() {
    let mut cache = SpnegoCache::new();
    let mut t = Tunnel::new(TARGET, "proxy.corp:8080", AuthMethod::Negotiate, None);
    t.step(TunnelEvent::Connected(true), &mut cache, 0);
    let a = t.step(reply("HTTP/1.1 502 Bad Gateway\r\n\r\n"), &mut cache, 0);
    assert!(matches!(a, TunnelAction::Respond(ErrorReply::ConnectRefused)));
}

#[test]
fn tunnel_io_failure_fails_request() {
    let mut cache = SpnegoCache::new();
    let mut t = Tunnel::new(TARGET, "proxy.corp:8080", AuthMethod::Negotiate, None);
    t.step(TunnelEvent::Connected(true), &mut cache, 0);
    let a = t.step(TunnelEvent::IoFailed, &mut cache, 0);
    assert_eq!(describe(&a), "fail");
    assert!(t.is_done());
}

#[test]
fn tunnel_basic_handshake_caches_token() {
    let mut cache = SpnegoCache::new();
    let mut t = Tunnel::new(TARGET, "proxy.corp:8080", AuthMethod::Auto, Some("alice"));
    t.step(TunnelEvent::Connected(true), &mut cache, 0);
    let a = t.step(
        reply("HTTP/1.1 407 Proxy Authentication Required\r\nProxy-Authenticate: Basic realm=\"corp\"\r\n\r\n"),
        &mut cache,
        0,
    );
    assert_eq!(describe(&a), "password alice");
    let a = t.step(TunnelEvent::Password(Some("secret".to_string())), &mut cache, 0);
    assert_eq!(describe(&a), auth_connect("Basic YWxpY2U6c2VjcmV0"));
    let a = t.step(reply(OK), &mut cache, 5);
    assert_eq!(describe(&a), "established");
    assert_eq!(cache.get(6), Some("Basic YWxpY2U6c2VjcmV0".to_string()));
}

#[test]
fn tunnel_basic_without_username_fails() {
    let mut cache = SpnegoCache::new();
    let mut t = Tunnel::new(TARGET, "proxy.corp:8080", AuthMethod::Basic, None);
    t.step(TunnelEvent::Connected(true), &mut cache, 0);
    let a = t.step(reply("HTTP/1.1 407 x\r\nProxy-Authenticate: Basic\r\n\r\n"), &mut cache, 0);
    assert!(matches!(a, TunnelAction::Respond(ErrorReply::AuthFailed)));
}

#[test]
fn tunnel_basic_rejected_clears_cache() {
    let mut cache = SpnegoCache::new();
    let mut t = Tunnel::new(TARGET, "proxy.corp:8080", AuthMethod::Basic, Some("u"));
    t.step(TunnelEvent::Connected(true), &mut cache, 0);
    t.step(reply("HTTP/1.1 407 x\r\nProxy-Authenticate: Basic\r\n\r\n"), &mut cache, 0);
    t.step(TunnelEvent::Password(Some("p".to_string())), &mut cache, 0);
    let a = t.step(reply("HTTP/1.1 407 again\r\n\r\n"), &mut cache, 0);
    assert_eq!(describe(&a), "respond 407");
    assert_eq!(cache.get(0), None);
}

#[test]
fn tunnel_cached_token_is_reused() {
    let mut cache = SpnegoCache::new();
    cache.set("Negotiate cached".to_string(), 100);
    let mut t = Tunnel::new(TARGET, "proxy.corp:8080", AuthMethod::Negotiate, None);
    let a = t.step(TunnelEvent::Connected(true), &mut cache, 200);
    assert_eq!(describe(&a), auth_connect("Negotiate cached"));
    let a = t.step(reply(OK), &mut cache, 200);
    assert_eq!(describe(&a), "established");
    assert_eq!(cache.get(300), Some("Negotiate cached".to_string()));
}

#[test]
fn tunnel_stale_cached_token_is_not_sent() {
    let mut cache = SpnegoCache::new();
    cache.set("Negotiate old".to_string(), 0);
    let mut t = Tunnel::new(TARGET, "proxy.corp:8080", AuthMethod::Negotiate, None);
    let a = t.step(TunnelEvent::Connected(true), &mut cache, 3_600_000_000_000);
    assert_eq!(describe(&a), plain_connect());
}

#[test]
fn tunnel_refused_cached_token_reauthenticates() {
    let mut cache = SpnegoCache::new();
    cache.set("Negotiate cached".to_string(), 0);
    let mut t = Tunnel::new(TARGET, "proxy.corp:8080", AuthMethod::Negotiate, None);
    t.step(TunnelEvent::Connected(true), &mut cache, 1);
    let a = t.step(reply("HTTP/1.1 407 Proxy Authentication Required\r\n\r\n"), &mut cache, 1);
    assert_eq!(describe(&a), "reconnect");
    assert_eq!(cache.get(1), None);
    // The stand-in reply names no scheme, so the handshake gives up.
    let a = t.step(TunnelEvent::Reconnected, &mut cache, 1);
    assert_eq!(describe(&a), "respond 407");
}

#[test]
fn tunnel_negotiate_single_round() {
    let mut cache = SpnegoCache::new();
    let mut t = Tunnel::new(TARGET, "proxy.corp:8080", AuthMethod::Negotiate, None);
    t.step(TunnelEvent::Connected(true), &mut cache, 0);
    let a = t.step(reply("HTTP/1.1 407 x\r\nProxy-Authenticate: Negotiate\r\n\r\n"), &mut cache, 0);
    assert_eq!(describe(&a), "negotiate proxy.corp:8080");
    let a = t.step(
        TunnelEvent::NegotiateStarted(Some("Negotiate YIIB".to_string())),
        &mut cache,
        0,
    );
    assert_eq!(describe(&a), auth_connect("Negotiate YIIB"));
    let a = t.step(reply(OK), &mut cache, 7);
    assert_eq!(describe(&a), "established");
    assert_eq!(cache.get(8), Some("Negotiate YIIB".to_string()));
}

#[test]
fn tunnel_negotiate_second_round_caches_final_header() {
    let mut cache = SpnegoCache::new();
    let mut t = Tunnel::new(TARGET, "proxy.corp:8080", AuthMethod::Negotiate, None);
    t.step(TunnelEvent::Connected(true), &mut cache, 0);
    t.step(reply("HTTP/1.1 407 x\r\nProxy-Authenticate: Negotiate\r\n\r\n"), &mut cache, 0);
    t.step(TunnelEvent::NegotiateStarted(Some("Negotiate first".to_string())), &mut cache, 0);
    let a = t.step(reply("HTTP/1.1 407 x\r\nProxy-Authenticate: Negotiate AQID\r\n\r\n"), &mut cache, 0);
    assert_eq!(describe(&a), "step [1, 2, 3]");
    let a = t.step(
        TunnelEvent::NegotiateStepped(StepOutcome::Token("Negotiate second".to_string())),
        &mut cache,
        0,
    );
    assert_eq!(describe(&a), auth_connect("Negotiate second"));
    let a = t.step(reply(OK), &mut cache, 9);
    assert_eq!(describe(&a), "established");
    assert_eq!(cache.get(9), Some("Negotiate second".to_string()));
}

#[test]
fn tunnel_negotiate_failure_falls_back_to_basic() {
    let mut cache = SpnegoCache::new();
    let mut t = Tunnel::new(TARGET, "proxy.corp:8080", AuthMethod::Auto, None);
    t.step(TunnelEvent::Connected(true), &mut cache, 0);
    t.step(reply("HTTP/1.1 407 x\r\nProxy-Authenticate: Negotiate\r\n\r\n"), &mut cache, 0);
    let a = t.step(TunnelEvent::NegotiateStarted(None), &mut cache, 0);
    assert_eq!(describe(&a), "load user");
    let a = t.step(TunnelEvent::FallbackUsername(Some("u".to_string())), &mut cache, 0);
    assert_eq!(describe(&a), "password u");
    let a = t.step(TunnelEvent::Password(Some("p".to_string())), &mut cache, 0);
    assert_eq!(
        describe(&a),
        format!(
            "fresh CONNECT {t} HTTP/1.1\r\nHost: {t}\r\nProxy-Authorization: Basic dTpw\r\n\r\n",
            t = TARGET
        )
    );
    let a = t.step(reply(OK), &mut cache, 4);
    assert_eq!(describe(&a), "established");
    assert_eq!(cache.get(4), Some("Basic dTpw".to_string()));
}

#[test]
fn tunnel_fallback_without_user_fails() {
    let mut cache = SpnegoCache::new();
    let mut t = Tunnel::new(TARGET, "proxy.corp:8080", AuthMethod::Auto, None);
    t.step(TunnelEvent::Connected(true), &mut cache, 0);
    t.step(reply("HTTP/1.1 407 x\r\nProxy-Authenticate: Negotiate\r\n\r\n"), &mut cache, 0);
    t.step(TunnelEvent::NegotiateStarted(None), &mut cache, 0);
    let a = t.step(TunnelEvent::FallbackUsername(None), &mut cache, 0);
    assert!(matches!(a, TunnelAction::Respond(ErrorReply::AuthFailed)));
}

#[test]
fn tunnel_negotiate_gives_up_after_five_connects() {
    let mut cache = SpnegoCache::new();
    let mut t = Tunnel::new(TARGET, "proxy.corp:8080", AuthMethod::Auto, None);
    t.step(TunnelEvent::Connected(true), &mut cache, 0);
    t.step(reply("HTTP/1.1 407 x\r\nProxy-Authenticate: Negotiate\r\n\r\n"), &mut cache, 0);
    t.step(TunnelEvent::NegotiateStarted(Some("Negotiate a".to_string())), &mut cache, 0);
    let challenge = "HTTP/1.1 407 x\r\nProxy-Authenticate: Negotiate AQID\r\n\r\n";
    for _ in 0..4 {
        let a = t.step(reply(challenge), &mut cache, 0);
        assert_eq!(describe(&a), "step [1, 2, 3]");
        let a = t.step(
            TunnelEvent::NegotiateStepped(StepOutcome::Token("Negotiate b".to_string())),
            &mut cache,
            0,
        );
        assert_eq!(describe(&a), auth_connect("Negotiate b"));
    }
    let a = t.step(reply(challenge), &mut cache, 0);
    assert_eq!(describe(&a), "load user");
}

#[test]
fn tunnel_disabled_auth_refuses_407() {
    let mut cache = SpnegoCache::new();
    let mut t = Tunnel::new(TARGET, "proxy.corp:8080", AuthMethod::Disabled, Some("u"));
    t.step(TunnelEvent::Connected(true), &mut cache, 0);
    let a = t.step(reply("HTTP/1.1 407 x\r\nProxy-Authenticate: Negotiate\r\n\r\n"), &mut cache, 0);
    assert_eq!(describe(&a), "respond 407");
    assert!(t.is_done());
}

#[test]
fn tunnel_unknown_scheme_fails() {
    let mut cache = SpnegoCache::new();
    let mut t = Tunnel::new(TARGET, "proxy.corp:8080", AuthMethod::Auto, Some("u"));
    t.step(TunnelEvent::Connected(true), &mut cache, 0);
    let a = t.step(reply("HTTP/1.1 407 x\r\nProxy-Authenticate: NTLM\r\n\r\n"), &mut cache, 0);
    assert_eq!(describe(&a), "respond 407");
}

#[test]
fn tunnel_done_ignores_events() {
    let mut cache = SpnegoCache::new();
    let mut t = Tunnel::new(TARGET, "proxy.corp", AuthMethod::Negotiate, None);
    t.step(TunnelEvent::Connected(false), &mut cache, 0);
    let a = t.step(TunnelEvent::Connected(true), &mut cache, 0);
    assert_eq!(describe(&a), "fail");
}

#[test]
fn tunnel_default_upstream_port() {
    let mut cache = SpnegoCache::new();
    let mut t = Tunnel::new(TARGET, "proxy.corp", AuthMethod::Negotiate, None);
    t.step(TunnelEvent::Connected(true), &mut cache, 0);
    let a = t.step(reply("HTTP/1.1 407 x\r\nProxy-Authenticate: Kerberos\r\n\r\n"), &mut cache, 0);
    assert_eq!(describe(&a), "negotiate proxy.corp:3128");
}

#[test]
fn tunnel_status_read_from_first_line() {
    let mut cache = SpnegoCache::new();
    let mut t = Tunnel::new(TARGET, "proxy.corp:8080", AuthMethod::Auto, None);
    t.step(TunnelEvent::Connected(true), &mut cache, 0);
    let a = t.step(reply("HTTP/1.1 503 Busy 200\r\n\r\n"), &mut cache, 0);
    assert!(matches!(a, TunnelAction::Respond(ErrorReply::ConnectRefused)));
    let mut t = Tunnel::new(TARGET, "proxy.corp:8080", AuthMethod::Auto, Some("u"));
    t.step(TunnelEvent::Connected(true), &mut cache, 0);
    let a = t.step(reply("HTTP/1.1 200 OK\r\nX-Note: 407\r\n\r\n"), &mut cache, 0);
    assert_eq!(describe(&a), "established");
}

#[test]
fn tunnel_negotiate_method_has_no_basic_fallback() {
    let mut cache = SpnegoCache::new();
    let mut t = Tunnel::new(TARGET, "proxy.corp:8080", AuthMethod::Negotiate, Some("u"));
    t.step(TunnelEvent::Connected(true), &mut cache, 0);
    t.step(reply("HTTP/1.1 407 x\r\nProxy-Authenticate: Negotiate\r\n\r\n"), &mut cache, 0);
    let a = t.step(TunnelEvent::NegotiateStarted(None), &mut cache, 0);
    assert_eq!(describe(&a), "respond 407");
    let mut t = Tunnel::new(TARGET, "proxy.corp:8080", AuthMethod::Negotiate, Some("u"));
    t.step(TunnelEvent::Connected(true), &mut cache, 0);
    let a = t.step(reply("HTTP/1.1 407 x\r\nProxy-Authenticate: Basic\r\n\r\n"), &mut cache, 0);
    assert_eq!(describe(&a), "respond 407");
}

#[test]
fn tunnel_basic_method_answers_negotiate_with_basic() {
    let mut cache = SpnegoCache::new();
    let mut t = Tunnel::new(TARGET, "proxy.corp:8080", AuthMethod::Basic, Some("u"));
    t.step(TunnelEvent::Connected(true), &mut cache, 0);
    let a = t.step(reply("HTTP/1.1 407 x\r\nProxy-Authenticate: Negotiate\r\n\r\n"), &mut cache, 0);
    assert_eq!(describe(&a), "password u");
}

#[test]
fn reply_status_codes() {
    assert_eq!(reply_status_of("HTTP/1.1 200 Connection established\r\n\r\n"), Some(200));
    assert_eq!(reply_status_of("HTTP/1.1 407\r\n"), Some(407));
    assert_eq!(reply_status_of("HTTP/1.0 503 Busy 200"), Some(503));
    assert_eq!(reply_status_of("garbage"), None);
    assert_eq!(reply_status_of("HTTP/1.1 20 short"), None);
    assert_eq!(reply_status_of(""), None);
}
