use proxypass::config::Config;
use proxypass::pac::{
    evaluate_pac, fingerprint_names, hash_network_interfaces, interface_names,
    interrupt_budget_spent, is_tracked_interface, pac_call_expression, pac_helpers, pac_program,
    parse_pac_result, run_pac_program, PacEngine, PacError, PacStep, ProxyDirective,
    MAX_INTERRUPT_POLLS, PAC_HELPERS,
};

fn directive(s: &str) -> Option<String> {
    match parse_pac_result(s) {
        ProxyDirective::Direct => None,
        ProxyDirective::Proxy(a) => Some(a),
    }
}

#[test]
fn pac_result_direct() {
    assert_eq!(directive("DIRECT"), None);
    assert_eq!(directive("direct"), None);
    assert_eq!(directive("  Direct ; PROXY p:1"), None);
    assert_eq!(directive(""), None);
}

#[test]
fn pac_result_proxy() {
    assert_eq!(directive("PROXY proxy.corp:8080"), Some("proxy.corp:8080".to_string()));
    assert_eq!(directive("PROXY p:8080; DIRECT"), Some("p:8080".to_string()));
    assert_eq!(directive("proxy   a:1  "), Some("a:1".to_string()));
    assert_eq!(directive("HTTPS secure:443"), Some("secure:443".to_string()));
    assert_eq!(directive("https s:443"), Some("s:443".to_string()));
}

#[test]
fn pac_result_skips_unusable_entries() {
    assert_eq!(directive("SOCKS s:1080; PROXY p:3128"), Some("p:3128".to_string()));
    assert_eq!(directive("SOCKS s:1080"), None);
    assert_eq!(directive("Proxy p:1"), None);
    assert_eq!(directive(";;PROXY x:2"), Some("x:2".to_string()));
}

#[test]
fn pac_call_quotes_arguments() {
    assert_eq!(
        pac_call_expression("https://a.com/", "a.com:443"),
        "FindProxyForURL(\"https://a.com/\", \"a.com:443\")"
    );
    assert_eq!(
        pac_call_expression("http://x/\"q\"", "h"),
        "FindProxyForURL(\"http://x/\\\"q\\\"\", \"h\")"
    );
}

#[test]
fn pac_helpers_define_functions() {
    assert_eq!(pac_helpers(), PAC_HELPERS);
    assert!(pac_helpers().contains("function shExpMatch(str, shexp)"));
}

#[test]
fn pac_script_evaluation() {
    let script = "function FindProxyForURL(url, host) { if (dnsDomainIs(host, '.corp.com')) { return 'PROXY p:8080'; } return 'DIRECT'; }";
    assert_eq!(evaluate_pac(script, "http://x.corp.com/", "x.corp.com"), Ok("PROXY p:8080".to_string()));
    assert_eq!(evaluate_pac(script, "http://example.org/", "example.org"), Ok("DIRECT".to_string()));
}

#[test]
fn pac_script_failures() {
    assert_eq!(evaluate_pac("this is not javascript(", "u", "h"), Err(PacError::Script));
    assert_eq!(evaluate_pac("", "u", "h"), Err(PacError::Call));
}

#[test]
fn tracked_interfaces() {
    assert!(is_tracked_interface("en0", false));
    assert!(is_tracked_interface("eth0", false));
    assert!(!is_tracked_interface("en0", true));
    assert!(!is_tracked_interface("lo0", false));
    assert!(!is_tracked_interface("utun3", false));
    assert!(!is_tracked_interface("llw0", false));
    assert!(!is_tracked_interface("anpi1", false));
    assert!(!is_tracked_interface("gif0", false));
    assert!(!is_tracked_interface("stf0", false));
    let entries = vec![
        ("lo0".to_string(), false),
        ("en0".to_string(), false),
        ("en0".to_string(), true),
        ("utun2".to_string(), false),
        ("en1".to_string(), false),
    ];
    assert_eq!(interface_names(&entries), vec!["en0".to_string(), "en1".to_string()]);
}

fn pac_config(pac: Option<&str>, proxy: Option<&str>) -> Config {
    let mut c = Config::default();
    c.proxy.pac = pac.map(|s| s.to_string());
    c.proxy.proxy = proxy.map(|s| s.to_string());
    c
}

const SEC: u64 = 1_000_000_000;

fn answer(step: PacStep<String>) -> Result<String, PacError> {
    match step {
        PacStep::Answer(a) => a,
        PacStep::Fetch(u) => panic!("unexpected fetch of {}", u),
        PacStep::Evaluate(s) => panic!("unexpected evaluation of {}", s),
    }
}

#[test]
fn static_proxy_without_pac() {
    let mut e = PacEngine::new(&pac_config(None, Some("proxy.corp:8080")), 1);
    assert_eq!(answer(e.begin("a.com:443", 1, 0)), Ok("PROXY proxy.corp:8080".to_string()));
}

#[test]
fn pac_takes_precedence_over_static_proxy() {
    let mut e = PacEngine::new(&pac_config(Some("http://wpad/proxy.pac"), Some("proxy.corp:8080")), 1);
    match e.begin("a.com:443", 1, 0) {
        PacStep::Fetch(u) => assert_eq!(u, "http://wpad/proxy.pac"),
        _ => panic!("expected a fetch"),
    }
}

#[test]
fn unreachable_pac_goes_direct() {
    let mut e = PacEngine::new(&pac_config(Some("http://wpad/proxy.pac"), None), 1);
    assert!(matches!(e.begin("a.com:443", 1, 0), PacStep::Fetch(_)));
    assert_eq!(answer(e.after_fetch("a.com:443", None, 0)), Ok("DIRECT".to_string()));
    // Still unreachable: the next lookup tries again and stays DIRECT.
    assert!(matches!(e.begin("b.com:443", 1, SEC), PacStep::Fetch(_)));
    assert_eq!(answer(e.after_fetch("b.com:443", None, SEC)), Ok("DIRECT".to_string()));
}

#[test]
fn answers_are_cached_per_host() {
    let mut e = PacEngine::new(&pac_config(Some("http://wpad/proxy.pac"), None), 7);
    assert!(matches!(e.begin("a.com:443", 7, 0), PacStep::Fetch(_)));
    match e.after_fetch("a.com:443", Some("script".to_string()), 0) {
        PacStep::Evaluate(s) => assert_eq!(s, "script"),
        _ => panic!("expected evaluation"),
    }
    assert_eq!(answer(e.after_evaluate("a.com:443", Ok("PROXY p:1".to_string()), 0)), Ok("PROXY p:1".to_string()));
    // Same host, ten seconds later: the remembered answer, no fetch, no evaluation.
    assert_eq!(answer(e.begin("a.com:443", 7, 10 * SEC)), Ok("PROXY p:1".to_string()));
    // Another host must be evaluated.
    assert!(matches!(e.begin("b.com:443", 7, 10 * SEC), PacStep::Evaluate(_)));
}

#[test]
fn stale_script_is_refetched() {
    let mut e = PacEngine::new(&pac_config(Some("http://wpad/proxy.pac"), None), 7);
    let _ = e.begin("a.com:443", 7, 0);
    let _ = e.after_fetch("a.com:443", Some("script".to_string()), 0);
    let _ = e.after_evaluate("a.com:443", Ok("DIRECT".to_string()), 0);
    assert!(matches!(e.begin("a.com:443", 7, 301 * SEC), PacStep::Fetch(_)));
}

#[test]
fn network_change_forces_refetch() {
    let mut e = PacEngine::new(&pac_config(Some("http://wpad/proxy.pac"), None), 7);
    let _ = e.begin("a.com:443", 7, 0);
    let _ = e.after_fetch("a.com:443", Some("script".to_string()), 0);
    let _ = e.after_evaluate("a.com:443", Ok("PROXY p:1".to_string()), 0);
    assert!(matches!(e.begin("a.com:443", 8, SEC), PacStep::Fetch(_)));
}

#[test]
fn failed_evaluation_is_not_cached() {
    let mut e = PacEngine::new(&pac_config(Some("http://wpad/proxy.pac"), None), 7);
    let _ = e.begin("a.com:443", 7, 0);
    let _ = e.after_fetch("a.com:443", Some("script".to_string()), 0);
    assert_eq!(answer(e.after_evaluate("a.com:443", Err(PacError::Call), 0)), Err(PacError::Call));
    assert!(matches!(e.begin("a.com:443", 7, SEC), PacStep::Evaluate(_)));
}

#[test]
fn no_pac_and_no_proxy_evaluates_empty_script() {
    let mut e = PacEngine::new(&pac_config(None, None), 1);
    match e.begin("a.com:443", 1, 0) {
        PacStep::Evaluate(s) => assert_eq!(s, ""),
        _ => panic!("expected evaluation"),
    }
    e.detect_network_change(2);
}

#[test]
fn fingerprint_names_sorted_like_std() {
    let entries = vec![
        ("wlan0".to_string(), false),
        ("en1".to_string(), false),
        ("lo0".to_string(), false),
        ("en0".to_string(), true),
        ("en0".to_string(), false),
        ("Éth".to_string(), false),
        ("en10".to_string(), false),
    ];
    let mut expected: Vec<String> = vec!["wlan0", "en1", "en0", "Éth", "en10"]
        .into_iter()
        .map(|s| s.to_string())
        .collect();
    expected.sort();
    assert_eq!(fingerprint_names(&entries), expected);
    assert_eq!(
        fingerprint_names(&entries),
        vec!["en0", "en1", "en10", "wlan0", "Éth"]
            .into_iter()
            .map(|s| s.to_string())
            .collect::<Vec<_>>()
    );
}

#[test]
fn network_fingerprint_ignores_order_and_virtual_interfaces() {
    let a = vec![("en0".to_string(), false), ("en1".to_string(), false)];
    let b = vec![("utun2".to_string(), false), ("en1".to_string(), false), ("en0".to_string(), false)];
    let c = vec![("en0".to_string(), false)];
    assert_eq!(hash_network_interfaces(Some(a.as_slice())), hash_network_interfaces(Some(b.as_slice())));
    assert_ne!(hash_network_interfaces(Some(a.as_slice())), hash_network_interfaces(Some(c.as_slice())));
    assert_eq!(hash_network_interfaces(None), hash_network_interfaces(None));
}

#[test]
fn pac_program_pieces() {
    let p = pac_program("function FindProxyForURL(u, h) { return 'DIRECT'; }", "http://a/", "a");
    assert_eq!(p.helpers, PAC_HELPERS);
    assert_eq!(p.script, "function FindProxyForURL(u, h) { return 'DIRECT'; }");
    assert_eq!(p.call, "FindProxyForURL(\"http://a/\", \"a\")");
    assert_eq!(run_pac_program(&p), Ok("DIRECT".to_string()));
}

#[test]
fn pac_url_and_host_reach_the_script_in_order() {
    let script = "function FindProxyForURL(url, host) { return url + '|' + host; }";
    assert_eq!(evaluate_pac(script, "http://h/p", "h"), Ok("http://h/p|h".to_string()));
}

#[test]
fn looping_pac_script_is_stopped() {
    assert_eq!(evaluate_pac("while (true) {}", "u", "h"), Err(PacError::Script));
    let script = "function FindProxyForURL(url, host) { for (;;) {} }";
    assert_eq!(evaluate_pac(script, "u", "h"), Err(PacError::Call));
    let script = "function f(n) { return n <= 0 ? 0 : f(n - 1) + 1; }\nfunction FindProxyForURL(url, host) { var s = 0; for (var i = 0; i < 100000; i++) { s += 1; } return 'PROXY p:' + f(100); }";
    assert_eq!(evaluate_pac(script, "u", "h"), Ok("PROXY p:100".to_string()));
}

#[test]
fn interrupt_budget_counts_polls() {
    let mut polls = 0u64;
    assert!(!interrupt_budget_spent(&mut polls));
    assert_eq!(polls, 1);
    let mut polls = MAX_INTERRUPT_POLLS - 1;
    assert!(!interrupt_budget_spent(&mut polls));
    assert_eq!(polls, MAX_INTERRUPT_POLLS);
    assert!(interrupt_budget_spent(&mut polls));
    assert_eq!(polls, MAX_INTERRUPT_POLLS);
}

#[test]
fn network_fingerprint_without_interfaces() {
    let empty: Vec<(String, bool)> = Vec::new();
    assert_ne!(hash_network_interfaces(Some(empty.as_slice())), hash_network_interfaces(None));
    let one = vec![("ab".to_string(), false)];
    let two = vec![("a".to_string(), false), ("b".to_string(), false)];
    assert_ne!(hash_network_interfaces(Some(one.as_slice())), hash_network_interfaces(Some(two.as_slice())));
}
