use proxypass::auth::NegotiateError;
use proxypass::auth_win::{build_forward_auth_header, negotiate_init, negotiate_round2, negotiate_step, NegotiateContext};

#[test]
fn windows_negotiate_is_unsupported() {
    assert!(matches!(negotiate_init("proxy", 8080), Err(NegotiateError::Unsupported)));
    let mut ctx = NegotiateContext;
    assert_eq!(negotiate_step(&mut ctx, b"abc"), Err(NegotiateError::Unsupported));
}

#[test]
fn windows_forward_auth_is_basic() {
    let r = build_forward_auth_header("Negotiate", "p", 3128, Some("user"), |_u: &str| -> Result<String, ()> {
        Ok("pass".into())
    });
    assert_eq!(r, Ok(Some("Basic dXNlcjpwYXNz".to_string())));
    let r = build_forward_auth_header("Basic", "p", 3128, None, |_u: &str| -> Result<String, ()> {
        Ok("pass".into())
    });
    assert_eq!(r, Ok(None));
}

#[test]
fn windows_has_no_second_round() {
    assert_eq!(negotiate_round2("Negotiate abc", "p", 3128), Ok(None));
}
