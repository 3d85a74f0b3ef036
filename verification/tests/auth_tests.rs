use proxypass::auth::{
    basic_token, check_credentials_fit, detect_scheme, extract_negotiate_challenge,
    extract_proxy_authenticate, negotiate_header, negotiate_service_name, resolve_basic_auth,
    resolve_basic_credentials, resolve_basic_credentials_from_password, scheme_of_lowercase,
    select_mech, try_extract_proxy_authenticate, AuthScheme, CredentialError, GssMech,
    NegotiateError,
};

#[test]
fn detect_scheme_negotiate_and_kerberos() {
    assert_eq!(detect_scheme("Negotiate"), AuthScheme::Negotiate);
    assert_eq!(detect_scheme("NEGOTIATE abc"), AuthScheme::Negotiate);
    assert_eq!(detect_scheme("Kerberos"), AuthScheme::Negotiate);
    assert_eq!(detect_scheme("Basic realm=\"x\", Negotiate"), AuthScheme::Negotiate);
}

#[test]
fn detect_scheme_basic_any_case() {
    assert_eq!(detect_scheme("Basic realm=\"corp\""), AuthScheme::Basic);
    assert_eq!(detect_scheme("BASIC realm=corp"), AuthScheme::Basic);
}

#[test]
fn detect_scheme_unknown() {
    assert_eq!(detect_scheme("NTLM"), AuthScheme::Unknown);
    assert_eq!(detect_scheme(""), AuthScheme::Unknown);
}

#[test]
fn scheme_of_lowercase_is_case_sensitive() {
    assert_eq!(scheme_of_lowercase("basic"), AuthScheme::Basic);
    assert_eq!(scheme_of_lowercase("BASIC"), AuthScheme::Unknown);
}

#[test]
fn negotiate_challenge_after_scheme() {
    assert_eq!(extract_negotiate_challenge("Negotiate YIIBhg=="), "YIIBhg==");
    assert_eq!(extract_negotiate_challenge("negotiate   tok  "), "tok");
    assert_eq!(extract_negotiate_challenge("Kerberos abc"), "abc");
}

#[test]
fn negotiate_challenge_missing() {
    assert_eq!(extract_negotiate_challenge("Negotiate"), "");
    assert_eq!(extract_negotiate_challenge("Basic realm=x"), "");
    assert_eq!(extract_negotiate_challenge(""), "");
}

#[test]
fn proxy_authenticate_from_response() {
    let resp = "HTTP/1.1 407 Proxy Authentication Required\r\nProxy-Authenticate: Negotiate\r\nContent-Length: 0\r\n\r\n";
    assert_eq!(extract_proxy_authenticate(resp), "Negotiate");
}

#[test]
fn proxy_authenticate_header_name_any_case() {
    let resp = "HTTP/1.1 407 x\nproxy-authenticate:   Basic realm=\"corp\"  \n\n";
    assert_eq!(extract_proxy_authenticate(resp), "Basic realm=\"corp\"");
    let resp = "HTTP/1.1 407 x\r\nPROXY-AUTHENTICATE: Negotiate abc";
    assert_eq!(extract_proxy_authenticate(resp), "Negotiate abc");
}

#[test]
fn proxy_authenticate_first_line_wins() {
    let resp = "HTTP/1.1 407 x\r\nProxy-Authenticate: Negotiate\r\nProxy-Authenticate: Basic\r\n\r\n";
    assert_eq!(extract_proxy_authenticate(resp), "Negotiate");
}

#[test]
fn proxy_authenticate_absent() {
    assert_eq!(extract_proxy_authenticate("HTTP/1.1 407 x\r\n\r\n"), "");
    assert_eq!(try_extract_proxy_authenticate(""), Some(String::new()));
}

#[test]
fn basic_token_encodes_credentials() {
    assert_eq!(basic_token("user", "pass"), "Basic dXNlcjpwYXNz");
    assert_eq!(basic_token("DOMAIN\\user", "p@ss"), "Basic RE9NQUlOXHVzZXI6cEBzcw==");
    assert!(check_credentials_fit("user", "pass"));
}

#[test]
fn negotiate_header_encodes_token() {
    assert_eq!(negotiate_header(&[1, 2, 3]), "Negotiate AQID");
    assert_eq!(negotiate_header(&[]), "Negotiate ");
}

#[test]
fn service_name_for_proxy() {
    assert_eq!(negotiate_service_name("proxy.corp.com", 8080), "HTTP@proxy.corp.com:8080");
    assert_eq!(negotiate_service_name("p", 0), "HTTP@p:0");
}

#[test]
fn mechanism_selection() {
    assert_eq!(select_mech(true, true), Ok(GssMech::Spnego));
    assert_eq!(select_mech(false, true), Ok(GssMech::Kerberos));
    assert_eq!(select_mech(false, false), Err(NegotiateError::NoMechanism));
}

#[test]
fn credentials_need_a_username() {
    let r = resolve_basic_credentials(None, |_u: &str| -> Result<String, ()> { Ok("x".into()) });
    assert!(matches!(r, Err(CredentialError::NoUsername)));
}

#[test]
fn credentials_from_keychain() {
    let r = resolve_basic_credentials(Some("alice"), |u: &str| -> Result<String, ()> {
        Ok(format!("{}-secret", u))
    });
    match r {
        Ok((u, p)) => {
            assert_eq!(u, "alice");
            assert_eq!(p, "alice-secret");
        }
        Err(_) => panic!("expected credentials"),
    }
}

#[test]
fn credentials_without_password() {
    let r = resolve_basic_credentials(Some("bob"), |_u: &str| -> Result<String, &str> { Err("locked") });
    match r {
        Err(CredentialError::NoPassword { user, cause }) => {
            assert_eq!(user, "bob");
            assert_eq!(cause, "locked");
        }
        _ => panic!("expected NoPassword"),
    }
}

#[test]
fn credentials_from_known_password() {
    match resolve_basic_credentials_from_password(Some("carol"), "pw") {
        Ok((u, p)) => {
            assert_eq!(u, "carol");
            assert_eq!(p, "pw");
        }
        Err(_) => panic!("expected credentials"),
    }
    assert!(matches!(
        resolve_basic_credentials_from_password(None, "pw"),
        Err(CredentialError::NoUsername)
    ));
}

#[test]
fn basic_auth_header_from_keychain() {
    let r = resolve_basic_auth(Some("user"), |_u: &str| -> Result<String, ()> { Ok("pass".into()) });
    assert_eq!(r, Some("Basic dXNlcjpwYXNz".to_string()));
    let r = resolve_basic_auth(Some("user"), |_u: &str| -> Result<String, ()> { Err(()) });
    assert_eq!(r, None);
    let r = resolve_basic_auth(None, |_u: &str| -> Result<String, ()> { Ok("pass".into()) });
    assert_eq!(r, None);
}

#[test]
fn credential_error_messages() {
    assert_eq!(CredentialError::<String>::NoUsername.message(), "No username configured");
    let e = CredentialError::NoPassword { user: "alice".to_string(), cause: "not found".to_string() };
    assert_eq!(e.message(), "No keychain password for alice: not found");
}

#[test]
fn basic_token_decodes_to_credentials() {
    let t = basic_token("DOMAIN\\user", "pä:ss");
    assert!(t.starts_with("Basic "));
    assert_eq!(proxypass::codec::decode_base64(&t[6..]), Some("DOMAIN\\user:pä:ss".as_bytes().to_vec()));
    let h = negotiate_header(&[0u8, 255, 7]);
    assert_eq!(proxypass::codec::decode_base64(&h[10..]), Some(vec![0u8, 255, 7]));
}
