//! Proxy authentication: reading `Proxy-Authenticate` challenges and
//! building `Proxy-Authorization` answers (Negotiate and Basic).
use vstd::prelude::*;

use crate::codec::{
    base64_standard_decode, base64_standard_encode, encode_base64, fits_allocation, to_lowercase, unicode_lowercase,
};
use crate::text::{
    chars_of, chars_start_with, contains_seq, decimal_digits, find_char_from, lemma_index_of,
    lines_seq, push_chars, push_str, starts_with, str_contains, string_from_chars, strip_cr,
    sub_chars, trim_seq, trim_to_string, u32_decimal,
};
use vstd::utf8::*;

verus! {

broadcast use vstd::string::group_string_axioms;

/// The authentication scheme an upstream proxy asks for.
#[derive(Debug, Clone, Copy, PartialEq, Eq, Structural)]
pub enum AuthScheme {
    Negotiate,
    Basic,
    /// No scheme this proxy can answer.
    Unknown,
}

/// Why Basic credentials could not be put together.
#[derive(Debug)]
pub enum CredentialError<E> {
    /// The configuration names no user.
    NoUsername,
    /// The keychain gave no password for `user`.
    NoPassword { user: String, cause: E },
}

impl CredentialError<String> {
    /// What to tell the user, with the keychain's error given as text.
    pub fn message(&self) -> (r: String)
        ensures
            r@ == match self {
                CredentialError::NoUsername => "No username configured"@,
                CredentialError::NoPassword { user, cause } => "No keychain password for "@
                    + user@ + ": "@ + cause@,
            },
    {
        match self {
            CredentialError::NoUsername => "No username configured".to_owned(),
            CredentialError::NoPassword { user, cause } => {
                let mut out = chars_of("No keychain password for ");
                push_str(&mut out, user.as_str());
                push_str(&mut out, ": ");
                push_str(&mut out, cause.as_str());
                string_from_chars(out.as_slice())
            },
        }
    }
}

/// Which GSS mechanism answers Negotiate challenges.
#[derive(Debug, Clone, Copy, PartialEq, Eq, Structural)]
pub enum GssMech {
    Spnego,
    Kerberos,
}

/// Why a Negotiate context could not be used.
#[derive(Debug, Clone, Copy, PartialEq, Eq, Structural)]
pub enum NegotiateError {
    /// Neither SPNEGO nor raw Kerberos could start a context.
    NoMechanism,
    /// Negotiate is not available on this platform.
    Unsupported,
}

// ─────────────────────────────── scheme ───────────────────────────────

/// The scheme named by an already lower-cased `Proxy-Authenticate` value:
/// Negotiate when it mentions `negotiate` or `kerberos`, else Basic when
/// it mentions `basic`.
pub open spec fn scheme_for(lower: Seq<char>) -> AuthScheme {
    if contains_seq(lower, "negotiate"@) || contains_seq(lower, "kerberos"@) {
        AuthScheme::Negotiate
    } else if contains_seq(lower, "basic"@) {
        AuthScheme::Basic
    } else {
        AuthScheme::Unknown
    }
}

/// The scheme named by a lower-cased `Proxy-Authenticate` value.
pub fn scheme_of_lowercase(lower: &str) -> (r: AuthScheme)
    ensures
        r == scheme_for(lower@),
{
    if str_contains(lower, "negotiate") || str_contains(lower, "kerberos") {
        AuthScheme::Negotiate
    } else if str_contains(lower, "basic") {
        AuthScheme::Basic
    } else {
        AuthScheme::Unknown
    }
}

/// The scheme a `Proxy-Authenticate` value asks for, compared without
/// regard to case.
pub fn detect_scheme(proxy_authenticate: &str) -> (r: AuthScheme)
    ensures
        r == scheme_for(unicode_lowercase(proxy_authenticate@)),
{
    let lower = to_lowercase(proxy_authenticate);
    scheme_of_lowercase(lower.as_str())
}

// ─────────────────────────── byte offsets ───────────────────────────

/// The text of `s` after its first `n` UTF-8 bytes, or `None` when byte
/// `n` is not a character boundary of `s` (what `s.get(n..)` returns).
pub open spec fn after_byte(s: Seq<char>, n: int) -> Option<Seq<char>> {
    let b = encode_utf8(s);
    if is_char_boundary(b, n) {
        Some(decode_utf8(b.subrange(n, b.len() as int)))
    } else {
        None
    }
}

/// `s.get(n..)`.
pub fn str_after_byte(s: &str, n: usize) -> (r: Option<&str>)
    ensures
        match after_byte(s@, n as int) {
            Some(t) => r matches Some(x) && x@ == t,
            None => r is None,
        },
{
    proof {
        encode_utf8_valid_utf8(s@);
    }
    if s.is_char_boundary(n) {
        let (_a, b) = s.split_at(n);
        proof {
            encode_utf8_decode_utf8(b@);
        }
        Some(b)
    } else {
        None
    }
}

// ─────────────────────────── challenges ───────────────────────────

/// The token of a Negotiate (or Kerberos) challenge: the trimmed text after
/// the scheme word and one separator; empty for other schemes.
pub open spec fn negotiate_challenge_spec(header: Seq<char>) -> Seq<char> {
    let lower = unicode_lowercase(header);
    if starts_with(lower, "negotiate"@) {
        match after_byte(header, 10) {
            Some(t) => trim_seq(t),
            None => seq![],
        }
    } else if starts_with(lower, "kerberos"@) {
        match after_byte(header, 8) {
            Some(t) => trim_seq(t),
            None => seq![],
        }
    } else {
        seq![]
    }
}

/// Trimmed text of `s` after `n` bytes, empty when there is no such text.
fn trimmed_after_byte(s: &str, n: usize) -> (r: String)
    ensures
        r@ == match after_byte(s@, n as int) {
            Some(t) => trim_seq(t),
            None => seq![],
        },
{
    match str_after_byte(s, n) {
        Some(t) => {
            let cs = chars_of(t);
            trim_to_string(cs.as_slice())
        },
        None => String::new(),
    }
}

/// The challenge token carried by a `Proxy-Authenticate: Negotiate <token>`
/// (or `Kerberos <token>`) value; empty when there is none.
pub fn extract_negotiate_challenge(header: &str) -> (r: String)
    ensures
        r@ == negotiate_challenge_spec(header@),
{
    let lower = to_lowercase(header);
    let lc = chars_of(lower.as_str());
    let neg = chars_of("negotiate");
    let krb = chars_of("kerberos");
    if chars_start_with(lc.as_slice(), neg.as_slice()) {
        trimmed_after_byte(header, 10)
    } else if chars_start_with(lc.as_slice(), krb.as_slice()) {
        trimmed_after_byte(header, 8)
    } else {
        String::new()
    }
}

/// A header line naming `Proxy-Authenticate`, compared without regard to case.
pub open spec fn is_proxy_authenticate_line(line: Seq<char>) -> bool {
    starts_with(unicode_lowercase(line), "proxy-authenticate:"@)
}

/// The first `Proxy-Authenticate` line among `lines`.
pub open spec fn first_proxy_authenticate_line(lines: Seq<Seq<char>>) -> Option<Seq<char>>
    decreases lines.len(),
{
    if lines.len() == 0 {
        None
    } else if is_proxy_authenticate_line(lines[0]) {
        Some(lines[0])
    } else {
        first_proxy_authenticate_line(lines.drop_first())
    }
}

/// The value of the first `Proxy-Authenticate` line of a raw response: the
/// trimmed text after the 19 bytes of the header name.  `Some` of the empty
/// sequence when no line names the header; `None` when byte 19 of that line
/// is not a character boundary (where slicing the line would panic).
pub open spec fn proxy_authenticate_value(response: Seq<char>) -> Option<Seq<char>> {
    match first_proxy_authenticate_line(lines_seq(response)) {
        None => Some(seq![]),
        Some(line) => match after_byte(line, 19) {
            Some(t) => Some(trim_seq(t)),
            None => None,
        },
    }
}

proof fn lemma_first_line_cons(a: Seq<char>, rest: Seq<Seq<char>>)
    ensures
        first_proxy_authenticate_line(seq![a] + rest) == if is_proxy_authenticate_line(a) {
            Some(a)
        } else {
            first_proxy_authenticate_line(rest)
        },
{
    let l = seq![a] + rest;
    assert(l[0] == a);
    assert(l.drop_first() =~= rest);
}

/// The line of `cs` that runs from `from` to `end`, as `str::lines` yields
/// it: the carriage return before a line feed is dropped.
fn line_chars(cs: &[char], from: usize, end: usize, ended_by_newline: bool) -> (r: Vec<char>)
    requires
        from <= end <= cs@.len(),
    ensures
        r@ == if ended_by_newline {
            strip_cr(cs@.subrange(from as int, end as int))
        } else {
            cs@.subrange(from as int, end as int)
        },
{
    if ended_by_newline && end > from && cs[end - 1] == '\r' {
        let r = sub_chars(cs, from, end - 1);
        assert(cs@.subrange(from as int, end as int).drop_last() == cs@.subrange(
            from as int,
            end - 1,
        ));
        r
    } else {
        sub_chars(cs, from, end)
    }
}

/// The first line of `response` that names `Proxy-Authenticate`.
fn find_proxy_authenticate_line(response: &str) -> (r: Option<Vec<char>>)
    ensures
        match first_proxy_authenticate_line(lines_seq(response@)) {
            Some(l) => r matches Some(v) && v@ == l,
            None => r is None,
        },
{
    let cs = chars_of(response);
    let prefix = chars_of("proxy-authenticate:");
    let n = cs.len();
    let mut pos: usize = 0;
    assert(cs@.skip(0) == cs@);
    while pos < n
        invariant
            n == cs@.len(),
            pos <= n,
            cs@ == response@,
            prefix@ == "proxy-authenticate:"@,
            first_proxy_authenticate_line(lines_seq(cs@)) == first_proxy_authenticate_line(
                lines_seq(cs@.skip(pos as int)),
            ),
        decreases n - pos,
    {
        let found = find_char_from(cs.as_slice(), '\n', pos);
        let ghost t = cs@.skip(pos as int);
        proof {
            lemma_index_of(t, '\n');
        }
        let end = match found {
            Some(i) => i,
            None => n,
        };
        let line = line_chars(cs.as_slice(), pos, end, found.is_some());
        let line_str = string_from_chars(line.as_slice());
        let lower = to_lowercase(line_str.as_str());
        let lower_cs = chars_of(lower.as_str());
        let hit = chars_start_with(lower_cs.as_slice(), prefix.as_slice());
        proof {
            if found.is_some() {
                assert(t.take(end - pos) == cs@.subrange(pos as int, end as int));
                assert(t.skip(end - pos + 1) == cs@.skip(end + 1));
                lemma_first_line_cons(line@, lines_seq(t.skip(end - pos + 1)));
            } else {
                assert(t == cs@.subrange(pos as int, end as int));
                assert(lines_seq(t) == seq![t]);
                lemma_first_line_cons(line@, Seq::<Seq<char>>::empty());
                assert(seq![t] =~= seq![t] + Seq::<Seq<char>>::empty());
            }
        }
        if hit {
            return Some(line);
        }
        if end >= n {
            proof {
                assert(cs@.skip(n as int) =~= Seq::<char>::empty());
            }
            pos = n;
        } else {
            pos = end + 1;
        }
    }
    assert(cs@.skip(n as int) =~= Seq::<char>::empty());
    None
}

/// The trimmed text after the header name of the first
/// `Proxy-Authenticate` line, when it can be taken.
fn scan_proxy_authenticate(response: &str) -> (r: Option<String>)
    ensures
        match proxy_authenticate_value(response@) {
            Some(v) => r matches Some(s) && s@ == v,
            None => r is None,
        },
{
    match find_proxy_authenticate_line(response) {
        None => Some(String::new()),
        Some(line) => {
            let line_str = string_from_chars(line.as_slice());
            match str_after_byte(line_str.as_str(), 19) {
                Some(t) => {
                    let cs = chars_of(t);
                    Some(trim_to_string(cs.as_slice()))
                },
                None => None,
            }
        },
    }
}

/// The text `extract_proxy_authenticate` gives: the value of the first
/// `Proxy-Authenticate` line, empty when there is none or when the text
/// after the header name cannot be taken.
pub open spec fn proxy_authenticate_text(response: Seq<char>) -> Seq<char> {
    match proxy_authenticate_value(response) {
        Some(v) => v,
        None => seq![],
    }
}

/// The value of the first `Proxy-Authenticate` line of a raw upstream
/// response (empty when there is none).
pub fn extract_proxy_authenticate(response: &str) -> (r: String)
    ensures
        r@ == proxy_authenticate_text(response@),
{
    match scan_proxy_authenticate(response) {
        Some(s) => s,
        None => String::new(),
    }
}

/// The value of the first `Proxy-Authenticate` line of `response`, or
/// `None` where taking the text after the header name would split a
/// character.
pub fn try_extract_proxy_authenticate(response: &str) -> (r: Option<String>)
    ensures
        match proxy_authenticate_value(response@) {
            Some(v) => r matches Some(s) && s@ == v,
            None => r is None,
        },
{
    scan_proxy_authenticate(response)
}

// ─────────────────────────── answers ───────────────────────────

/// `Basic <base64(user:password)>`.
pub open spec fn basic_token_spec(username: Seq<char>, password: Seq<char>) -> Seq<char> {
    "Basic "@ + base64_standard_encode(encode_utf8(username + seq![':'] + password))
}

/// The credentials `user:password` are small enough to encode.
pub open spec fn credentials_fit(username: Seq<char>, password: Seq<char>) -> bool {
    fits_allocation(encode_utf8(username + seq![':'] + password).len() as int)
}

/// Whether `user:password` is small enough to encode.
pub fn check_credentials_fit(username: &str, password: &str) -> (r: bool)
    ensures
        r == credentials_fit(username@, password@),
{
    let mut cs: Vec<char> = Vec::new();
    push_str(&mut cs, username);
    cs.push(':');
    push_str(&mut cs, password);
    let s = string_from_chars(cs.as_slice());
    assert(cs@ == username@ + seq![':'] + password@);
    s.as_str().as_bytes().len() <= isize::MAX as usize
}

/// The `Proxy-Authorization` value for Basic authentication.
pub fn basic_token(username: &str, password: &str) -> (r: String)
    requires
        credentials_fit(username@, password@),
    ensures
        r@ == basic_token_spec(username@, password@),
        base64_standard_decode(r@.skip(6)) == Some(encode_utf8(username@ + seq![':'] + password@)),
{
    let mut cs: Vec<char> = Vec::new();
    push_str(&mut cs, username);
    cs.push(':');
    push_str(&mut cs, password);
    assert(cs@ == username@ + seq![':'] + password@);
    let credentials = string_from_chars(cs.as_slice());
    let encoded = encode_base64(credentials.as_str().as_bytes());
    let mut out = chars_of("Basic ");
    push_str(&mut out, encoded.as_str());
    proof {
        reveal_strlit("Basic ");
        assert(out@.skip(6) =~= encoded@);
    }
    string_from_chars(out.as_slice())
}

/// `Negotiate <base64(token)>`.
pub open spec fn negotiate_header_spec(token: Seq<u8>) -> Seq<char> {
    "Negotiate "@ + base64_standard_encode(token)
}

/// The `Proxy-Authorization` value carrying a GSS token.
pub fn negotiate_header(token: &[u8]) -> (r: String)
    requires
        fits_allocation(token@.len() as int),
    ensures
        r@ == negotiate_header_spec(token@),
        base64_standard_decode(r@.skip(10)) == Some(token@),
{
    let encoded = encode_base64(token);
    let mut out = chars_of("Negotiate ");
    push_str(&mut out, encoded.as_str());
    proof {
        reveal_strlit("Negotiate ");
        assert(out@.skip(10) =~= encoded@);
    }
    string_from_chars(out.as_slice())
}

/// The GSS host-based service name of an upstream proxy: `HTTP@host:port`.
pub open spec fn service_name_spec(host: Seq<char>, port: u16) -> Seq<char> {
    "HTTP@"@ + host + ":"@ + decimal_digits(port as nat)
}

/// The GSS service name of the proxy at `host:port`.
pub fn negotiate_service_name(host: &str, port: u16) -> (r: String)
    ensures
        r@ == service_name_spec(host@, port),
{
    let mut out = chars_of("HTTP@");
    push_str(&mut out, host);
    push_str(&mut out, ":");
    let digits = u32_decimal(port as u32);
    push_chars(&mut out, digits.as_slice());
    string_from_chars(out.as_slice())
}

/// The mechanism to use once the probes have run: SPNEGO when it works,
/// raw Kerberos otherwise; an error when neither does.
pub fn select_mech(spnego_works: bool, kerberos_works: bool) -> (r: Result<GssMech, NegotiateError>)
    ensures
        spnego_works ==> r == Ok::<GssMech, NegotiateError>(GssMech::Spnego),
        !spnego_works && kerberos_works ==> r == Ok::<GssMech, NegotiateError>(GssMech::Kerberos),
        !spnego_works && !kerberos_works ==> r == Err::<GssMech, NegotiateError>(
            NegotiateError::NoMechanism,
        ),
{
    if spnego_works {
        Ok(GssMech::Spnego)
    } else if kerberos_works {
        Ok(GssMech::Kerberos)
    } else {
        Err(NegotiateError::NoMechanism)
    }
}

// ─────────────────────────── credentials ───────────────────────────

/// The user and password for Basic authentication: the configured user and
/// what `get_password` returns for that user.
pub fn resolve_basic_credentials<E, F: FnOnce(&str) -> Result<String, E>>(
    username: Option<&str>,
    get_password: F,
) -> (r: Result<(String, String), CredentialError<E>>)
    requires
        username matches Some(u) ==> call_requires(get_password, (u,)),
    ensures
        username is None ==> r matches Err(CredentialError::NoUsername),
        username matches Some(u) ==> exists|p: Result<String, E>|
            #[trigger] call_ensures(get_password, (u,), p) && match p {
                Ok(pw) => r matches Ok((ru, rp)) && ru@ == u@ && rp == pw,
                Err(e) => r matches Err(CredentialError::NoPassword { user, cause }) && user@
                    == u@ && cause == e,
            },
{
    match username {
        Some(user) => match get_password(user) {
            Ok(pass) => Ok((user.to_owned(), pass)),
            Err(e) => Err(CredentialError::NoPassword { user: user.to_owned(), cause: e }),
        },
        None => Err(CredentialError::NoUsername),
    }
}

/// The user and password for Basic authentication when the password is
/// already known.
pub fn resolve_basic_credentials_from_password(username: Option<&str>, password: &str) -> (r:
    Result<(String, String), CredentialError<()>>)
    ensures
        username is None ==> r matches Err(CredentialError::NoUsername),
        username matches Some(u) ==> r matches Ok((ru, rp)) && ru@ == u@ && rp@ == password@,
{
    match username {
        Some(user) => Ok((user.to_owned(), password.to_owned())),
        None => Err(CredentialError::NoUsername),
    }
}

/// Every password that `get_password` may return for a user named `user`
/// can be encoded together with that name.
pub open spec fn passwords_fit<E, F: FnOnce(&str) -> Result<String, E>>(
    user: Seq<char>,
    get_password: F,
) -> bool {
    forall|s: &str, pw: String| #[trigger]
        call_ensures(get_password, (s,), Ok::<String, E>(pw)) && s@ == user ==> credentials_fit(
            user,
            pw@,
        )
}

/// The Basic `Proxy-Authorization` value for the configured user, or
/// `None` when there is no user or no password.
pub fn resolve_basic_auth<E, F: FnOnce(&str) -> Result<String, E>>(
    username: Option<&str>,
    get_password: F,
) -> (r: Option<String>)
    requires
        username matches Some(u) ==> call_requires(get_password, (u,)) && passwords_fit(
            u@,
            get_password,
        ),
    ensures
        username is None ==> r is None,
        username matches Some(u) ==> exists|p: Result<String, E>|
            #[trigger] call_ensures(get_password, (u,), p) && match p {
                Ok(pw) => r matches Some(t) && t@ == basic_token_spec(u@, pw@),
                Err(_) => r is None,
            },
{
    match resolve_basic_credentials(username, get_password) {
        Ok((u, p)) => Some(basic_token(u.as_str(), p.as_str())),
        Err(_) => None,
    }
}

} // verus!
