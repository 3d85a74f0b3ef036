use proxypass::codec::{debug_quote, decode_base64, encode_base64, to_lowercase};
use proxypass::text::{
    chars_before_first, chars_contain, chars_eq_ignore_ascii_case, chars_of, find_char_from,
    is_whitespace, parse_u16, str_contains, string_from_chars, sub_chars, trim_chars,
    trim_to_string, u32_decimal,
};

fn chars(s: &str) -> Vec<char> {
    s.chars().collect()
}

#[test]
fn chars_round_trip() {
    let cs = chars_of("héllo");
    assert_eq!(cs, vec!['h', 'é', 'l', 'l', 'o']);
    assert_eq!(string_from_chars(&cs), "héllo");
}

#[test]
fn sub_chars_and_find() {
    let cs = chars("a:b:c");
    assert_eq!(sub_chars(&cs, 2, 5), chars("b:c"));
    assert_eq!(find_char_from(&cs, ':', 0), Some(1));
    assert_eq!(find_char_from(&cs, ':', 2), Some(3));
    assert_eq!(find_char_from(&cs, ':', 4), None);
    assert_eq!(chars_before_first(&cs, ':'), chars("a"));
    assert_eq!(chars_before_first(&chars("abc"), ':'), chars("abc"));
}

#[test]
fn contains_substrings() {
    assert!(str_contains("HTTP/1.1 407 Proxy", "407"));
    assert!(!str_contains("HTTP/1.1 200 OK", "407"));
    assert!(str_contains("abc", ""));
    assert!(chars_contain(&chars("xx200yy"), &chars("200")));
}

#[test]
fn trimming_unicode_whitespace() {
    assert_eq!(trim_chars(&chars("  a b \t\r\n")), chars("a b"));
    assert_eq!(trim_to_string(&chars("\u{a0}x\u{2003}")), "x");
    assert!(is_whitespace('\u{3000}'));
    assert!(!is_whitespace('x'));
}

#[test]
fn ascii_case_folding() {
    assert!(chars_eq_ignore_ascii_case(&chars("DiReCt"), &chars("direct")));
    assert!(!chars_eq_ignore_ascii_case(&chars("DIRECT"), &chars("DIRECTX")));
}

#[test]
fn parse_u16_like_std() {
    assert_eq!(parse_u16(&chars("8080")), Some(8080));
    assert_eq!(parse_u16(&chars("+80")), Some(80));
    assert_eq!(parse_u16(&chars("65535")), Some(65535));
    assert_eq!(parse_u16(&chars("65536")), None);
    assert_eq!(parse_u16(&chars("")), None);
    assert_eq!(parse_u16(&chars("+")), None);
    assert_eq!(parse_u16(&chars("-1")), None);
    assert_eq!(parse_u16(&chars("12a")), None);
}

#[test]
fn decimal_digits() {
    assert_eq!(u32_decimal(0), chars("0"));
    assert_eq!(u32_decimal(501), chars("501"));
    assert_eq!(u32_decimal(4294967295), chars("4294967295"));
}

#[test]
fn base64_encode_and_decode() {
    assert_eq!(encode_base64(b"alice:secret"), "YWxpY2U6c2VjcmV0");
    assert_eq!(encode_base64(b""), "");
    assert_eq!(decode_base64("AQID"), Some(vec![1, 2, 3]));
    assert_eq!(decode_base64("not base64!"), None);
}

#[test]
fn lowercase_and_quote() {
    assert_eq!(to_lowercase("NeGoTiAtE"), "negotiate");
    assert_eq!(to_lowercase("ÀB"), "àb");
    assert_eq!(debug_quote("a\"b"), "\"a\\\"b\"");
}
