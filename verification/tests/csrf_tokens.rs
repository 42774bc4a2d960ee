use mortgagetrack::csrf::{form_token, header_token, is_mutating, tokens_match, urlencoding_decode};

#[test]
fn reads_csrf_from_urlencoded_body() {
    let body = b"email=a%40b.com&csrf_token=abc123&password=x";
    assert_eq!(
        form_token(body, Some("application/x-www-form-urlencoded")),
        Some("abc123".into())
    );
}

#[test]
fn rejects_non_form_bodies() {
    assert_eq!(form_token(b"{}", Some("application/json")), None);
}

#[test]
fn tokens_match_only_when_equal() {
    assert!(tokens_match("aaa", "aaa"));
    assert!(!tokens_match("aaa", "bbb"));
    assert!(!tokens_match("", "aaa"));
}

#[test]
fn form_token_edge_cases() {
    let ct = Some("Application/X-WWW-Form-Urlencoded; charset=utf-8");
    assert_eq!(form_token(b"csrf_token=a%2Bb+c", ct), Some("a+b c".into()));
    assert_eq!(form_token(b"csrf_token", ct), Some(String::new()));
    assert_eq!(form_token(b"x=1&csrf_token=first&csrf_token=second", ct), Some("first".into()));
    assert_eq!(form_token(b"x=1", ct), None);
    assert_eq!(form_token(b"csrf_token=abc", None), None);
    assert_eq!(form_token(&[0xff, 0xfe], ct), None);
    assert_eq!(form_token(b"csrf_token=%41", ct), Some("A".into()));
    assert_eq!(form_token("csrf_token=%€x".as_bytes(), ct), Some("%€x".into()));
}

#[test]
fn decoder_handles_plus_signs_and_bad_escapes() {
    assert_eq!(urlencoding_decode("a+b"), "a b");
    assert_eq!(urlencoding_decode("%41%4a"), "AJ");
    assert_eq!(urlencoding_decode("%a\u{e9}"), "%a\u{e9}");
    assert_eq!(urlencoding_decode("%+f"), "\u{f}");
    assert_eq!(urlencoding_decode("%+5"), "\u{5}");
    assert_eq!(urlencoding_decode("%zz"), "%zz");
    assert_eq!(urlencoding_decode("100%"), "100%");
    assert_eq!(urlencoding_decode("%C3%A9"), "é");
    assert_eq!(urlencoding_decode("%FF"), "\u{FFFD}");
}

#[test]
fn header_and_method_checks() {
    assert_eq!(header_token(Some("  tok  ")), Some("tok".into()));
    assert_eq!(header_token(Some("   ")), None);
    assert_eq!(header_token(None), None);
    assert!(is_mutating("POST"));
    assert!(is_mutating("DELETE"));
    assert!(!is_mutating("GET"));
    assert!(!is_mutating("post"));
}
