use mortgagetrack::next::{encode_query_value, is_share_invite_next, safe_next, share_token_from_next};

#[test]
fn encodes_share_path_for_query() {
    assert_eq!(encode_query_value("/share/abc123"), "%2Fshare%2Fabc123");
}

#[test]
fn parses_share_token_from_next() {
    assert_eq!(share_token_from_next("/share/deadbeef"), Some("deadbeef"));
    assert_eq!(share_token_from_next("/evil//share/x"), None);
}

#[test]
fn safe_next_trims_and_rejects_open_redirects() {
    assert_eq!(safe_next(Some("  /profiles?tab=chart  ")), Some("/profiles?tab=chart"));
    assert_eq!(safe_next(Some("//evil.example")), None);
    assert_eq!(safe_next(Some("https://evil.example")), None);
    assert_eq!(safe_next(Some("/a\\b")), None);
    assert_eq!(safe_next(Some("/a\nb")), None);
    assert_eq!(safe_next(Some("   ")), None);
    assert_eq!(safe_next(None), None);
}

#[test]
fn share_tokens_must_be_short_hex() {
    assert_eq!(share_token_from_next("/share/"), None);
    assert_eq!(share_token_from_next("/share/xyz"), None);
    let long = format!("/share/{}", "a".repeat(129));
    assert_eq!(share_token_from_next(&long), None);
    let ok = format!("/share/{}", "A".repeat(128));
    assert_eq!(share_token_from_next(&ok).map(str::len), Some(128));
    assert!(is_share_invite_next("/share/00ff"));
    assert!(!is_share_invite_next("/settings"));
}

#[test]
fn encode_keeps_unreserved_and_escapes_utf8() {
    assert_eq!(encode_query_value("a-b_c.d~E9"), "a-b_c.d~E9");
    assert_eq!(encode_query_value("a b&c"), "a%20b%26c");
    assert_eq!(encode_query_value("é"), "%C3%A9");
    assert_eq!(encode_query_value(""), "");
}
