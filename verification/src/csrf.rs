//! Synchronizer-token CSRF checks: token comparison and form-field extraction.

use vstd::prelude::*;
use vstd::utf8::{encode_utf8, decode_utf8, valid_utf8};
use sha2::{Digest, Sha256};
use crate::next::{pct_encode, pct_byte, is_unreserved, hex_upper_spec};
use crate::text::{ascii_lower, to_ascii_lower, starts_with, str_eq, trim, trim_str, to_owned_string, index_of, lemma_index_of, find_char_from};

verus! {

/// Session key, header and form field that carry the CSRF token.
pub const CSRF_SESSION_KEY: &'static str = "csrf_token";
pub const CSRF_HEADER: &'static str = "x-csrf-token";
pub const CSRF_FORM_FIELD: &'static str = "csrf_token";

/// Largest request body read when looking for the form field.
pub const MAX_BODY_BYTES: usize = 2097152;

/// SHA-256 digest of a byte string, as `sha2` computes it.
pub uninterp spec fn sha256_spec(data: Seq<u8>) -> Seq<u8>;

/// `sha2::Sha256::digest`: the 32-byte SHA-256 digest of `data`.
#[verifier::external_body]
pub(crate) fn sha256(data: &[u8]) -> (r: Vec<u8>)
    ensures
        r@ == sha256_spec(data@),
        r@.len() == 32,
{
    Sha256::digest(data).to_vec()
}

/// Replacement-character decoding of arbitrary bytes, as `String::from_utf8_lossy` does it.
pub uninterp spec fn utf8_lossy_spec(bytes: Seq<u8>) -> Seq<char>;

/// `String::from_utf8_lossy(..).into_owned()`: valid UTF-8 decodes exactly.
#[verifier::external_body]
pub(crate) fn utf8_lossy(bytes: &[u8]) -> (r: String)
    ensures
        r@ == utf8_lossy_spec(bytes@),
        valid_utf8(bytes@) ==> r@ == decode_utf8(bytes@),
{
    String::from_utf8_lossy(bytes).into_owned()
}

/// `std::str::from_utf8(..).ok()`: `Some` exactly for valid UTF-8.
#[verifier::external_body]
pub(crate) fn str_from_utf8(bytes: &[u8]) -> (r: Option<&str>)
    ensures
        r is Some <==> valid_utf8(bytes@),
        r matches Some(s) ==> s@ == decode_utf8(bytes@),
{
    std::str::from_utf8(bytes).ok()
}

/// Tokens match when both are non-empty and their SHA-256 digests agree.
pub open spec fn tokens_match_spec(expected: Seq<char>, provided: Seq<char>) -> bool {
    &&& expected.len() > 0
    &&& provided.len() > 0
    &&& sha256_spec(encode_utf8(expected)) == sha256_spec(encode_utf8(provided))
}

proof fn lemma_or_xor_zero(acc: u8, a: u8, b: u8)
    ensures
        ((acc | (a ^ b)) == 0) <==> (acc == 0 && a == b),
{
    assert(((acc | (a ^ b)) == 0) <==> (acc == 0 && a == b)) by (bit_vector);
}

/// Compare the session token with the one the request carried, on digests.
pub fn tokens_match(expected: &str, provided: &str) -> (r: bool)
    ensures
        r == tokens_match_spec(expected@, provided@),
{
    if expected.unicode_len() == 0 || provided.unicode_len() == 0 {
        return false;
    }
    let left = sha256(expected.as_bytes());
    let right = sha256(provided.as_bytes());
    let mut acc: u8 = 0;
    let mut i: usize = 0;
    while i < 32
        invariant
            left@.len() == 32,
            right@.len() == 32,
            i <= 32,
            (acc == 0) <==> (forall|j: int| 0 <= j < i ==> left@[j] == right@[j]),
        decreases 32 - i,
    {
        let a = left[i];
        let b = right[i];
        proof {
            lemma_or_xor_zero(acc, a, b);
        }
        acc = acc | (a ^ b);
        i = i + 1;
    }
    proof {
        if acc == 0 {
            assert(left@ =~= right@);
        }
    }
    acc == 0
}

/// Methods that change state and therefore need a token.
pub open spec fn is_mutating_spec(method: Seq<char>) -> bool {
    ||| method == seq!['P', 'O', 'S', 'T']
    ||| method == seq!['P', 'U', 'T']
    ||| method == seq!['P', 'A', 'T', 'C', 'H']
    ||| method == seq!['D', 'E', 'L', 'E', 'T', 'E']
}

/// Whether the request method (its name, as `http::Method::as_str` gives it) mutates.
pub fn is_mutating(method: &str) -> (r: bool)
    ensures
        r == is_mutating_spec(method@),
{
    proof {
        reveal_strlit("POST");
        reveal_strlit("PUT");
        reveal_strlit("PATCH");
        reveal_strlit("DELETE");
        assert("POST"@ =~= seq!['P', 'O', 'S', 'T']);
        assert("PUT"@ =~= seq!['P', 'U', 'T']);
        assert("PATCH"@ =~= seq!['P', 'A', 'T', 'C', 'H']);
        assert("DELETE"@ =~= seq!['D', 'E', 'L', 'E', 'T', 'E']);
    }
    str_eq(method, "POST") || str_eq(method, "PUT") || str_eq(method, "PATCH") || str_eq(
        method,
        "DELETE",
    )
}

/// The trimmed, non-empty value of the token header.
pub open spec fn header_token_spec(value: Option<Seq<char>>) -> Option<Seq<char>> {
    match value {
        Some(v) => if trim(v).len() > 0 {
            Some(trim(v))
        } else {
            None
        },
        None => None,
    }
}

/// Token from the `X-CSRF-Token` header value (already read as text).
pub fn header_token(value: Option<&str>) -> (r: Option<String>)
    ensures
        match r {
            Some(s) => header_token_spec(crate::next::opt_view(value)) == Some(s@),
            None => header_token_spec(crate::next::opt_view(value)) is None,
        },
{
    match value {
        Some(v) => {
            let t = trim_str(v);
            if t.unicode_len() == 0 {
                None
            } else {
                Some(to_owned_string(t))
            }
        },
        None => None,
    }
}

/// Value of a hex digit byte.
pub open spec fn hex_val(b: u8) -> Option<u8> {
    if 48 <= b && b <= 57 {
        Some((b - 48) as u8)
    } else if 97 <= b && b <= 102 {
        Some((b - 87) as u8)
    } else if 65 <= b && b <= 70 {
        Some((b - 55) as u8)
    } else {
        None
    }
}

/// `u8::from_str_radix` of a two-byte string in base 16 (a leading `+` is accepted).
pub open spec fn parse_hex2(a: u8, b: u8) -> Option<u8> {
    if a == 43 {
        hex_val(b)
    } else {
        match (hex_val(a), hex_val(b)) {
            (Some(x), Some(y)) => Some((x * 16 + y) as u8),
            _ => None,
        }
    }
}

/// Decoding of `+` and `%XX` escapes over bytes.
pub open spec fn pct_decode(bs: Seq<u8>) -> Seq<u8>
    decreases bs.len(),
{
    if bs.len() == 0 {
        Seq::empty()
    } else if bs[0] == 43 {
        seq![32u8] + pct_decode(bs.subrange(1, bs.len() as int))
    } else if bs[0] == 37 && bs.len() > 2 {
        match parse_hex2(bs[1], bs[2]) {
            Some(v) => seq![v] + pct_decode(bs.subrange(3, bs.len() as int)),
            None => seq![37u8] + pct_decode(bs.subrange(1, bs.len() as int)),
        }
    } else {
        seq![bs[0]] + pct_decode(bs.subrange(1, bs.len() as int))
    }
}

fn hex_val_exec(b: u8) -> (r: Option<u8>)
    ensures
        r == hex_val(b),
{
    if 48 <= b && b <= 57 {
        Some(b - 48)
    } else if 97 <= b && b <= 102 {
        Some(b - 87)
    } else if 65 <= b && b <= 70 {
        Some(b - 55)
    } else {
        None
    }
}

fn parse_hex2_exec(a: u8, b: u8) -> (r: Option<u8>)
    ensures
        r == parse_hex2(a, b),
{
    if a == 43 {
        hex_val_exec(b)
    } else {
        match (hex_val_exec(a), hex_val_exec(b)) {
            (Some(x), Some(y)) => Some(x * 16 + y),
            _ => None,
        }
    }
}

/// Minimal application/x-www-form-urlencoded decoder for the CSRF field.
pub fn urlencoding_decode(input: &str) -> (r: String)
    ensures
        r@ == utf8_lossy_spec(pct_decode(encode_utf8(input@))),
        valid_utf8(pct_decode(encode_utf8(input@))) ==> r@ == decode_utf8(pct_decode(encode_utf8(input@))),
{
    let bytes = input.as_bytes();
    let n = bytes.len();
    let mut out: Vec<u8> = Vec::new();
    let mut i: usize = 0;
    assert(bytes@.subrange(0, n as int) =~= bytes@);
    assert(out@ + pct_decode(bytes@) =~= pct_decode(bytes@));
    while i < n
        invariant
            n == bytes@.len(),
            bytes@ == encode_utf8(input@),
            i <= n,
            pct_decode(bytes@) == out@ + pct_decode(bytes@.subrange(i as int, n as int)),
        decreases n - i,
    {
        let ghost rest = bytes@.subrange(i as int, n as int);
        let b = bytes[i];
        if b == 43 {
            out.push(32);
            assert(rest.subrange(1, rest.len() as int) =~= bytes@.subrange(i + 1, n as int));
            i = i + 1;
        } else if b == 37 && n - i > 2 {
            match parse_hex2_exec(bytes[i + 1], bytes[i + 2]) {
                Some(v) => {
                    out.push(v);
                    assert(rest.subrange(3, rest.len() as int) =~= bytes@.subrange(i + 3, n as int));
                    i = i + 3;
                },
                None => {
                    out.push(b);
                    assert(rest.subrange(1, rest.len() as int) =~= bytes@.subrange(i + 1, n as int));
                    i = i + 1;
                },
            }
        } else {
            out.push(b);
            assert(rest.subrange(1, rest.len() as int) =~= bytes@.subrange(i + 1, n as int));
            i = i + 1;
        }
        assert(pct_decode(bytes@) == out@ + pct_decode(bytes@.subrange(i as int, n as int)));
    }
    assert(pct_decode(bytes@.subrange(n as int, n as int)) =~= Seq::<u8>::empty());
    assert(out@ =~= pct_decode(bytes@));
    utf8_lossy(out.as_slice())
}

/// Key of a `key=value` pair: everything before the first `=`.
pub open spec fn pair_key(p: Seq<char>) -> Seq<char> {
    p.subrange(0, index_of(p, '='))
}

/// Value of a `key=value` pair: everything after the first `=`, or nothing.
pub open spec fn pair_value(p: Seq<char>) -> Seq<char> {
    if index_of(p, '=') < p.len() {
        p.subrange(index_of(p, '=') + 1, p.len() as int)
    } else {
        Seq::empty()
    }
}

/// Raw value of the first `&`-separated pair whose key is `key`.
pub open spec fn find_field(text: Seq<char>, key: Seq<char>) -> Option<Seq<char>>
    decreases text.len(),
{
    let k = index_of(text, '&');
    let pair = text.subrange(0, k);
    if pair_key(pair) == key {
        Some(pair_value(pair))
    } else if k >= text.len() {
        None
    } else {
        proof {
            lemma_index_of(text, '&');
        }
        find_field(text.subrange(k + 1, text.len() as int), key)
    }
}

/// Raw (still encoded) token field of a urlencoded body.
pub open spec fn csrf_field_spec(body: Seq<u8>, content_type: Option<Seq<char>>) -> Option<Seq<char>> {
    match content_type {
        None => None,
        Some(ct) => {
            let lower = ascii_lower(ct);
            let prefix = "application/x-www-form-urlencoded"@;
            if !(prefix.len() <= lower.len() && lower.subrange(0, prefix.len() as int) == prefix) {
                None
            } else if !valid_utf8(body) {
                None
            } else {
                find_field(decode_utf8(body), "csrf_token"@)
            }
        },
    }
}

/// The decoded token field of a urlencoded body.
pub open spec fn form_token_spec(body: Seq<u8>, content_type: Option<Seq<char>>) -> Option<Seq<char>> {
    match csrf_field_spec(body, content_type) {
        None => None,
        Some(v) => Some(utf8_lossy_spec(pct_decode(encode_utf8(v)))),
    }
}

/// The raw `csrf_token` field of a urlencoded body.
fn csrf_field<'a>(body: &'a [u8], content_type: Option<&str>) -> (r: Option<&'a str>)
    ensures
        crate::next::opt_view(r) == csrf_field_spec(body@, crate::next::opt_view(content_type)),
{
    let ct = match content_type {
        Some(c) => to_ascii_lower(c),
        None => return None,
    };
    if !starts_with(ct.as_str(), "application/x-www-form-urlencoded") {
        return None;
    }
    let text = match str_from_utf8(body) {
        Some(t) => t,
        None => return None,
    };
    let n = text.unicode_len();
    let mut pos: usize = 0;
    let key_name = "csrf_token";
    let empty = "";
    proof {
        reveal_strlit("");
        assert(text@.subrange(0, n as int) =~= text@);
    }
    loop
        invariant
            n == text@.len(),
            pos <= n,
            text@ == decode_utf8(body@),
            empty@.len() == 0,
            find_field(text@, key_name@) == find_field(text@.subrange(pos as int, n as int), key_name@),
            csrf_field_spec(body@, crate::next::opt_view(content_type)) == find_field(text@, key_name@),
        decreases n - pos,
    {
        let k = find_char_from(text, '&', pos);
        let pair = text.substring_char(pos, k);
        let plen = k - pos;
        let e = find_char_from(pair, '=', 0);
        let key = pair.substring_char(0, e);
        proof {
            let rest = text@.subrange(pos as int, n as int);
            assert(pair@ =~= rest.subrange(0, k - pos));
            assert(pair@.subrange(0, pair@.len() as int) =~= pair@);
        }
        if str_eq(key, key_name) {
            if e < plen {
                let value = pair.substring_char(e + 1, plen);
                return Some(value);
            } else {
                assert(empty@ =~= pair_value(pair@));
                return Some(empty);
            }
        }
        if k == n {
            return None;
        }
        proof {
            let rest = text@.subrange(pos as int, n as int);
            assert(rest.subrange(k - pos + 1, rest.len() as int) =~= text@.subrange(k + 1, n as int));
        }
        pos = k + 1;
    }
}

/// Token from an `application/x-www-form-urlencoded` body (`csrf_token`
/// field), percent-decoded; a field that decodes to valid UTF-8 gives exactly
/// that text.
pub fn form_token(body: &[u8], content_type: Option<&str>) -> (r: Option<String>)
    ensures
        match r {
            Some(s) => form_token_spec(body@, crate::next::opt_view(content_type)) == Some(s@),
            None => form_token_spec(body@, crate::next::opt_view(content_type)) is None,
        },
        match csrf_field_spec(body@, crate::next::opt_view(content_type)) {
            Some(v) => valid_utf8(pct_decode(encode_utf8(v)))
                ==> (r matches Some(s) && s@ == decode_utf8(pct_decode(encode_utf8(v)))),
            None => true,
        },
{
    match csrf_field(body, content_type) {
        Some(v) => Some(urlencoding_decode(v)),
        None => None,
    }
}

/// The bytes of a percent-encoded byte.
spec fn pct_byte_bytes(b: u8) -> Seq<u8> {
    if is_unreserved(b) {
        seq![b]
    } else {
        seq![37u8, hex_upper_spec(b / 16) as u8, hex_upper_spec(b % 16) as u8]
    }
}

/// The bytes of a percent-encoded byte string.
spec fn pct_bytes(bs: Seq<u8>) -> Seq<u8>
    decreases bs.len(),
{
    if bs.len() == 0 {
        Seq::empty()
    } else {
        pct_byte_bytes(bs[0]) + pct_bytes(bs.drop_first())
    }
}

proof fn lemma_encode_utf8_concat(a: Seq<char>, b: Seq<char>)
    ensures
        encode_utf8(a + b) == encode_utf8(a) + encode_utf8(b),
    decreases a.len(),
{
    if a.len() > 0 {
        assert((a + b).drop_first() =~= a.drop_first() + b);
        assert((a + b)[0] == a[0]);
        lemma_encode_utf8_concat(a.drop_first(), b);
        assert(encode_utf8(a + b) =~= encode_utf8(a) + encode_utf8(b));
    } else {
        assert(a + b =~= b);
    }
}

proof fn lemma_ascii_chars_bytes(cs: Seq<char>)
    requires
        forall|i: int| 0 <= i < cs.len() ==> (#[trigger] cs[i] as u32) < 128,
    ensures
        encode_utf8(cs) == cs.map_values(|c: char| (c as u32) as u8),
    decreases cs.len(),
{
    if cs.len() > 0 {
        let c = cs[0];
        let s = c as u32;
        assert(s < 128);
        assert((s & 0x7F) as u8 == s as u8) by (bit_vector)
            requires
                s < 128,
        ;
        let t = cs.drop_first();
        assert forall|i: int| 0 <= i < t.len() implies (#[trigger] t[i] as u32) < 128 by {
            assert(t[i] == cs[i + 1]);
        }
        lemma_ascii_chars_bytes(t);
        assert(vstd::utf8::encode_scalar(s) == seq![(s & 0x7F) as u8]);
        assert(encode_utf8(cs) == vstd::utf8::encode_scalar(s) + encode_utf8(t));
        assert(encode_utf8(cs) =~= cs.map_values(|c: char| (c as u32) as u8));
    }
}

proof fn lemma_pct_byte_utf8(b: u8)
    ensures
        encode_utf8(pct_byte(b)) == pct_byte_bytes(b),
{
    let cs = pct_byte(b);
    if is_unreserved(b) {
        assert((b as char) as u32 == b as u32);
    } else {
        assert(b / 16 < 16 && b % 16 < 16);
    }
    lemma_ascii_chars_bytes(cs);
    if is_unreserved(b) {
        assert(cs.map_values(|c: char| (c as u32) as u8) =~= seq![b]);
    } else {
        assert(cs.map_values(|c: char| (c as u32) as u8) =~= pct_byte_bytes(b));
    }
}

proof fn lemma_pct_bytes_push(a: Seq<u8>, b: u8)
    ensures
        pct_bytes(a.push(b)) == pct_bytes(a) + pct_byte_bytes(b),
    decreases a.len(),
{
    if a.len() == 0 {
        assert(a.push(b).drop_first() =~= Seq::<u8>::empty());
        assert(a.push(b)[0] == b);
        assert(pct_bytes(a.push(b).drop_first()) == Seq::<u8>::empty());
        assert(pct_bytes(a) == Seq::<u8>::empty());
        assert(pct_bytes(a.push(b)) =~= pct_bytes(a) + pct_byte_bytes(b));
    } else {
        assert(a.push(b).drop_first() =~= a.drop_first().push(b));
        lemma_pct_bytes_push(a.drop_first(), b);
        assert(pct_bytes(a.push(b)) =~= pct_bytes(a) + pct_byte_bytes(b));
    }
}

proof fn lemma_pct_encode_utf8(bs: Seq<u8>)
    ensures
        encode_utf8(pct_encode(bs)) == pct_bytes(bs),
    decreases bs.len(),
{
    if bs.len() > 0 {
        let a = bs.drop_last();
        let b = bs.last();
        lemma_pct_encode_utf8(a);
        lemma_encode_utf8_concat(pct_encode(a), pct_byte(b));
        lemma_pct_byte_utf8(b);
        lemma_pct_bytes_push(a, b);
        assert(a.push(b) =~= bs);
    }
}

proof fn lemma_pct_bytes_ascii(bs: Seq<u8>)
    ensures
        forall|i: int| 0 <= i < pct_bytes(bs).len() ==> #[trigger] pct_bytes(bs)[i] < 128,
    decreases bs.len(),
{
    if bs.len() > 0 {
        lemma_pct_bytes_ascii(bs.drop_first());
        let h = pct_byte_bytes(bs[0]);
        let t = pct_bytes(bs.drop_first());
        assert(bs[0] / 16 < 16 && bs[0] % 16 < 16);
        assert forall|i: int| 0 <= i < pct_bytes(bs).len() implies #[trigger] pct_bytes(bs)[i] < 128 by {
            if i >= h.len() {
                assert(pct_bytes(bs)[i] == t[i - h.len()]);
            }
        }
    }
}

proof fn lemma_pct_decode_bytes(bs: Seq<u8>)
    ensures
        pct_decode(pct_bytes(bs)) == bs,
    decreases bs.len(),
{
    if bs.len() > 0 {
        let b = bs[0];
        let rest = pct_bytes(bs.drop_first());
        let all = pct_bytes(bs);
        lemma_pct_decode_bytes(bs.drop_first());
        lemma_pct_bytes_ascii(bs.drop_first());
        if is_unreserved(b) {
            assert(all =~= seq![b] + rest);
            assert(all.subrange(1, all.len() as int) =~= rest);
            assert(b != 43 && b != 37);
        } else {
            let h1 = hex_upper_spec(b / 16) as u8;
            let h2 = hex_upper_spec(b % 16) as u8;
            assert(all =~= seq![37u8, h1, h2] + rest);
            assert(all.subrange(3, all.len() as int) =~= rest);
            assert(h1 != 43);
            assert(hex_val(h1) == Some((b / 16) as u8));
            assert(hex_val(h2) == Some((b % 16) as u8));
            assert(parse_hex2(h1, h2) == Some(b));
            if all.len() > 3 {
                assert(all[3] == rest[0]);
                assert(rest[0] < 128);
            }
        }
        assert(pct_decode(all) =~= bs);
    }
}

/// Decoding a percent-encoded query value gives the value back: its decoded
/// bytes are the value's UTF-8 bytes.
pub proof fn law_query_value_round_trip(v: Seq<char>)
    ensures
        valid_utf8(pct_decode(encode_utf8(pct_encode(encode_utf8(v))))),
        decode_utf8(pct_decode(encode_utf8(pct_encode(encode_utf8(v))))) == v,
{
    let bs = encode_utf8(v);
    lemma_pct_encode_utf8(bs);
    lemma_pct_decode_bytes(bs);
    vstd::utf8::encode_utf8_valid_utf8(v);
    vstd::utf8::encode_utf8_decode_utf8(v);
}

/// Token comparison is symmetric, a non-empty token matches itself, and an
/// empty token matches nothing.
pub proof fn law_tokens_match(a: Seq<char>, b: Seq<char>)
    ensures
        tokens_match_spec(a, b) == tokens_match_spec(b, a),
        a.len() > 0 ==> tokens_match_spec(a, a),
        a.len() == 0 ==> !tokens_match_spec(a, b) && !tokens_match_spec(b, a),
{
}

/// What the CSRF guard does with a request before reading its body.
#[derive(Clone, Copy, Debug, PartialEq, Eq, Structural)]
pub enum CsrfStep {
    /// Let the request through.
    Allow,
    /// Refuse it with `403`.
    Reject,
    /// Look for the token in the form body.
    ReadBody,
}

/// Safe methods pass; a mutating request with a token header passes exactly
/// when the header matches the session token; otherwise the body decides.
pub fn csrf_first_step(method: &str, expected: &str, header: Option<&str>) -> (r: CsrfStep)
    ensures
        !is_mutating_spec(method@) ==> r == CsrfStep::Allow,
        is_mutating_spec(method@) ==> match header_token_spec(crate::next::opt_view(header)) {
            Some(p) => r == if tokens_match_spec(expected@, p) { CsrfStep::Allow } else { CsrfStep::Reject },
            None => r == CsrfStep::ReadBody,
        },
{
    if !is_mutating(method) {
        return CsrfStep::Allow;
    }
    match header_token(header) {
        Some(p) => if tokens_match(expected, p.as_str()) { CsrfStep::Allow } else { CsrfStep::Reject },
        None => CsrfStep::ReadBody,
    }
}

/// Whether a form body carries the session's token.
pub fn csrf_body_allows(expected: &str, body: &[u8], content_type: Option<&str>) -> (r: bool)
    ensures
        r == match form_token_spec(body@, crate::next::opt_view(content_type)) {
            Some(t) => tokens_match_spec(expected@, t),
            None => false,
        },
{
    match form_token(body, content_type) {
        Some(t) => tokens_match(expected, t.as_str()),
        None => false,
    }
}

} // verus!
