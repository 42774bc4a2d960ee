//! Safe post-login redirect targets and share-invite paths.

use vstd::prelude::*;
use crate::text::{trim, trim_str, contains_char, push_char, str_eq};

verus! {

/// The view of an optional string slice.
pub open spec fn opt_view(o: Option<&str>) -> Option<Seq<char>> {
    match o {
        Some(s) => Some(s@),
        None => None,
    }
}

/// A same-origin relative path: starts with `/`, not `//`, and holds no
/// backslash, carriage return or line feed.
pub open spec fn is_safe_path(t: Seq<char>) -> bool {
    &&& t.len() > 0
    &&& t[0] == '/'
    &&& !(t.len() >= 2 && t[1] == '/')
    &&& !t.contains('\\')
    &&& !t.contains('\n')
    &&& !t.contains('\r')
}

/// The redirect target accepted for `next`: the trimmed value when it is a safe path.
pub open spec fn safe_next_spec(next: Option<Seq<char>>) -> Option<Seq<char>> {
    match next {
        None => None,
        Some(n) => if is_safe_path(trim(n)) {
            Some(trim(n))
        } else {
            None
        },
    }
}

/// Allow only same-origin relative paths (no scheme/host open redirects).
pub fn safe_next(next: Option<&str>) -> (r: Option<&str>)
    ensures
        opt_view(r) == safe_next_spec(opt_view(next)),
{
    let next = match next {
        Some(n) => trim_str(n),
        None => return None,
    };
    let n = next.unicode_len();
    if n == 0 {
        return None;
    }
    if next.get_char(0) != '/' || (n >= 2 && next.get_char(1) == '/') || contains_char(next, '\\') {
        return None;
    }
    if contains_char(next, '\n') || contains_char(next, '\r') {
        return None;
    }
    Some(next)
}

pub open spec fn is_hex_char(c: char) -> bool {
    ('0' <= c && c <= '9') || ('a' <= c && c <= 'f') || ('A' <= c && c <= 'F')
}

pub open spec fn share_prefix() -> Seq<char> {
    seq!['/', 's', 'h', 'a', 'r', 'e', '/']
}

/// The invite token of a `/share/{token}` path: 1 to 128 hex digits.
pub open spec fn share_token_spec(next: Seq<char>) -> Option<Seq<char>> {
    match safe_next_spec(Some(next)) {
        None => None,
        Some(path) => if path.len() >= 7 && path.subrange(0, 7) == share_prefix() {
            let token = path.subrange(7, path.len() as int);
            if 0 < token.len() <= 128 && forall|i: int| 0 <= i < token.len() ==> is_hex_char(#[trigger] token[i]) {
                Some(token)
            } else {
                None
            }
        } else {
            None
        },
    }
}

/// Extract a share invite token from a `/share/{token}` next path.
pub fn share_token_from_next(next: &str) -> (r: Option<&str>)
    ensures
        opt_view(r) == share_token_spec(next@),
{
    let path = match safe_next(Some(next)) {
        Some(p) => p,
        None => return None,
    };
    let n = path.unicode_len();
    if n < 7 {
        return None;
    }
    let head = path.substring_char(0, 7);
    let prefix = "/share/";
    proof {
        reveal_strlit("/share/");
        assert(prefix@ =~= share_prefix());
    }
    if !str_eq(head, prefix) {
        return None;
    }
    let token = path.substring_char(7, n);
    let m = n - 7;
    if m == 0 || m > 128 {
        return None;
    }
    let mut i: usize = 0;
    while i < m
        invariant
            m == token@.len(),
            n == path@.len(),
            m == n - 7,
            0 < m <= 128,
            token@ == path@.subrange(7, n as int),
            path@.subrange(0, 7) == share_prefix(),
            safe_next_spec(Some(next@)) == Some(path@),
            i <= m,
            forall|j: int| 0 <= j < i ==> is_hex_char(#[trigger] token@[j]),
        decreases m - i,
    {
        let c = token.get_char(i);
        if !(('0' <= c && c <= '9') || ('a' <= c && c <= 'f') || ('A' <= c && c <= 'F')) {
            assert(!is_hex_char(token@[i as int]));
            assert(!(forall|j: int| 0 <= j < token@.len() ==> is_hex_char(#[trigger] token@[j])));
            return None;
        }
        i = i + 1;
    }
    Some(token)
}

pub fn is_share_invite_next(next: &str) -> (r: bool)
    ensures
        r == share_token_spec(next@) is Some,
{
    share_token_from_next(next).is_some()
}

/// Bytes left as they are by percent-encoding (RFC 3986 unreserved).
pub open spec fn is_unreserved(b: u8) -> bool {
    ||| (65 <= b && b <= 90)
    ||| (97 <= b && b <= 122)
    ||| (48 <= b && b <= 57)
    ||| b == 45 || b == 95 || b == 46 || b == 126
}

/// Upper-case hex digit for a nibble.
pub open spec fn hex_upper_spec(n: u8) -> char {
    if n < 10 {
        (48 + n) as char
    } else {
        (55 + n) as char
    }
}

/// Percent-encoding of one byte.
pub open spec fn pct_byte(b: u8) -> Seq<char> {
    if is_unreserved(b) {
        seq![b as char]
    } else {
        seq!['%', hex_upper_spec(b / 16), hex_upper_spec(b % 16)]
    }
}

/// Percent-encoding of a byte string.
pub open spec fn pct_encode(bs: Seq<u8>) -> Seq<char>
    decreases bs.len(),
{
    if bs.len() == 0 {
        Seq::empty()
    } else {
        pct_encode(bs.drop_last()) + pct_byte(bs.last())
    }
}

pub fn hex_upper(n: u8) -> (c: char)
    requires
        n < 16,
    ensures
        c == hex_upper_spec(n),
{
    if n < 10 {
        (48 + n) as char
    } else {
        (55 + n) as char
    }
}

/// Percent-encode a value for use in a query string.
pub fn encode_query_value(value: &str) -> (r: String)
    ensures
        r@ == pct_encode(vstd::utf8::encode_utf8(value@)),
{
    let bytes = value.as_bytes();
    let n = bytes.len();
    let mut out = String::new();
    let mut i: usize = 0;
    while i < n
        invariant
            n == bytes@.len(),
            bytes@ == vstd::utf8::encode_utf8(value@),
            i <= n,
            out@ == pct_encode(bytes@.subrange(0, i as int)),
        decreases n - i,
    {
        let b = bytes[i];
        if (65 <= b && b <= 90) || (97 <= b && b <= 122) || (48 <= b && b <= 57) || b == 45 || b
            == 95 || b == 46 || b == 126 {
            push_char(&mut out, b as char);
        } else {
            push_char(&mut out, '%');
            push_char(&mut out, hex_upper(b / 16));
            push_char(&mut out, hex_upper(b % 16));
        }
        proof {
            let s = bytes@.subrange(0, i + 1);
            assert(s.drop_last() =~= bytes@.subrange(0, i as int));
            assert(s.last() == b);
        }
        i = i + 1;
    }
    assert(bytes@.subrange(0, n as int) =~= bytes@);
    out
}

/// A redirect target that was accepted once is accepted again unchanged.
pub proof fn law_safe_next_idempotent(next: Option<Seq<char>>)
    ensures
        safe_next_spec(safe_next_spec(next)) == safe_next_spec(next),
{
    if let Some(n) = next {
        crate::text::lemma_trim_idempotent(n);
    }
}

/// A `next` value carries an invite token only when it is a safe path, and
/// that path is exactly `/share/` followed by the token.
pub proof fn law_share_invite_is_safe_path(next: Seq<char>)
    ensures
        share_token_spec(next) matches Some(t) ==> safe_next_spec(Some(next)) == Some(share_prefix() + t),
{
    if let Some(t) = share_token_spec(next) {
        let path = trim(next);
        assert(path == path.subrange(0, 7) + path.subrange(7, path.len() as int));
    }
}

} // verus!
