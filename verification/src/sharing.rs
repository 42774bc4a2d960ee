//! Share invites and collaborators: invite tokens, their hashes, and the
//! share panel.

use vstd::prelude::*;
use vstd::utf8::encode_utf8;
use argon2::password_hash::rand_core::{OsRng, RngCore};
use crate::text::{trim, trim_str, push_char, push_str, to_owned_string, str_eq};
use crate::csrf::{sha256, sha256_spec};
use crate::error::{AppError, is_not_found, is_bad_request, not_found, bad_request};

verus! {

/// Lower-case hex digit for a nibble.
pub open spec fn hex_lower_spec(n: int) -> char {
    if n < 10 {
        (48 + n) as char
    } else {
        (87 + n) as char
    }
}

/// `{:02x}` of every byte, concatenated.
pub open spec fn hex_text(bs: Seq<u8>) -> Seq<char>
    decreases bs.len(),
{
    if bs.len() == 0 {
        Seq::empty()
    } else {
        hex_text(bs.drop_last()) + seq![hex_lower_spec((bs.last() / 16) as int), hex_lower_spec((bs.last() % 16) as int)]
    }
}

fn hex_lower(n: u8) -> (c: char)
    requires
        n < 16,
    ensures
        c == hex_lower_spec(n as int),
{
    if n < 10 {
        (48 + n) as char
    } else {
        (87 + n) as char
    }
}

/// Lower-case hex encoding of bytes.
pub fn to_hex(bytes: &[u8]) -> (r: String)
    ensures
        r@ == hex_text(bytes@),
{
    let mut out = String::new();
    let mut i: usize = 0;
    while i < bytes.len()
        invariant
            i <= bytes@.len(),
            out@ == hex_text(bytes@.subrange(0, i as int)),
        decreases bytes@.len() - i,
    {
        let b = bytes[i];
        push_char(&mut out, hex_lower(b / 16));
        push_char(&mut out, hex_lower(b % 16));
        proof {
            let p = bytes@.subrange(0, i + 1);
            assert(p.drop_last() =~= bytes@.subrange(0, i as int));
        }
        i = i + 1;
    }
    assert(bytes@.subrange(0, bytes@.len() as int) =~= bytes@);
    out
}

/// Stored form of an invite or reset token: hex SHA-256 of its bytes.
pub open spec fn token_hash_spec(token: Seq<char>) -> Seq<char> {
    hex_text(sha256_spec(encode_utf8(token)))
}

pub fn hash_token(token: &str) -> (r: String)
    ensures
        r@ == token_hash_spec(token@),
{
    let digest = sha256(token.as_bytes());
    to_hex(digest.as_slice())
}

/// Thirty-two bytes from the operating system's random source (`OsRng`).
#[verifier::external_body]
fn random_32() -> (r: [u8; 32]) {
    let mut bytes = [0u8; 32];
    OsRng.fill_bytes(&mut bytes);
    bytes
}

/// Whether every character is a lower-case hex digit.
pub open spec fn all_lower_hex(s: Seq<char>) -> bool {
    forall|i: int| 0 <= i < s.len() ==> ('0' <= #[trigger] s[i] <= '9') || ('a' <= s[i] <= 'f')
}

proof fn lemma_hex_text(bs: Seq<u8>)
    ensures
        hex_text(bs).len() == 2 * bs.len(),
        all_lower_hex(hex_text(bs)),
    decreases bs.len(),
{
    if bs.len() > 0 {
        lemma_hex_text(bs.drop_last());
        let h = hex_text(bs);
        let p = hex_text(bs.drop_last());
        assert forall|i: int| 0 <= i < h.len() implies ('0' <= #[trigger] h[i] <= '9') || ('a' <= h[i] <= 'f') by {
            if i < p.len() {
                assert(h[i] == p[i]);
            }
        }
    }
}

/// A fresh random token: 64 lower-case hex digits of 32 random bytes.
pub fn generate_token() -> (r: String)
    ensures
        r@.len() == 64,
        all_lower_hex(r@),
{
    let bytes = random_32();
    let r = to_hex(&bytes);
    proof {
        lemma_hex_text(bytes@);
    }
    r
}

/// Path of an invite link.
pub fn share_path(token: &str) -> (r: String)
    ensures
        r@ == "/share/"@ + token@,
{
    let mut out = String::from_str("/share/");
    push_str(&mut out, token);
    out
}

/// An invite token as the accept flow reads it: trimmed, 1 to 128 bytes.
pub open spec fn invite_token_ok(token: Seq<char>) -> bool {
    trim(token).len() > 0 && encode_utf8(trim(token)).len() <= 128
}

/// Hash of a presented invite token; malformed tokens are not found.
pub fn invite_token_hash(token: &str) -> (r: Result<String, AppError>)
    ensures
        match r {
            Ok(h) => invite_token_ok(token@) && h@ == token_hash_spec(trim(token@)),
            Err(e) => !invite_token_ok(token@) && is_not_found(e, "Invite not found"@),
        },
{
    let t = trim_str(token);
    if t.unicode_len() == 0 || t.as_bytes().len() > 128 {
        return Err(not_found("Invite not found"));
    }
    Ok(hash_token(t))
}

/// A live invite found by its hash.
pub struct InviteRow {
    pub link_id: String,
    pub profile_id: String,
    pub created_by: String,
}

/// An invite can be accepted when it exists and was made by someone else.
pub fn check_invite(row: Option<&InviteRow>, user_key: &str) -> (r: Result<(), AppError>)
    ensures
        match r {
            Ok(_) => row matches Some(link) && link.created_by@ != user_key@,
            Err(e) => match row {
                None => is_not_found(e, "Invite not found"@),
                Some(link) => link.created_by@ == user_key@ && is_bad_request(e, "You already own this profile."@),
            },
        },
{
    match row {
        None => Err(not_found("Invite not found")),
        Some(link) => if str_eq(link.created_by.as_str(), user_key) {
            Err(bad_request("You already own this profile."))
        } else {
            Ok(())
        },
    }
}

/// Marking the invite used must touch exactly the live row; otherwise it was taken meanwhile.
pub fn check_invite_claimed(updated: u64) -> (r: Result<(), AppError>)
    ensures
        match r {
            Ok(_) => updated > 0,
            Err(e) => updated == 0 && is_not_found(e, "Invite not found"@),
        },
{
    if updated == 0 {
        return Err(not_found("Invite not found"));
    }
    Ok(())
}

/// A user's relation to a profile.
#[derive(Clone, Copy, Debug, PartialEq, Eq, Structural)]
pub enum ProfileRole {
    Owner,
    Editor,
}

/// Only editors can leave a profile.
pub fn check_can_leave(role: ProfileRole) -> (r: Result<(), AppError>)
    ensures
        match r {
            Ok(_) => role == ProfileRole::Editor,
            Err(e) => role == ProfileRole::Owner && is_bad_request(e, "Owners cannot leave their own profile."@),
        },
{
    if role != ProfileRole::Editor {
        return Err(bad_request("Owners cannot leave their own profile."));
    }
    Ok(())
}

/// The active profile after `removed` disappears from the user's list:
/// unchanged unless it was the active one, then the first remaining profile.
pub open spec fn active_after_removal(active: Option<Seq<char>>, removed: Seq<char>, remaining: Seq<String>) -> Option<Option<Seq<char>>> {
    if active == Some(removed) {
        Some(if remaining.len() > 0 { Some(remaining[0]@) } else { None })
    } else {
        None
    }
}

/// New active profile to store after a profile is deleted or left, when it must change.
pub fn next_active_profile(active: Option<&str>, removed: &str, remaining: &[String]) -> (r: Option<Option<String>>)
    ensures
        match r {
            None => active_after_removal(crate::next::opt_view(active), removed@, remaining@) is None,
            Some(None) => active_after_removal(crate::next::opt_view(active), removed@, remaining@) == Some(None::<Seq<char>>),
            Some(Some(s)) => active_after_removal(crate::next::opt_view(active), removed@, remaining@) == Some(Some(s@)),
        },
{
    match active {
        Some(a) => if str_eq(a, removed) {
            if remaining.len() > 0 {
                Some(Some(remaining[0].clone()))
            } else {
                Some(None)
            }
        } else {
            None
        },
        None => None,
    }
}

/// The live invite of a profile.
pub struct ShareLinkStatus {
    pub id: String,
    pub expires_at: String,
}

/// A collaborator of a profile.
pub struct CollaboratorRow {
    pub user_id: String,
    pub email: String,
    pub avatar: Option<String>,
    pub created_at: String,
}

/// A newly created invite.
pub struct CreatedShareLink {
    pub expires_at: String,
    pub path: String,
}

/// A collaborator as the share panel lists it.
pub struct CollaboratorView {
    pub user_id: String,
    pub email: String,
}

/// Data of the share panel.
pub struct SharePanelTemplate {
    pub profile_id: String,
    pub is_owner: bool,
    pub has_active_invite: bool,
    pub active_expires_at: String,
    pub fresh_invite_url: String,
    pub collaborators: Vec<CollaboratorView>,
}

/// Share panel: an invite is shown when one is live or was just made; a fresh
/// invite's expiry wins over the stored one.
pub fn share_panel_template(
    profile_id: &str,
    is_owner: bool,
    active: Option<&ShareLinkStatus>,
    collaborators: &[CollaboratorRow],
    fresh_path: Option<String>,
    fresh_expires_at: Option<String>,
) -> (r: SharePanelTemplate)
    ensures
        r.profile_id@ == profile_id@,
        r.is_owner == is_owner,
        r.has_active_invite == (active is Some || fresh_path is Some),
        r.active_expires_at@ == match fresh_expires_at {
            Some(e) => e@,
            None => match active {
                Some(a) => a.expires_at@,
                None => Seq::empty(),
            },
        },
        r.fresh_invite_url@ == match fresh_path {
            Some(p) => p@,
            None => Seq::empty(),
        },
        r.collaborators@.len() == collaborators@.len(),
        forall|i: int| 0 <= i < collaborators@.len() ==> (#[trigger] r.collaborators@[i]).user_id@
            == collaborators@[i].user_id@ && r.collaborators@[i].email@ == collaborators@[i].email@,
{
    let has_active_invite = active.is_some() || fresh_path.is_some();
    let active_expires_at = match fresh_expires_at {
        Some(e) => e,
        None => match active {
            Some(a) => a.expires_at.clone(),
            None => String::new(),
        },
    };
    let fresh_invite_url = match fresh_path {
        Some(p) => p,
        None => String::new(),
    };
    let mut views: Vec<CollaboratorView> = Vec::new();
    let mut i: usize = 0;
    while i < collaborators.len()
        invariant
            i <= collaborators@.len(),
            views@.len() == i,
            forall|j: int| 0 <= j < i ==> (#[trigger] views@[j]).user_id@ == collaborators@[j].user_id@
                && views@[j].email@ == collaborators@[j].email@,
        decreases collaborators@.len() - i,
    {
        views.push(CollaboratorView {
            user_id: collaborators[i].user_id.clone(),
            email: collaborators[i].email.clone(),
        });
        i = i + 1;
    }
    SharePanelTemplate {
        profile_id: to_owned_string(profile_id),
        is_owner,
        has_active_invite,
        active_expires_at,
        fresh_invite_url,
        collaborators: views,
    }
}

/// Hex text is two lower-case hex digits per byte.
pub proof fn law_hex_text_shape(bs: Seq<u8>)
    ensures
        hex_text(bs).len() == 2 * bs.len(),
        all_lower_hex(hex_text(bs)),
{
    lemma_hex_text(bs);
}

/// An invite link made from a generated token works end to end: signing in
/// with the link as the target recognises the token, and accepting it looks
/// the invite up under the hash it was stored with.
pub proof fn law_invite_link_round_trip(t: Seq<char>)
    requires
        t.len() == 64,
        all_lower_hex(t),
    ensures
        crate::next::share_token_spec("/share/"@ + t) == Some(t),
        invite_token_ok(t),
        trim(t) == t,
{
    reveal_strlit("/share/");
    let p = "/share/"@ + t;
    assert(p.subrange(0, 7) =~= crate::next::share_prefix());
    assert(p.subrange(7, p.len() as int) =~= t);
    assert forall|i: int| 0 <= i < t.len() implies !crate::text::is_ws(#[trigger] t[i]) && crate::next::is_hex_char(t[i])
        && t[i] != '\\' && t[i] != '\n' && t[i] != '\r' && t[i] != '/' by {
        assert(('0' <= t[i] <= '9') || ('a' <= t[i] <= 'f'));
    }
    assert(crate::text::ltrim(t) == t);
    assert(t.last() == t[63]);
    assert(crate::text::rtrim(t) == t);
    assert(p.last() == t[63]);
    assert(crate::text::ltrim(p) == p);
    assert(crate::text::rtrim(p) == p);
    assert(!p.contains('\\')) by {
        if p.contains('\\') {
            let j = choose|j: int| 0 <= j < p.len() && p[j] == '\\';
            if j >= 7 { assert(p[j] == t[j - 7]); }
        }
    }
    assert(!p.contains('\n')) by {
        if p.contains('\n') {
            let j = choose|j: int| 0 <= j < p.len() && p[j] == '\n';
            if j >= 7 { assert(p[j] == t[j - 7]); }
        }
    }
    assert(!p.contains('\r')) by {
        if p.contains('\r') {
            let j = choose|j: int| 0 <= j < p.len() && p[j] == '\r';
            if j >= 7 { assert(p[j] == t[j - 7]); }
        }
    }
    let tok = p.subrange(7, p.len() as int);
    assert forall|i: int| 0 <= i < tok.len() implies crate::next::is_hex_char(#[trigger] tok[i]) by {
        assert(tok[i] == t[i]);
    }
    assert forall|i: int| 0 <= i < t.len() implies '\0' <= #[trigger] t[i] <= '\u{7f}' by {
        assert(('0' <= t[i] <= '9') || ('a' <= t[i] <= 'f'));
    }
    vstd::utf8::is_ascii_chars_encode_utf8(t);
}

/// Where a signed-out visitor of an invite link goes: sign-up, coming back
/// to the link afterwards.
pub fn share_signup_location(token: &str) -> (r: String)
    ensures
        r@ == "/register?next="@ + crate::next::pct_encode(encode_utf8("/share/"@ + token@)),
{
    let path = share_path(token);
    let mut out = String::from_str("/register?next=");
    let q = crate::next::encode_query_value(path.as_str());
    push_str(&mut out, q.as_str());
    out
}

} // verus!
