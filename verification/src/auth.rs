//! Sign-in support: trusted edge identity, HTMX detection, post-login targets,
//! and the credential forms with their validation rules.

use vstd::prelude::*;
use crate::text::{trim, trim_str, ascii_lower, to_ascii_lower, str_eq, starts_with, push_str, find_char_from, index_of, lemma_index_of, to_owned_string};
use crate::error::{AppError, bad_request, is_bad_request};
use crate::next::{opt_view, safe_next, safe_next_spec, share_token_spec, is_share_invite_next, encode_query_value, pct_encode};
use crate::users::{validate_email, validate_password, email_ok, byte_len};

verus! {

/// Values an environment flag counts as on.
pub open spec fn flag_on(raw: Seq<char>) -> bool {
    let v = ascii_lower(trim(raw));
    v == "1"@ || v == "true"@ || v == "yes"@ || v == "on"@
}

/// A boolean setting from its raw environment value, or `default` when unset.
pub fn env_bool(raw: Option<&str>, default: bool) -> (r: bool)
    ensures
        r == match raw {
            Some(v) => flag_on(v@),
            None => default,
        },
{
    match raw {
        Some(v) => {
            let l = to_ascii_lower(trim_str(v));
            let s = l.as_str();
            str_eq(s, "1") || str_eq(s, "true") || str_eq(s, "yes") || str_eq(s, "on")
        },
        None => default,
    }
}

/// Whether identity headers injected by the edge worker are trusted
/// (from the `AUTH_TRUST_HEADERS` value).
pub fn trust_identity_headers(raw: Option<&str>) -> (r: bool)
    ensures
        r == match raw {
            Some(v) => flag_on(v@),
            None => false,
        },
{
    env_bool(raw, false)
}

/// A setting's trimmed value, or `default` when unset or blank.
pub open spec fn env_string_spec(raw: Option<Seq<char>>, default: Seq<char>) -> Seq<char> {
    match raw {
        Some(v) => if trim(v).len() > 0 {
            trim(v)
        } else {
            default
        },
        None => default,
    }
}

pub fn env_string(raw: Option<&str>, default: &str) -> (r: String)
    ensures
        r@ == env_string_spec(opt_view(raw), default@),
{
    match raw {
        Some(v) => {
            let t = trim_str(v);
            if t.unicode_len() > 0 {
                to_owned_string(t)
            } else {
                to_owned_string(default)
            }
        },
        None => to_owned_string(default),
    }
}

/// Product name shown in HTML (from the `APP_NAME` value); defaults to MortgageTrack.
pub fn app_name_from_env(raw: Option<&str>) -> (r: String)
    ensures
        r@ == env_string_spec(opt_view(raw), "MortgageTrack"@),
{
    env_string(raw, "MortgageTrack")
}

/// Whether the `HX-Request` header value says `true` (any case).
pub fn is_htmx(value: Option<&str>) -> (r: bool)
    ensures
        r == match value {
            Some(v) => ascii_lower(v@) == "true"@,
            None => false,
        },
{
    match value {
        Some(v) => {
            let l = to_ascii_lower(v);
            str_eq(l.as_str(), "true")
        },
        None => false,
    }
}

/// Login/register page fields derived from the `next` parameter.
pub struct AuthNextFields {
    pub next: String,
    pub next_query: String,
    pub share_invite: bool,
}

/// The safe target (or empty), its query encoding, and whether it is a share invite.
pub fn auth_next_fields(next: Option<&str>) -> (r: AuthNextFields)
    ensures
        r.next@ == match safe_next_spec(opt_view(next)) {
            Some(t) => t,
            None => Seq::empty(),
        },
        r.share_invite == (share_token_spec(r.next@) is Some),
        r.next_query@ == if r.next@.len() == 0 {
            Seq::empty()
        } else {
            pct_encode(vstd::utf8::encode_utf8(r.next@))
        },
{
    let target = match safe_next(next) {
        Some(t) => to_owned_string(t),
        None => String::new(),
    };
    let share_invite = is_share_invite_next(target.as_str());
    let next_query = if target.as_str().unicode_len() == 0 {
        String::new()
    } else {
        encode_query_value(target.as_str())
    };
    AuthNextFields { next: target, next_query, share_invite }
}

/// Whether some `&`-separated pair of `text` begins with `prefix`.
pub open spec fn any_pair_starts(text: Seq<char>, prefix: Seq<char>) -> bool
    decreases text.len(),
{
    let k = index_of(text, '&');
    let pair = text.subrange(0, k);
    if prefix.len() <= pair.len() && pair.subrange(0, prefix.len() as int) == prefix {
        true
    } else if k >= text.len() {
        false
    } else {
        proof {
            lemma_index_of(text, '&');
        }
        any_pair_starts(text.subrange(k + 1, text.len() as int), prefix)
    }
}

fn query_has_client_id(query: &str) -> (r: bool)
    ensures
        r == any_pair_starts(query@, "client_id="@),
{
    let n = query.unicode_len();
    let mut pos: usize = 0;
    let prefix = "client_id=";
    assert(query@.subrange(0, n as int) =~= query@);
    loop
        invariant
            n == query@.len(),
            pos <= n,
            prefix@ == "client_id="@,
            any_pair_starts(query@, prefix@) == any_pair_starts(query@.subrange(pos as int, n as int), prefix@),
        decreases n - pos,
    {
        let k = find_char_from(query, '&', pos);
        let pair = query.substring_char(pos, k);
        proof {
            let rest = query@.subrange(pos as int, n as int);
            assert(pair@ =~= rest.subrange(0, k - pos));
            assert(index_of(rest, '&') == k - pos);
            assert(any_pair_starts(rest, prefix@) == (
                (prefix@.len() <= pair@.len() && pair@.subrange(0, prefix@.len() as int) == prefix@)
                || (k < n && any_pair_starts(rest.subrange(k - pos + 1, rest.len() as int), prefix@))));
        }
        if starts_with(pair, prefix) {
            return true;
        }
        if k == n {
            return false;
        }
        proof {
            let rest = query@.subrange(pos as int, n as int);
            assert(rest.subrange(k - pos + 1, rest.len() as int) =~= query@.subrange(k + 1, n as int));
        }
        pos = k + 1;
    }
}

/// Where a signed-in visitor resumes an OAuth authorization: only when the
/// login URL's query carries a `client_id`.
pub fn oauth_authorize_return(query: Option<&str>) -> (r: Option<String>)
    ensures
        match r {
            Some(s) => query matches Some(q) && any_pair_starts(q@, "client_id="@)
                && s@ == "/api/auth/oauth2/authorize?"@ + q@,
            None => !(query matches Some(q) && any_pair_starts(q@, "client_id="@)),
        },
{
    let q = match query {
        Some(q) => q,
        None => return None,
    };
    if !query_has_client_id(q) {
        return None;
    }
    let mut out = String::from_str("/api/auth/oauth2/authorize?");
    push_str(&mut out, q);
    Some(out)
}

/// Whether `p` occurs in `s`.
pub open spec fn contains_seq(s: Seq<char>, p: Seq<char>) -> bool {
    exists|i: int| 0 <= i && i + p.len() <= s.len() && #[trigger] s.subrange(i, i + p.len()) == p
}

fn contains_str(s: &str, p: &str) -> (r: bool)
    ensures
        r == contains_seq(s@, p@),
{
    let n = s.unicode_len();
    let m = p.unicode_len();
    if m > n {
        return false;
    }
    let last = n - m;
    let mut i: usize = 0;
    loop
        invariant
            n == s@.len(),
            m == p@.len(),
            m <= n,
            last == n - m,
            i <= last,
            forall|j: int| 0 <= j < i ==> #[trigger] s@.subrange(j, j + m) != p@,
        decreases last - i,
    {
        let w = s.substring_char(i, i + m);
        if str_eq(w, p) {
            return true;
        }
        if i == last {
            return false;
        }
        i = i + 1;
    }
}

/// Whether an `Accept` header value asks for JSON.
pub fn wants_json(accept: Option<&str>) -> (r: bool)
    ensures
        r == match accept {
            Some(v) => contains_seq(ascii_lower(v@), "application/json"@),
            None => false,
        },
{
    match accept {
        Some(v) => {
            let l = to_ascii_lower(v);
            contains_str(l.as_str(), "application/json")
        },
        None => false,
    }
}

/// Query of the login and register pages.
pub struct AuthQuery {
    pub next: Option<String>,
}

/// Login form.
pub struct LoginForm {
    pub email: String,
    pub password: String,
    pub next: Option<String>,
}

/// Registration form.
pub struct RegisterForm {
    pub email: String,
    pub password: String,
    pub confirm_password: String,
    pub next: Option<String>,
}

/// Checks a login form before the rate limiter and the credential lookup:
/// the trimmed email, or the first rule it breaks.
pub fn validate_login(form: &LoginForm) -> (r: Result<&str, AppError>)
    ensures
        match r {
            Ok(e) => email_ok(form.email@) && e@ == trim(form.email@) && form.password@.len() > 0,
            Err(err) => if !email_ok(form.email@) {
                is_bad_request(err, "Enter a valid email address."@)
            } else {
                form.password@.len() == 0 && is_bad_request(err, "Enter your password."@)
            },
        },
{
    let email = validate_email(form.email.as_str())?;
    if form.password.as_str().unicode_len() == 0 {
        return Err(bad_request("Enter your password."));
    }
    Ok(email)
}

/// A password pair that passes the rules and matches its confirmation.
pub open spec fn new_password_ok(password: Seq<char>, confirm: Seq<char>) -> bool {
    password.len() > 0 && 8 <= byte_len(password) <= 128 && password == confirm
}

/// Error for a new password that breaks a rule or its confirmation.
pub open spec fn new_password_error(err: AppError, password: Seq<char>, confirm: Seq<char>) -> bool {
    if password.len() == 0 {
        is_bad_request(err, "Enter a password."@)
    } else if byte_len(password) < 8 {
        is_bad_request(err, "Password must be at least 8 characters."@)
    } else if byte_len(password) > 128 {
        is_bad_request(err, "Password is too long."@)
    } else {
        password != confirm && is_bad_request(err, "Passwords do not match."@)
    }
}

/// Password rules, then the confirmation.
pub fn validate_new_password(password: &String, confirm: &String) -> (r: Result<(), AppError>)
    ensures
        match r {
            Ok(_) => new_password_ok(password@, confirm@),
            Err(err) => !new_password_ok(password@, confirm@) && new_password_error(err, password@, confirm@),
        },
{
    validate_password(password.as_str())?;
    if *password != *confirm {
        return Err(bad_request("Passwords do not match."));
    }
    Ok(())
}

/// Checks a registration form before the rate limiter: the trimmed email,
/// or the first rule it breaks.
pub fn validate_registration(form: &RegisterForm) -> (r: Result<&str, AppError>)
    ensures
        match r {
            Ok(e) => email_ok(form.email@) && e@ == trim(form.email@)
                && new_password_ok(form.password@, form.confirm_password@),
            Err(err) => if !email_ok(form.email@) {
                is_bad_request(err, "Enter a valid email address."@)
            } else {
                !new_password_ok(form.password@, form.confirm_password@)
                    && new_password_error(err, form.password@, form.confirm_password@)
            },
        },
{
    let email = validate_email(form.email.as_str())?;
    validate_new_password(&form.password, &form.confirm_password)?;
    Ok(email)
}

/// Query of the forgot-password page.
pub struct ForgotQuery {
    pub sent: Option<String>,
}

/// Forgot-password form.
pub struct ForgotForm {
    pub email: String,
}

/// Query of the reset-password page.
pub struct ResetQuery {
    pub token: Option<String>,
}

/// Reset-password form.
pub struct ResetForm {
    pub token: String,
    pub password: String,
    pub confirm_password: String,
}

/// Checks a reset form before the token is consumed.
pub fn validate_reset(form: &ResetForm) -> (r: Result<(), AppError>)
    ensures
        match r {
            Ok(_) => form.token@.len() > 0 && new_password_ok(form.password@, form.confirm_password@),
            Err(err) => if form.token@.len() == 0 {
                is_bad_request(err, "This reset link is missing or invalid."@)
            } else {
                !new_password_ok(form.password@, form.confirm_password@)
                    && new_password_error(err, form.password@, form.confirm_password@)
            },
        },
{
    if form.token.as_str().unicode_len() == 0 {
        return Err(bad_request("This reset link is missing or invalid."));
    }
    validate_new_password(&form.password, &form.confirm_password)
}

/// Query of the account and settings pages.
pub struct AccountQuery {
    pub password: Option<String>,
}

/// Settings page query flags.
pub struct SettingsQuery {
    pub password: Option<String>,
    pub avatar: Option<String>,
    pub tab: Option<String>,
    pub years: Option<String>,
}

/// Change-password form.
pub struct ChangePasswordForm {
    pub current_password: String,
    pub new_password: String,
    pub confirm_password: String,
}

/// The current password must be given before it is checked.
pub fn require_current_password(form: &ChangePasswordForm) -> (r: Result<(), AppError>)
    ensures
        match r {
            Ok(_) => form.current_password@.len() > 0,
            Err(err) => form.current_password@.len() == 0 && is_bad_request(err, "Enter your current password."@),
        },
{
    if form.current_password.as_str().unicode_len() == 0 {
        return Err(bad_request("Enter your current password."));
    }
    Ok(())
}

/// Delete-account form.
pub struct DeleteAccountForm {
    pub password: String,
}

/// The password must be given before it is checked.
pub fn require_delete_password(form: &DeleteAccountForm) -> (r: Result<(), AppError>)
    ensures
        match r {
            Ok(_) => form.password@.len() > 0,
            Err(err) => form.password@.len() == 0 && is_bad_request(err, "Enter your password."@),
        },
{
    if form.password.as_str().unicode_len() == 0 {
        return Err(bad_request("Enter your password."));
    }
    Ok(())
}

/// Avatar choice form.
pub struct UpdateAvatarForm {
    pub avatar: String,
}

/// Default tab form.
pub struct UpdateDefaultTabForm {
    pub default_tab: String,
}

/// Payments year-expansion form.
pub struct UpdatePaymentsYearExpandForm {
    pub payments_year_expand: String,
}

} // verus!
