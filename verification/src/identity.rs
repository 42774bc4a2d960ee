//! Who is signing in: identity from trusted edge headers or the session,
//! access gates, and how unauthenticated requests are turned away.

use vstd::prelude::*;
use uuid::Uuid;
use crate::text::{trim, trim_str, ascii_lower, to_ascii_lower, str_eq, to_owned_string};
use crate::next::opt_view;
use crate::mail::osv;
use crate::sharing::hex_text;
use crate::error::AppError;
use crate::users::{AuthUser, User, UserRole, Instant, role_from, parse_paid_until, paid_until_spec, paid_until_active_spec};
use crate::auth::{env_bool, env_string, env_string_spec, flag_on};

verus! {

/// The 16 bytes of the UUID that `Uuid::parse_str` reads from a text (`None`
/// when it reads none).
pub uninterp spec fn uuid_bytes(s: Seq<char>) -> Option<Seq<u8>>;

/// The hyphenated lower-case text of a UUID, as `Uuid::to_string` writes
/// it: the 16 bytes in lower-case hex, grouped 4-2-2-2-6 bytes
/// (8-4-4-4-12 digits) and joined by `-`.
pub open spec fn uuid_text(bytes: Seq<u8>) -> Seq<char> {
    hex_text(bytes.subrange(0, 4)) + seq!['-'] + hex_text(bytes.subrange(4, 6)) + seq!['-']
        + hex_text(bytes.subrange(6, 8)) + seq!['-'] + hex_text(bytes.subrange(8, 10)) + seq!['-']
        + hex_text(bytes.subrange(10, 16))
}

/// `Uuid::parse_str`, as bytes.
#[verifier::external_body]
pub(crate) fn parse_uuid(s: &str) -> (r: Option<[u8; 16]>)
    ensures
        match r {
            Some(b) => uuid_bytes(s@) == Some(b@),
            None => uuid_bytes(s@) is None,
        },
{
    match Uuid::parse_str(s) {
        Ok(u) => Some(*u.as_bytes()),
        Err(_) => None,
    }
}

/// `Uuid::from_bytes(..).to_string()`.
#[verifier::external_body]
pub(crate) fn uuid_string(bytes: &[u8; 16]) -> (r: String)
    ensures
        r@ == uuid_text(bytes@),
{
    Uuid::from_bytes(*bytes).to_string()
}

/// The key under which rows store a user's id.
pub fn user_key(id: &[u8; 16]) -> (r: String)
    ensures
        r@ == uuid_text(id@),
{
    uuid_string(id)
}

/// A header value as identity headers are read: trimmed, and absent when blank.
pub open spec fn header_spec(v: Option<Seq<char>>) -> Option<Seq<char>> {
    match v {
        Some(s) => if trim(s).len() > 0 { Some(trim(s)) } else { None },
        None => None,
    }
}

fn header_text(v: Option<&str>) -> (r: Option<&str>)
    ensures
        opt_view(r) == header_spec(opt_view(v)),
{
    match v {
        Some(s) => {
            let t = trim_str(s);
            if t.unicode_len() > 0 { Some(t) } else { None }
        },
        None => None,
    }
}

/// An identity the edge worker vouches for.
pub struct EdgeIdentity {
    pub id: [u8; 16],
    pub email: Option<String>,
    pub role: UserRole,
    pub paid_until: Option<Instant>,
}

/// Identity from the edge headers (id, email, role, paid-until values), read
/// only when they are trusted. No id header means no identity; an id that is
/// not a UUID is an internal error; the role defaults to a plain user.
pub fn identity_from_headers(
    trusted: bool,
    id: Option<&str>,
    email: Option<&str>,
    role: Option<&str>,
    paid_until: Option<&str>,
) -> (r: Result<Option<EdgeIdentity>, AppError>)
    ensures
        !trusted ==> r matches Ok(None),
        trusted && header_spec(opt_view(id)) is None ==> r matches Ok(None),
        trusted ==> (header_spec(opt_view(id)) matches Some(raw) ==> match uuid_bytes(raw) {
            None => r matches Err(AppError::Internal(m)) && m@ == "invalid X-User-Id header"@,
            Some(b) => r matches Ok(Some(ident)) && ident.id@ == b
                && match ident.email { Some(e) => header_spec(opt_view(email)) == Some(e@), None => header_spec(opt_view(email)) is None }
                && ident.role == role_from(match header_spec(opt_view(role)) { Some(v) => v, None => "user"@ })
                && ident.paid_until == paid_until_spec(header_spec(opt_view(paid_until))),
        }),
{
    if !trusted {
        return Ok(None);
    }
    let raw = match header_text(id) {
        Some(t) => t,
        None => return Ok(None),
    };
    let bytes = match parse_uuid(raw) {
        Some(b) => b,
        None => return Err(AppError::Internal(String::from_str("invalid X-User-Id header"))),
    };
    let email_v = match header_text(email) {
        Some(e) => Some(to_owned_string(e)),
        None => None,
    };
    let role_v = match header_text(role) {
        Some(v) => UserRole::parse(v),
        None => UserRole::parse("user"),
    };
    let paid_v = parse_paid_until(header_text(paid_until));
    Ok(Some(EdgeIdentity { id: bytes, email: email_v, role: role_v, paid_until: paid_v }))
}

/// The user id a session stores (`user_id` key); a stored value that is not
/// a UUID is an internal error.
pub fn session_user_id(raw: Option<&str>) -> (r: Result<Option<[u8; 16]>, AppError>)
    ensures
        match raw {
            None => r matches Ok(None),
            Some(s) => match uuid_bytes(s@) {
                Some(b) => r matches Ok(Some(id)) && id@ == b,
                None => r matches Err(AppError::Internal(m)) && m@ == "invalid user_id in session"@,
            },
        },
{
    match raw {
        None => Ok(None),
        Some(s) => match parse_uuid(s) {
            Some(b) => Ok(Some(b)),
            None => Err(AppError::Internal(String::from_str("invalid user_id in session"))),
        },
    }
}

pub open spec fn ostr(o: Option<String>) -> Option<Seq<char>> {
    match o {
        Some(s) => Some(s@),
        None => None,
    }
}

/// The signed-in user from a stored row.
pub fn auth_user_from_row(user_id: [u8; 16], user: User) -> (r: AuthUser)
    ensures
        r.id == user_id,
        r.email@ == user.email@,
        ostr(r.avatar) == ostr(user.avatar),
        r.default_tab@ == user.default_tab@,
        r.payments_year_expand@ == user.payments_year_expand@,
        r.role == role_from(user.role@),
        r.paid_until == paid_until_spec(ostr(user.paid_until)),
{
    let role = user.role_enum();
    let paid_until = user.paid_until_dt();
    AuthUser {
        id: user_id,
        email: user.email,
        avatar: user.avatar,
        default_tab: user.default_tab,
        payments_year_expand: user.payments_year_expand,
        role,
        paid_until,
    }
}

/// The signed-in user for an edge identity: the stored row, with the role
/// and paid-until the edge vouches for.
pub fn edge_auth_user(ident: &EdgeIdentity, user: User) -> (r: AuthUser)
    ensures
        r.id == ident.id,
        r.email@ == user.email@,
        ostr(r.avatar) == ostr(user.avatar),
        r.default_tab@ == user.default_tab@,
        r.payments_year_expand@ == user.payments_year_expand@,
        r.role == ident.role,
        r.paid_until == ident.paid_until,
{
    let mut auth = auth_user_from_row(ident.id, user);
    auth.role = ident.role;
    auth.paid_until = ident.paid_until;
    auth
}

/// How a request is redirected.
pub enum RedirectPlan {
    /// An HTMX request: this status with an `HX-Redirect` header to the location.
    Htmx { status: u16, location: String },
    /// A page request: `303 See Other` to the location.
    SeeOther { location: String },
}

/// HTMX requests get `HX-Redirect` with `200`; full-page requests get a 303.
pub fn hx_redirect_plan(htmx: bool, location: &str) -> (r: RedirectPlan)
    ensures
        htmx ==> (r matches RedirectPlan::Htmx { status, location: l } && status == 200 && l@ == location@),
        !htmx ==> (r matches RedirectPlan::SeeOther { location: l } && l@ == location@),
{
    if htmx {
        RedirectPlan::Htmx { status: 200, location: to_owned_string(location) }
    } else {
        RedirectPlan::SeeOther { location: to_owned_string(location) }
    }
}

/// Turn-away of an unauthenticated request: to the sign-in page, by
/// `HX-Redirect` for HTMX requests.
pub struct AuthRedirect {
    location: &'static str,
    htmx: bool,
}

impl AuthRedirect {
    /// Whether the request came from HTMX.
    pub closed spec fn htmx_spec(&self) -> bool {
        self.htmx
    }

    /// Where the request is sent.
    pub closed spec fn location_spec(&self) -> Seq<char> {
        self.location@
    }

    /// The turn-away to `/login`.
    pub fn to_login(htmx: bool) -> (r: AuthRedirect)
        ensures
            r.htmx_spec() == htmx,
            r.location_spec() == "/login"@,
    {
        AuthRedirect { location: "/login", htmx }
    }

    /// `401` with `HX-Redirect` for HTMX requests, else a 303.
    pub fn plan(&self) -> (r: RedirectPlan)
        ensures
            self.htmx_spec() ==> (r matches RedirectPlan::Htmx { status, location } && status == 401 && location@ == self.location_spec()),
            !self.htmx_spec() ==> (r matches RedirectPlan::SeeOther { location } && location@ == self.location_spec()),
    {
        if self.htmx {
            RedirectPlan::Htmx { status: 401, location: to_owned_string(self.location) }
        } else {
            RedirectPlan::SeeOther { location: to_owned_string(self.location) }
        }
    }
}

/// Refusal of a request that needs more than a signed-in user.
pub enum AuthzReject {
    Unauthenticated(AuthRedirect),
    Forbidden,
}

/// Admins only: others are forbidden, the signed-out turned away.
pub fn require_admin(user: Result<AuthUser, AuthRedirect>) -> (r: Result<AuthUser, AuthzReject>)
    ensures
        match user {
            Err(_) => r matches Err(AuthzReject::Unauthenticated(_)),
            Ok(u) => if u.role == UserRole::Admin { r == Ok::<AuthUser, AuthzReject>(u) } else { r matches Err(AuthzReject::Forbidden) },
        },
{
    match user {
        Err(redirect) => Err(AuthzReject::Unauthenticated(redirect)),
        Ok(u) => if u.is_admin() { Ok(u) } else { Err(AuthzReject::Forbidden) },
    }
}

/// Paid users (and admins) only, at instant `now`.
pub fn require_paid_at(user: Result<AuthUser, AuthRedirect>, now: Instant) -> (r: Result<AuthUser, AuthzReject>)
    ensures
        match user {
            Err(_) => r matches Err(AuthzReject::Unauthenticated(_)),
            Ok(u) => if u.role == UserRole::Admin || paid_until_active_spec(u.paid_until, now) {
                r == Ok::<AuthUser, AuthzReject>(u)
            } else {
                r matches Err(AuthzReject::Forbidden)
            },
        },
{
    match user {
        Err(redirect) => Err(AuthzReject::Unauthenticated(redirect)),
        Ok(u) => if u.is_paid_at(now) { Ok(u) } else { Err(AuthzReject::Forbidden) },
    }
}

/// The `SameSite` attribute of the session cookie.
#[derive(Clone, Copy, Debug, PartialEq, Eq, Structural)]
pub enum SameSitePolicy {
    Strict,
    Lax,
    /// `SameSite=None`: sent on cross-site requests too.
    CrossSite,
}

/// `strict`, `lax` or `none` in any case; `none` only with secure cookies;
/// anything else is `Lax`.
pub open spec fn same_site_spec(raw: Seq<char>, secure: bool) -> SameSitePolicy {
    let v = ascii_lower(trim(raw));
    if v == "strict"@ {
        SameSitePolicy::Strict
    } else if v == "none"@ && secure {
        SameSitePolicy::CrossSite
    } else {
        SameSitePolicy::Lax
    }
}

pub fn parse_same_site(raw: &str, secure: bool) -> (r: SameSitePolicy)
    ensures
        r == same_site_spec(raw@, secure),
{
    let l = to_ascii_lower(trim_str(raw));
    let v = l.as_str();
    if str_eq(v, "strict") {
        SameSitePolicy::Strict
    } else if str_eq(v, "none") {
        if secure { SameSitePolicy::CrossSite } else { SameSitePolicy::Lax }
    } else {
        SameSitePolicy::Lax
    }
}

/// Session cookie settings.
pub struct SessionConfig {
    pub secure: bool,
    pub same_site: SameSitePolicy,
    pub http_only: bool,
}

/// Cookie settings from the `SESSION_SECURE` and `SESSION_SAME_SITE` values.
pub fn session_config(secure_raw: Option<&str>, same_site_raw: Option<&str>) -> (r: SessionConfig)
    ensures
        r.secure == match secure_raw { Some(v) => flag_on(v@), None => false },
        r.same_site == same_site_spec(env_string_spec(opt_view(same_site_raw), "Lax"@), r.secure),
        r.http_only,
{
    let secure = env_bool(secure_raw, false);
    let s = env_string(same_site_raw, "Lax");
    SessionConfig { secure, same_site: parse_same_site(s.as_str(), secure), http_only: true }
}

/// The user-row values an edge identity projects to.
pub struct UserProjection {
    pub email: String,
    pub role: String,
    pub paid_until: Option<String>,
}

/// The trimmed, validated email, the role's name, and the paid-until
/// instant as chrono's RFC 3339 text (none when there is no paid-until time,
/// or chrono cannot hold it).
pub fn user_projection(email: &str, role: UserRole, paid_until: Option<Instant>) -> (r: Result<UserProjection, AppError>)
    ensures
        match r {
            Ok(p) => crate::users::email_ok(email@) && p.email@ == trim(email@) && p.role@ == crate::users::role_name(role)
                && osv(p.paid_until) == match paid_until {
                    Some(i) => crate::admin::utc_rfc3339_text(i.secs, i.nanos),
                    None => None,
                },
            Err(e) => !crate::users::email_ok(email@) && crate::error::is_bad_request(e, "Enter a valid email address."@),
        },
{
    let email = crate::users::validate_email(email)?;
    let paid = match paid_until {
        Some(i) => crate::admin::utc_rfc3339(i),
        None => None,
    };
    Ok(UserProjection { email: to_owned_string(email), role: to_owned_string(role.as_str()), paid_until: paid })
}

/// A stored user row needs rewriting when its email, role or paid-until
/// text differs from the projection.
pub fn projection_differs(user: &User, p: &UserProjection) -> (r: bool)
    ensures
        r == (user.email@ != p.email@ || user.role@ != p.role@ || osv(user.paid_until) != osv(p.paid_until)),
{
    let paid_same = match (&user.paid_until, &p.paid_until) {
        (Some(a), Some(b)) => str_eq(a.as_str(), b.as_str()),
        (None, None) => true,
        _ => false,
    };
    !str_eq(user.email.as_str(), p.email.as_str()) || !str_eq(user.role.as_str(), p.role.as_str()) || !paid_same
}

} // verus!
