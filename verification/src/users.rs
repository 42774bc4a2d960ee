//! User accounts: roles, credential rules and paid access.

use vstd::prelude::*;
use chrono::{DateTime, Datelike, NaiveDate, Utc};
use crate::text::{trim, trim_str, ascii_lower, to_ascii_lower, str_eq, contains_char, to_owned_string};
use crate::error::{AppError, bad_request, is_bad_request};
use crate::dates::{Date, valid_date, parse_ymd};

verus! {

/// Account role.
#[derive(Clone, Copy, Debug, PartialEq, Eq, Structural)]
pub enum UserRole {
    User,
    Admin,
}

/// The role named by a stored or header value.
pub open spec fn role_from(raw: Seq<char>) -> UserRole {
    if ascii_lower(trim(raw)) == "admin"@ {
        UserRole::Admin
    } else {
        UserRole::User
    }
}

pub open spec fn role_name(r: UserRole) -> Seq<char> {
    match r {
        UserRole::User => "user"@,
        UserRole::Admin => "admin"@,
    }
}

impl UserRole {
    pub fn as_str(self) -> (r: &'static str)
        ensures
            r@ == role_name(self),
    {
        match self {
            UserRole::User => "user",
            UserRole::Admin => "admin",
        }
    }

    /// Case-insensitive, whitespace-tolerant parse; anything but `admin` is a plain user.
    pub fn parse(raw: &str) -> (r: UserRole)
        ensures
            r == role_from(raw@),
    {
        let lower = to_ascii_lower(trim_str(raw));
        if str_eq(lower.as_str(), "admin") {
            UserRole::Admin
        } else {
            UserRole::User
        }
    }
}

/// A stored user row.
#[derive(Debug, Clone)]
pub struct User {
    pub id: String,
    pub email: String,
    pub created_at: String,
    pub avatar: Option<String>,
    pub default_tab: String,
    pub payments_year_expand: String,
    pub role: String,
    pub paid_until: Option<String>,
}

impl User {
    /// The user's id as UUID bytes; an id that is not a UUID is an internal error.
    pub fn uuid(&self) -> (r: Result<[u8; 16], AppError>)
        ensures
            match crate::identity::uuid_bytes(self.id@) {
                Some(b) => r matches Ok(u) && u@ == b,
                None => r matches Err(AppError::Internal(m)) && m@ == "invalid user id in database"@,
            },
    {
        match crate::identity::parse_uuid(self.id.as_str()) {
            Some(u) => Ok(u),
            None => Err(AppError::Internal(String::from_str("invalid user id in database"))),
        }
    }

    pub fn role_enum(&self) -> (r: UserRole)
        ensures
            r == role_from(self.role@),
    {
        UserRole::parse(self.role.as_str())
    }
}

/// An email the forms accept: non-empty after trimming, holds `@`, at most 255 bytes.
pub open spec fn email_ok(email: Seq<char>) -> bool {
    let t = trim(email);
    t.len() > 0 && t.contains('@') && vstd::utf8::encode_utf8(t).len() <= 255
}

/// Trimmed email when it is acceptable.
pub fn validate_email(email: &str) -> (r: Result<&str, AppError>)
    ensures
        match r {
            Ok(s) => email_ok(email@) && s@ == trim(email@),
            Err(e) => !email_ok(email@) && is_bad_request(e, "Enter a valid email address."@),
        },
{
    let email = trim_str(email);
    if email.unicode_len() == 0 || !contains_char(email, '@') || email.as_bytes().len() > 255 {
        return Err(bad_request("Enter a valid email address."));
    }
    Ok(email)
}

/// Byte length of a password.
pub open spec fn byte_len(s: Seq<char>) -> int {
    vstd::utf8::encode_utf8(s).len() as int
}

/// Password rules: non-empty, 8 to 128 bytes; the first rule broken names the error.
pub fn validate_password(password: &str) -> (r: Result<(), AppError>)
    ensures
        match r {
            Ok(_) => password@.len() > 0 && 8 <= byte_len(password@) <= 128,
            Err(e) => if password@.len() == 0 {
                is_bad_request(e, "Enter a password."@)
            } else if byte_len(password@) < 8 {
                is_bad_request(e, "Password must be at least 8 characters."@)
            } else {
                byte_len(password@) > 128 && is_bad_request(e, "Password is too long."@)
            },
        },
{
    if password.unicode_len() == 0 {
        return Err(bad_request("Enter a password."));
    }
    if password.as_bytes().len() < 8 {
        return Err(bad_request("Password must be at least 8 characters."));
    }
    if password.as_bytes().len() > 128 {
        return Err(bad_request("Password is too long."));
    }
    Ok(())
}

/// Email as the rate limiter keys it.
pub fn normalize_email(email: &str) -> (r: String)
    ensures
        r@ == ascii_lower(trim(email@)),
{
    to_ascii_lower(trim_str(email))
}

/// A point in time: seconds since the Unix epoch and a sub-second part.
#[derive(Clone, Copy, Debug, PartialEq, Eq, Structural)]
pub struct Instant {
    pub secs: i64,
    pub nanos: u32,
}

pub open spec fn instant_lt(a: Instant, b: Instant) -> bool {
    a.secs < b.secs || (a.secs == b.secs && a.nanos < b.nanos)
}

impl Instant {
    pub fn lt(&self, other: &Instant) -> (r: bool)
        ensures
            r == instant_lt(*self, *other),
    {
        self.secs < other.secs || (self.secs == other.secs && self.nanos < other.nanos)
    }
}

/// The instant an RFC 3339 timestamp denotes, as chrono parses it.
pub uninterp spec fn rfc3339_instant(s: Seq<char>) -> Option<(i64, u32)>;

/// `DateTime::parse_from_rfc3339`, converted to UTC seconds and nanoseconds.
#[verifier::external_body]
fn parse_rfc3339(s: &str) -> (r: Option<Instant>)
    ensures
        match r {
            Some(i) => rfc3339_instant(s@) == Some((i.secs, i.nanos)),
            None => rfc3339_instant(s@) is None,
        },
{
    match DateTime::parse_from_rfc3339(s) {
        Ok(dt) => Some(Instant { secs: dt.timestamp(), nanos: dt.timestamp_subsec_nanos() }),
        Err(_) => None,
    }
}

/// Days from 1970-01-01 to a (valid) civil date.
pub open spec fn days_from_civil(y: int, m: int, d: int) -> int {
    let yy = if m <= 2 { y - 1 } else { y };
    let era = yy / 400;
    let yoe = yy - era * 400;
    let mp = (m + 9) % 12;
    let doy = (153 * mp + 2) / 5 + d - 1;
    let doe = yoe * 365 + yoe / 4 - yoe / 100 + doy;
    era * 146097 + doe - 719468
}

fn days_from_civil_exec(d: Date) -> (r: i64)
    requires
        valid_date(d),
    ensures
        r == days_from_civil(d.year as int, d.month as int, d.day as int),
{
    let y: i64 = if d.month <= 2 { d.year as i64 - 1 } else { d.year as i64 };
    // Shift by whole 400-year eras so the division works on a non-negative number.
    let shifted: i64 = y + 262400;
    let era: i64 = shifted / 400 - 656;
    assert(era == y / 400);
    let yoe: i64 = y - era * 400;
    let mp: i64 = (d.month as i64 + 9) % 12;
    let doy: i64 = (153 * mp + 2) / 5 + d.day as i64 - 1;
    let doe: i64 = yoe * 365 + yoe / 4 - yoe / 100 + doy;
    era * 146097 + doe - 719468
}

/// Paid-until timestamps: RFC 3339, or a bare `YYYY-MM-DD` meaning the last second of that UTC day.
pub open spec fn paid_until_spec(raw: Option<Seq<char>>) -> Option<Instant> {
    match raw {
        None => None,
        Some(r) => {
            let t = trim(r);
            if t.len() == 0 {
                None
            } else {
                match rfc3339_instant(t) {
                    Some((s, n)) => Some(Instant { secs: s, nanos: n }),
                    None => match crate::dates::chrono_ymd(t) {
                        Some((y, m, d)) => Some(Instant {
                            secs: (days_from_civil(y as int, m as int, d as int) * 86400 + 86399) as i64,
                            nanos: 0,
                        }),
                        None => None,
                    },
                }
            }
        },
    }
}

/// Parse an ISO-8601 / RFC3339 paid-until timestamp. Empty/invalid → None.
pub fn parse_paid_until(raw: Option<&str>) -> (r: Option<Instant>)
    ensures
        r == paid_until_spec(crate::next::opt_view(raw)),
{
    let raw = match raw {
        Some(r) => trim_str(r),
        None => return None,
    };
    if raw.unicode_len() == 0 {
        return None;
    }
    if let Some(i) = parse_rfc3339(raw) {
        return Some(i);
    }
    match parse_ymd(raw) {
        Ok(date) => {
            let days = days_from_civil_exec(date);
            Some(Instant { secs: days * 86400 + 86399, nanos: 0 })
        },
        Err(_) => None,
    }
}

pub open spec fn paid_until_active_spec(paid_until: Option<Instant>, now: Instant) -> bool {
    match paid_until {
        Some(until) => instant_lt(now, until),
        None => false,
    }
}

/// Paid access lasts while `now` is before the paid-until instant.
pub fn paid_until_active(paid_until: Option<Instant>, now: Instant) -> (r: bool)
    ensures
        r == paid_until_active_spec(paid_until, now),
{
    match paid_until {
        Some(until) => now.lt(&until),
        None => false,
    }
}

impl User {
    pub fn paid_until_dt(&self) -> (r: Option<Instant>)
        ensures
            r == paid_until_spec(match self.paid_until { Some(s) => Some(s@), None => None }),
    {
        match &self.paid_until {
            Some(s) => parse_paid_until(Some(s.as_str())),
            None => parse_paid_until(None),
        }
    }
}

/// The current time (`Utc::now`).
#[verifier::external_body]
fn now_utc() -> (r: Instant) {
    let now = Utc::now();
    Instant { secs: now.timestamp(), nanos: now.timestamp_subsec_nanos() }
}

/// The signed-in user as the request handlers see it.
#[derive(Debug, Clone)]
pub struct AuthUser {
    pub id: [u8; 16],
    pub email: String,
    pub avatar: Option<String>,
    pub default_tab: String,
    pub payments_year_expand: String,
    pub role: UserRole,
    pub paid_until: Option<Instant>,
}

impl AuthUser {
    pub fn is_admin(&self) -> (r: bool)
        ensures
            r == (self.role == UserRole::Admin),
    {
        self.role == UserRole::Admin
    }

    /// Paid access at a given instant: admins always, others until their paid-until time.
    pub fn is_paid_at(&self, now: Instant) -> (r: bool)
        ensures
            r == (self.role == UserRole::Admin || paid_until_active_spec(self.paid_until, now)),
    {
        self.is_admin() || paid_until_active(self.paid_until, now)
    }

    /// Paid access now.
    pub fn is_paid(&self) -> (r: bool)
        ensures
            self.role == UserRole::Admin ==> r,
            (self.role != UserRole::Admin && self.paid_until is None) ==> !r,
    {
        let now = now_utc();
        self.is_paid_at(now)
    }
}

/// Every role reads back from its own name.
pub proof fn law_role_name_round_trip(r: UserRole)
    ensures
        role_from(role_name(r)) == r,
{
    reveal_strlit("admin");
    reveal_strlit("user");
    let a = "admin"@;
    let u = "user"@;
    assert(crate::text::ltrim(a) == a);
    assert(crate::text::rtrim(a) == a);
    assert(crate::text::ltrim(u) == u);
    assert(crate::text::rtrim(u) == u);
    assert(ascii_lower(a) =~= a);
    assert(ascii_lower(u) =~= u);
}

/// Admins always have paid access; anyone else has it exactly while the
/// current instant is before their paid-until instant.
pub proof fn law_paid_access(u: AuthUser, now: Instant)
    ensures
        (u.role == UserRole::Admin || paid_until_active_spec(u.paid_until, now))
            == (u.role == UserRole::Admin || (u.paid_until matches Some(t) && instant_lt(now, t))),
{
}

} // verus!
