//! The admin user list and paid-access changes.

use vstd::prelude::*;
use chrono::DateTime;
use crate::text::{trim, trim_str, str_eq, to_owned_string};
use crate::next::opt_view;
use crate::users::{Instant, UserRole, role_from, parse_paid_until, paid_until_spec, paid_until_active, paid_until_active_spec};
use crate::error::{AppError, bad_request, is_bad_request};
use crate::templates::AdminUserView;

verus! {

/// A user as the admin list reads it.
pub struct AdminUserListRow {
    pub id: String,
    pub email: String,
    pub role: String,
    pub paid_until: Option<String>,
}

/// The text chrono writes for a UTC instant with the format `%Y-%m-%d %H:%M UTC`
/// (`None` when chrono cannot hold the instant).
pub uninterp spec fn utc_minute_text(secs: i64, nanos: u32) -> Option<Seq<char>>;

/// The RFC 3339 text chrono writes for a UTC instant (`None` when chrono cannot hold it).
pub uninterp spec fn utc_rfc3339_text(secs: i64, nanos: u32) -> Option<Seq<char>>;

/// `DateTime::from_timestamp` then `format("%Y-%m-%d %H:%M UTC")`.
#[verifier::external_body]
fn utc_minute_label(t: Instant) -> (r: Option<String>)
    ensures
        match r {
            Some(s) => utc_minute_text(t.secs, t.nanos) == Some(s@),
            None => utc_minute_text(t.secs, t.nanos) is None,
        },
{
    match DateTime::from_timestamp(t.secs, t.nanos) {
        Some(dt) => Some(dt.format("%Y-%m-%d %H:%M UTC").to_string()),
        None => None,
    }
}

/// `DateTime::from_timestamp` then `to_rfc3339`.
#[verifier::external_body]
pub(crate) fn utc_rfc3339(t: Instant) -> (r: Option<String>)
    ensures
        match r {
            Some(s) => utc_rfc3339_text(t.secs, t.nanos) == Some(s@),
            None => utc_rfc3339_text(t.secs, t.nanos) is None,
        },
{
    match DateTime::from_timestamp(t.secs, t.nanos) {
        Some(dt) => Some(dt.to_rfc3339()),
        None => None,
    }
}

pub open spec fn text_or_empty(o: Option<Seq<char>>) -> Seq<char> {
    match o {
        Some(s) => s,
        None => Seq::empty(),
    }
}

/// A row of the admin list as seen by the admin whose key is `viewer_key`
/// at instant `now`.
pub fn admin_user_view(row: &AdminUserListRow, viewer_key: &str, now: Instant) -> (r: AdminUserView)
    ensures
        r.id@ == row.id@,
        r.email@ == row.email@,
        r.is_admin == (role_from(row.role@) == UserRole::Admin),
        ({
            let pu = paid_until_spec(match row.paid_until { Some(s) => Some(s@), None => None });
            &&& r.has_paid_entitlement == paid_until_active_spec(pu, now)
            &&& r.paid_until_label@ == match pu { Some(i) => text_or_empty(utc_minute_text(i.secs, i.nanos)), None => Seq::empty() }
            &&& r.paid_until_iso@ == match pu { Some(i) => text_or_empty(utc_rfc3339_text(i.secs, i.nanos)), None => Seq::empty() }
        }),
        r.is_self == (row.id@ == viewer_key@),
{
    let role = UserRole::parse(row.role.as_str());
    let pu = match &row.paid_until {
        Some(s) => parse_paid_until(Some(s.as_str())),
        None => parse_paid_until(None),
    };
    let (label, iso) = match pu {
        Some(i) => {
            let label = match utc_minute_label(i) {
                Some(s) => s,
                None => String::new(),
            };
            let iso = match utc_rfc3339(i) {
                Some(s) => s,
                None => String::new(),
            };
            (label, iso)
        },
        None => (String::new(), String::new()),
    };
    AdminUserView {
        id: row.id.clone(),
        email: row.email.clone(),
        is_admin: role == UserRole::Admin,
        has_paid_entitlement: paid_until_active(pu, now),
        paid_until_label: label,
        paid_until_iso: iso,
        is_self: str_eq(row.id.as_str(), viewer_key),
    }
}

/// Switch values that grant paid access.
pub open spec fn grants_paid(v: Seq<char>) -> bool {
    v == "1"@ || v == "true"@ || v == "on"@ || v == "yes"@
}

/// An admin's paid-access change: the trimmed user id (which must not be
/// empty) and whether paid access is granted.
pub fn access_change(user_id: &str, paid: &str) -> (r: Result<(String, bool), AppError>)
    ensures
        match r {
            Ok((id, grant)) => trim(user_id@).len() > 0 && id@ == trim(user_id@) && grant == grants_paid(trim(paid@)),
            Err(e) => trim(user_id@).len() == 0 && is_bad_request(e, "user_id is required"@),
        },
{
    let id = trim_str(user_id);
    if id.unicode_len() == 0 {
        return Err(bad_request("user_id is required"));
    }
    let p = trim_str(paid);
    let grant = str_eq(p, "1") || str_eq(p, "true") || str_eq(p, "on") || str_eq(p, "yes");
    Ok((to_owned_string(id), grant))
}

} // verus!
