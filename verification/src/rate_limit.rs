//! Attempt limits for login, registration and password resets.

use vstd::prelude::*;
use time::OffsetDateTime;
use time::format_description::well_known::Rfc3339;
use crate::text::{trim, trim_str, ascii_lower, to_owned_string, push_str, find_char_from, index_of};
use crate::error::{AppError, is_too_many};
use crate::users::{Instant, instant_lt, normalize_email};
use crate::next::opt_view;

verus! {

/// Attempts allowed per key within one window.
pub const MAX_ATTEMPTS: i64 = 10;
/// Window length in seconds.
pub const WINDOW_SECS: i64 = 900;

pub const KEY_LOGIN_IP: &'static str = "mortgagetrack:rl:login:ip:";
pub const KEY_LOGIN_EMAIL: &'static str = "mortgagetrack:rl:login:email:";
pub const KEY_REGISTER_IP: &'static str = "mortgagetrack:rl:register:ip:";
pub const KEY_REGISTER_EMAIL: &'static str = "mortgagetrack:rl:register:email:";
pub const KEY_RESET_IP: &'static str = "mortgagetrack:rl:reset:ip:";
pub const KEY_RESET_EMAIL: &'static str = "mortgagetrack:rl:reset:email:";

/// Which limited action a key belongs to.
#[derive(Clone, Copy, Debug, PartialEq, Eq, Structural)]
pub enum LimitedAction {
    Login,
    Register,
    Reset,
}

pub open spec fn ip_prefix(a: LimitedAction) -> Seq<char> {
    match a {
        LimitedAction::Login => "mortgagetrack:rl:login:ip:"@,
        LimitedAction::Register => "mortgagetrack:rl:register:ip:"@,
        LimitedAction::Reset => "mortgagetrack:rl:reset:ip:"@,
    }
}

pub open spec fn email_prefix(a: LimitedAction) -> Seq<char> {
    match a {
        LimitedAction::Login => "mortgagetrack:rl:login:email:"@,
        LimitedAction::Register => "mortgagetrack:rl:register:email:"@,
        LimitedAction::Reset => "mortgagetrack:rl:reset:email:"@,
    }
}

/// Limit key for the client address.
pub fn ip_key(action: LimitedAction, ip: &str) -> (r: String)
    ensures
        r@ == ip_prefix(action) + ip@,
{
    let mut out = String::from_str(match action {
        LimitedAction::Login => KEY_LOGIN_IP,
        LimitedAction::Register => KEY_REGISTER_IP,
        LimitedAction::Reset => KEY_RESET_IP,
    });
    push_str(&mut out, ip);
    out
}

/// Limit key for the (normalized) email address.
pub fn email_key(action: LimitedAction, email: &str) -> (r: String)
    ensures
        r@ == email_prefix(action) + ascii_lower(trim(email@)),
{
    let mut out = String::from_str(match action {
        LimitedAction::Login => KEY_LOGIN_EMAIL,
        LimitedAction::Register => KEY_REGISTER_EMAIL,
        LimitedAction::Reset => KEY_RESET_EMAIL,
    });
    let e = normalize_email(email);
    push_str(&mut out, e.as_str());
    out
}

/// The first comma-separated entry of a forwarded-for list, trimmed.
pub open spec fn first_forwarded(v: Seq<char>) -> Seq<char> {
    trim(v.subrange(0, index_of(v, ',')))
}

/// Client address used for limit keys: the first forwarded-for entry, else
/// the real-ip header, else the peer address, else `unknown`.
pub open spec fn client_ip_spec(forwarded: Option<Seq<char>>, real_ip: Option<Seq<char>>, peer: Option<Seq<char>>) -> Seq<char> {
    if forwarded matches Some(f) && first_forwarded(f).len() > 0 {
        first_forwarded(forwarded->0)
    } else if real_ip matches Some(r) && trim(r).len() > 0 {
        trim(real_ip->0)
    } else {
        match peer {
            Some(p) => p,
            None => "unknown"@,
        }
    }
}

/// Best-effort client IP from the `X-Forwarded-For` and `X-Real-IP` header
/// values and the peer address text.
pub fn client_ip(forwarded: Option<&str>, real_ip: Option<&str>, peer: Option<&str>) -> (r: String)
    ensures
        r@ == client_ip_spec(opt_view(forwarded), opt_view(real_ip), opt_view(peer)),
{
    if let Some(fwd) = forwarded {
        let k = find_char_from(fwd, ',', 0);
        assert(fwd@.subrange(0, fwd@.len() as int) =~= fwd@);
        let first = fwd.substring_char(0, k);
        let trimmed = trim_str(first);
        if trimmed.unicode_len() > 0 {
            return to_owned_string(trimmed);
        }
    }
    if let Some(value) = real_ip {
        let trimmed = trim_str(value);
        if trimmed.unicode_len() > 0 {
            return to_owned_string(trimmed);
        }
    }
    match peer {
        Some(p) => to_owned_string(p),
        None => String::from_str("unknown"),
    }
}

/// A stored limit row.
pub struct RateRow {
    pub count: i64,
    pub expires_at: String,
}

/// The instant an RFC 3339 text denotes, as the `time` crate parses it.
pub uninterp spec fn time_rfc3339_instant(s: Seq<char>) -> Option<(i64, u32)>;

/// The RFC 3339 text the `time` crate writes for an instant, when it can.
pub uninterp spec fn time_rfc3339_text(secs: i64, nanos: u32) -> Option<Seq<char>>;

/// `OffsetDateTime::parse(s, &Rfc3339)`, as UTC seconds and nanoseconds.
#[verifier::external_body]
pub(crate) fn parse_time_rfc3339(s: &str) -> (r: Result<Instant, String>)
    ensures
        match r {
            Ok(i) => time_rfc3339_instant(s@) == Some((i.secs, i.nanos)),
            Err(_) => time_rfc3339_instant(s@) is None,
        },
{
    match OffsetDateTime::parse(s, &Rfc3339) {
        Ok(dt) => Ok(Instant { secs: dt.unix_timestamp(), nanos: dt.nanosecond() }),
        Err(err) => Err(err.to_string()),
    }
}

/// `OffsetDateTime::format(&Rfc3339)` of the instant (in UTC).
#[verifier::external_body]
fn format_time_rfc3339(at: Instant) -> (r: Result<String, String>)
    ensures
        match r {
            Ok(s) => time_rfc3339_text(at.secs, at.nanos) == Some(s@),
            Err(_) => time_rfc3339_text(at.secs, at.nanos) is None,
        },
{
    let dt = match OffsetDateTime::from_unix_timestamp(at.secs) {
        Ok(dt) => dt,
        Err(err) => return Err(err.to_string()),
    };
    let dt = match dt.replace_nanosecond(at.nanos) {
        Ok(dt) => dt,
        Err(err) => return Err(err.to_string()),
    };
    match dt.format(&Rfc3339) {
        Ok(s) => Ok(s),
        Err(err) => Err(err.to_string()),
    }
}

/// Largest Unix second the `time` crate can represent (end of year 9999).
pub open spec fn time_max_secs() -> int {
    253402300799
}

/// The database write an attempt needs.
pub enum RateAction {
    /// First attempt for the key: a new row with count 1.
    Insert { expires_at: String },
    /// The old window has passed: count back to 1 with a new expiry.
    Reset { expires_at: String },
    /// Same window: store the incremented count.
    Increment { next: i64 },
}

/// Count recorded by an attempt: 1 for a new or expired window, one more otherwise.
pub open spec fn bump_count(existing: Option<i64>, expired: bool) -> i64 {
    match existing {
        None => 1,
        Some(c) => if expired { 1 } else { (c + 1) as i64 },
    }
}

/// Whether a stored row's window has passed at `now`.
pub open spec fn row_expired(row: RateRow, now: Instant) -> bool {
    match time_rfc3339_instant(row.expires_at@) {
        Some((s, n)) => !instant_lt(now, Instant { secs: s, nanos: n }),
        None => false,
    }
}

/// Decide the write and the new count for one attempt on a key.
pub fn plan_bump(existing: Option<&RateRow>, now: Instant) -> (r: Result<(RateAction, i64), AppError>)
    requires
        now.secs + WINDOW_SECS <= time_max_secs(),
        existing matches Some(row) ==> row.count < i64::MAX,
    ensures
        ({
            let later = time_rfc3339_text((now.secs + WINDOW_SECS) as i64, now.nanos);
            match existing {
                None => match later {
                    Some(t) => r matches Ok((RateAction::Insert { expires_at }, count)) && expires_at@ == t && count == 1,
                    None => r matches Err(AppError::Internal(_)),
                },
                Some(row) => match time_rfc3339_instant(row.expires_at@) {
                    None => r matches Err(AppError::Internal(m)) && m@.len() >= 32
                        && m@.subrange(0, 32) == "rate-limit expiry parse failed: "@,
                    Some((s, n)) => if !instant_lt(now, Instant { secs: s, nanos: n }) {
                        match later {
                            Some(t) => r matches Ok((RateAction::Reset { expires_at }, count)) && expires_at@ == t
                                && count == 1,
                            None => r matches Err(AppError::Internal(_)),
                        }
                    } else {
                        r matches Ok((RateAction::Increment { next }, count)) && next == row.count + 1
                            && count == next
                    },
                },
            }
        }),
        match r {
            Ok((_, count)) => count == bump_count(match existing { Some(row) => Some(row.count), None => None },
                existing matches Some(row) && row_expired(*row, now)),
            Err(_) => true,
        },
{
    let later = Instant { secs: now.secs + WINDOW_SECS, nanos: now.nanos };
    match existing {
        Some(row) => {
            let expires = match parse_time_rfc3339(row.expires_at.as_str()) {
                Ok(e) => e,
                Err(msg) => {
                    proof {
                        reveal_strlit("rate-limit expiry parse failed: ");
                    }
                    let mut text = String::from_str("rate-limit expiry parse failed: ");
                    push_str(&mut text, msg.as_str());
                    return Err(AppError::Internal(text));
                },
            };
            if !now.lt(&expires) {
                match format_time_rfc3339(later) {
                    Ok(expires_at) => Ok((RateAction::Reset { expires_at }, 1)),
                    Err(msg) => Err(AppError::Internal(msg)),
                }
            } else {
                let next = row.count + 1;
                Ok((RateAction::Increment { next }, next))
            }
        },
        None => match format_time_rfc3339(later) {
            Ok(expires_at) => Ok((RateAction::Insert { expires_at }, 1)),
            Err(msg) => Err(AppError::Internal(msg)),
        },
    }
}

/// Refuse once a key's count passes the limit.
pub fn check_attempts(count: i64) -> (r: Result<(), AppError>)
    ensures
        match r {
            Ok(_) => count <= MAX_ATTEMPTS,
            Err(e) => count > MAX_ATTEMPTS && is_too_many(e, "Too many attempts. Try again in a few minutes."@),
        },
{
    if count > MAX_ATTEMPTS {
        return Err(AppError::TooManyRequests(String::from_str("Too many attempts. Try again in a few minutes.")));
    }
    Ok(())
}

/// The count a key reaches after `k` attempts that all fall in one window.
pub open spec fn count_in_window(k: nat) -> i64
    decreases k,
{
    if k <= 1 {
        bump_count(None, false)
    } else {
        bump_count(Some(count_in_window((k - 1) as nat)), false)
    }
}

/// Within one window the `k`-th attempt counts `k`, so it is refused exactly
/// when `k` exceeds the limit; once a window has passed the count starts
/// over at one.
pub proof fn law_attempts_in_window(k: nat, c: i64)
    requires
        1 <= k <= i64::MAX,
    ensures
        count_in_window(k) == k,
        (count_in_window(k) > MAX_ATTEMPTS) <==> (k > MAX_ATTEMPTS),
        bump_count(Some(c), true) == 1,
    decreases k,
{
    if k > 1 {
        law_attempts_in_window((k - 1) as nat, c);
    }
}

} // verus!
