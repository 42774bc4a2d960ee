//! Stored sessions: when a stored session may still be used.

use vstd::prelude::*;
use crate::rate_limit::{parse_time_rfc3339, time_rfc3339_instant};
use crate::users::{instant_lt, Instant};

verus! {

/// A stored session is live while `now` lies before its expiry date; an
/// expiry that does not parse as RFC 3339 is an error.
pub fn session_live(expiry_date: &str, now: Instant) -> (r: Result<bool, String>)
    ensures
        match r {
            Ok(live) => time_rfc3339_instant(expiry_date@) matches Some((s, n))
                && live == instant_lt(now, Instant { secs: s, nanos: n }),
            Err(_) => time_rfc3339_instant(expiry_date@) is None,
        },
{
    match parse_time_rfc3339(expiry_date) {
        Ok(expiry) => Ok(now.lt(&expiry)),
        Err(msg) => Err(msg),
    }
}

/// Once a stored session has expired it stays expired: not live at `earlier`
/// means not live at any `later` instant.
pub proof fn law_session_expiry_is_final(expiry_date: Seq<char>, earlier: Instant, later: Instant)
    requires
        time_rfc3339_instant(expiry_date) is Some,
        !instant_lt(later, earlier),
    ensures
        ({
            let (s, n) = time_rfc3339_instant(expiry_date).unwrap();
            !instant_lt(earlier, Instant { secs: s, nanos: n }) ==> !instant_lt(later, Instant { secs: s, nanos: n })
        }),
{
}

} // verus!
