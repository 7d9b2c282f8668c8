//! Points in time. A timestamp is a count of microseconds since the Unix
//! epoch, in UTC; a later instant is a greater number.

use vstd::prelude::*;

verus! {

/// Microseconds since the Unix epoch.
pub type Timestamp = i64;

/// Microseconds in one second.
pub const MICROS_PER_SECOND: i64 = 1_000_000;

/// How long a session lasts from the moment it is opened: thirty days.
pub const SESSION_LIFETIME_SECS: i64 = 2_592_000;

/// The same in microseconds.
pub const SESSION_LIFETIME: i64 = 2_592_000_000_000;

/// Whole seconds from `now` until `then`, rounded towards zero; negative
/// where `then` lies in the past.
pub open spec fn seconds_until(now: int, then: int) -> int {
    if then >= now {
        (then - now) / (MICROS_PER_SECOND as int)
    } else {
        -((now - then) / (MICROS_PER_SECOND as int))
    }
}

/// Whole seconds from `now` until `then`, rounded towards zero.
pub fn whole_seconds_until(now: Timestamp, then: Timestamp) -> (seconds: i64)
    ensures
        seconds == seconds_until(now as int, then as int),
{
    let span: i128 = then as i128 - now as i128;
    if span >= 0 {
        (span / (MICROS_PER_SECOND as i128)) as i64
    } else {
        let back: i128 = (-span) / (MICROS_PER_SECOND as i128);
        (-back) as i64
    }
}

/// The instant at which a session opened at `now` runs out.
pub open spec fn expiry_spec(now: int) -> int {
    now + SESSION_LIFETIME
}

/// The instant at which a session opened at `now` runs out, or `None` where
/// that instant cannot be represented.
pub fn session_expiry(now: Timestamp) -> (expiry: Option<Timestamp>)
    ensures
        expiry == if expiry_spec(now as int) <= i64::MAX {
            Some(expiry_spec(now as int) as i64)
        } else {
            None
        },
{
    now.checked_add(SESSION_LIFETIME)
}

/// Seen from the instant at which it is opened, a session lasts thirty days
/// to the second.
pub proof fn lemma_session_lasts_thirty_days(now: int)
    ensures
        seconds_until(now, expiry_spec(now)) == SESSION_LIFETIME_SECS,
        SESSION_LIFETIME == SESSION_LIFETIME_SECS * MICROS_PER_SECOND,
        SESSION_LIFETIME_SECS == 30 * 24 * 60 * 60,
{
}

} // verus!
