//! Time arithmetic on Unix timestamps, and the one call that reads the clock.
//!
//! Timestamps travel through the library as whole seconds since the Unix
//! epoch; elapsed time is shown in whole days, truncated toward zero.

use vstd::prelude::*;
use vstd::string::*;
use crate::numfmt::int_to_dec;

verus! {

pub const SECONDS_PER_DAY: i64 = 86400;

/// Whole days from `last` to `now`, truncated toward zero; negative when
/// `last` lies in the future.
pub open spec fn days_between(last: int, now: int) -> int {
    if now >= last {
        (now - last) / (SECONDS_PER_DAY as int)
    } else {
        -((last - now) / (SECONDS_PER_DAY as int))
    }
}

/// Computes the whole days elapsed between two timestamps.
pub fn elapsed_days(last: i64, now: i64) -> (d: i64)
    ensures
        d == days_between(last as int, now as int),
{
    if now >= last {
        let diff: u128 = ((now as i128) - (last as i128)) as u128;
        let days = diff / 86400;
        proof {
            assert(days < 0x8000000000000000);
        }
        days as i64
    } else {
        let diff: u128 = ((last as i128) - (now as i128)) as u128;
        let days = diff / 86400;
        proof {
            assert(days < 0x8000000000000000);
        }
        let d = days as i64;
        -d
    }
}

/// How a last-played moment reads in a message: "most recently" for the same
/// calendar distance as zero days, otherwise the day count.
pub open spec fn relative_time(last: int, now: int) -> Seq<char> {
    if days_between(last, now) == 0 {
        "最近"@
    } else {
        int_to_dec(days_between(last, now)) + "天前"@
    }
}

/// Renders the relative time since a last-played timestamp.
pub fn relative_time_text(last: i64, now: i64) -> (r: String)
    ensures
        r@ == relative_time(last as int, now as int),
{
    let days = elapsed_days(last, now);
    if days == 0 {
        String::from_str("最近")
    } else {
        let mut r = crate::numfmt::i64_to_string(days);
        r.append("天前");
        r
    }
}

/// Relies on `chrono::Utc::now` and `chrono::DateTime::timestamp`: the current
/// moment of the system clock as whole seconds since the Unix epoch.  Nothing
/// is promised of the value; callers pass it on to the pure functions that
/// take a timestamp.
#[verifier::external_body]
pub fn now_timestamp() -> i64 {
    chrono::Utc::now().timestamp()
}

} // verus!
