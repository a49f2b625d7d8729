//! Cron expressions with a leading seconds field: whether one parses, and
//! when it next fires.
use vstd::prelude::*;

use std::str::FromStr;

verus! {

/// The earliest time, in seconds since the Unix epoch, that schedules are
/// evaluated at.
pub const EARLIEST_TIME: i64 = 0;

/// The latest time, in seconds since the Unix epoch (the last second of the
/// year 9999), that schedules are evaluated at.
pub const LATEST_TIME: i64 = 253402300799;

/// The largest distance, in seconds, of a time zone from UTC (exclusive).
pub const MAX_ZONE_OFFSET: i32 = 86400;

/// Whether cron accepts `expr` as a schedule.
pub uninterp spec fn cron_accepts(expr: Seq<char>) -> bool;

/// The first instant of the schedule `expr` strictly after `t`, evaluated in
/// the time zone `offset` seconds east of UTC.
pub uninterp spec fn cron_next_after(expr: Seq<char>, t: i64, offset: i32) -> Option<i64>;

/// Relies on cron's `Schedule::from_str`: whether the expression parses as a
/// schedule, which depends on its text alone.
#[verifier::external_body]
pub(crate) fn is_valid_cron(expr: &str) -> (r: bool)
    ensures
        r == cron_accepts(expr@),
{
    cron::Schedule::from_str(expr).is_ok()
}

/// Relies on cron's `Schedule::after`: the first instant of the schedule
/// strictly after `t` (seconds since the Unix epoch), read in the time zone
/// `offset` seconds east of UTC; none where the expression does not parse or
/// has no later instant. `after` starts its search one second after `t`.
#[verifier::external_body]
pub(crate) fn next_fire_after(expr: &str, t: i64, offset: i32) -> (r: Option<i64>)
    requires
        EARLIEST_TIME <= t <= LATEST_TIME,
        -MAX_ZONE_OFFSET < offset < MAX_ZONE_OFFSET,
    ensures
        r == cron_next_after(expr@, t, offset),
        !cron_accepts(expr@) ==> r is None,
        r matches Some(n) ==> n > t,
{
    let schedule = cron::Schedule::from_str(expr).ok()?;
    let zone = chrono::FixedOffset::east_opt(offset)?;
    let from = chrono::DateTime::from_timestamp(t, 0)?.with_timezone(&zone);
    let next = schedule.after(&from).next()?;
    Some(next.timestamp())
}

} // verus!
