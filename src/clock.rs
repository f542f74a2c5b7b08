//! Calendar arithmetic on instants held as whole seconds since the Unix epoch,
//! read under a fixed UTC offset.
use vstd::arithmetic::div_mod::lemma_fundamental_div_mod_converse;
use vstd::prelude::*;

verus! {

/// Seconds in one calendar day (a fixed offset has no daylight saving).
pub const SECS_PER_DAY: i64 = 86400;

/// Earliest instant that a date of the calendar range can hold (year -9999).
pub const MIN_UNIX: i64 = -377705116800;

/// Latest instant that a date of the calendar range can hold (year 9999).
pub const MAX_UNIX: i64 = 253402300799;

/// Largest magnitude of a UTC offset, in seconds (25:59:59).
pub const MAX_OFFSET: i32 = 93599;

/// A whole number of days, larger than any offset plus the earliest instant
/// below zero, so that shifting by it makes every local time non-negative.
const DAY_SHIFT: i64 = 432000000000;

pub open spec fn valid_instant(t: int) -> bool {
    MIN_UNIX <= t <= MAX_UNIX
}

pub open spec fn valid_offset(offset: int) -> bool {
    -MAX_OFFSET <= offset <= MAX_OFFSET
}

pub open spec fn valid_hour_minute(hour: int, minute: int) -> bool {
    0 <= hour < 24 && 0 <= minute < 60
}

/// The local calendar day, counted from the epoch, that holds instant `t`.
pub open spec fn local_day(t: int, offset: int) -> int {
    (t + offset) / 86400
}

/// The second within its local day at which instant `t` falls.
pub open spec fn local_second_of_day(t: int, offset: int) -> int {
    (t + offset) % 86400
}

/// The second of the day at which the wall clock reads `hour:minute:00`.
pub open spec fn second_of_hour_minute(hour: int, minute: int) -> int {
    hour * 3600 + minute * 60
}

/// The second within its local day at which instant `t` falls.
pub fn second_of_day(t: i64, offset: i32) -> (r: i64)
    requires
        valid_instant(t as int),
        valid_offset(offset as int),
    ensures
        r == local_second_of_day(t as int, offset as int),
        0 <= r < 86400,
{
    let shifted = (t + offset as i64 + DAY_SHIFT) as u64;
    let r = (shifted % 86400) as i64;
    proof {
        let x = t + offset;
        let q = x / 86400;
        vstd::arithmetic::div_mod::lemma_fundamental_div_mod(x, 86400);
        lemma_fundamental_div_mod_converse(shifted as int, 86400, q + 5000000, x % 86400);
    }
    r
}

/// The local wall-clock hour and minute of instant `t`.
pub fn local_hour_minute(t: i64, offset: i32) -> (r: (u8, u8))
    requires
        valid_instant(t as int),
        valid_offset(offset as int),
    ensures
        valid_hour_minute(r.0 as int, r.1 as int),
        r.0 == local_second_of_day(t as int, offset as int) / 3600,
        r.1 == local_second_of_day(t as int, offset as int) % 3600 / 60,
{
    let s = second_of_day(t, offset);
    ((s / 3600) as u8, (s % 3600 / 60) as u8)
}

/// The first instant strictly after `now` at which the local wall clock reads
/// `hour:minute:00`.
pub open spec fn next_daily(now: int, offset: int, hour: int, minute: int) -> int {
    let candidate = now - local_second_of_day(now, offset) + second_of_hour_minute(hour, minute);
    if candidate > now {
        candidate
    } else {
        candidate + 86400
    }
}

/// The next daily occurrence lies at most one day ahead, at the wanted time of
/// day.
pub proof fn lemma_next_daily(now: int, offset: int, hour: int, minute: int)
    requires
        valid_hour_minute(hour, minute),
    ensures
        now < next_daily(now, offset, hour, minute) <= now + 86400,
        local_second_of_day(next_daily(now, offset, hour, minute), offset)
            == second_of_hour_minute(hour, minute),
{
    let x = now + offset;
    vstd::arithmetic::div_mod::lemma_fundamental_div_mod(x, 86400);
    let q = x / 86400;
    let target = second_of_hour_minute(hour, minute);
    let r = next_daily(now, offset, hour, minute);
    if now - local_second_of_day(now, offset) + target > now {
        lemma_fundamental_div_mod_converse(r + offset, 86400, q, target);
    } else {
        lemma_fundamental_div_mod_converse(r + offset, 86400, q + 1, target);
    }
}

/// The first instant strictly after `now` at which the local wall clock reads
/// `hour:minute:00`. It lies at most one day ahead.
pub fn next_daily_fire(now: i64, offset: i32, hour: u8, minute: u8) -> (r: i64)
    requires
        valid_instant(now as int),
        valid_offset(offset as int),
        valid_hour_minute(hour as int, minute as int),
    ensures
        r == next_daily(now as int, offset as int, hour as int, minute as int),
        now < r <= now + 86400,
        local_second_of_day(r as int, offset as int) == second_of_hour_minute(
            hour as int,
            minute as int,
        ),
{
    proof {
        lemma_next_daily(now as int, offset as int, hour as int, minute as int);
    }
    let sod = second_of_day(now, offset);
    let target = hour as i64 * 3600 + minute as i64 * 60;
    let candidate = now - sod + target;
    if candidate > now {
        candidate
    } else {
        candidate + SECS_PER_DAY
    }
}

/// The first instant strictly after `now` at which the local wall clock reads
/// `hour:minute`, with the seconds that the clock shows at `now`.
pub open spec fn next_at(now: int, offset: int, hour: int, minute: int) -> int {
    let sod = local_second_of_day(now, offset);
    let candidate = now - sod + second_of_hour_minute(hour, minute) + sod % 60;
    if now >= candidate {
        candidate + 86400
    } else {
        candidate
    }
}

/// The instant that `next_at` gives lies at most one day ahead, at the wanted
/// hour and minute.
pub proof fn lemma_next_at(now: int, offset: int, hour: int, minute: int)
    requires
        valid_hour_minute(hour, minute),
    ensures
        now < next_at(now, offset, hour, minute) <= now + 86400,
        local_second_of_day(next_at(now, offset, hour, minute), offset) == second_of_hour_minute(
            hour,
            minute,
        ) + local_second_of_day(now, offset) % 60,
{
    let x = now + offset;
    vstd::arithmetic::div_mod::lemma_fundamental_div_mod(x, 86400);
    let q = x / 86400;
    let sod = local_second_of_day(now, offset);
    let target = second_of_hour_minute(hour, minute) + sod % 60;
    let r = next_at(now, offset, hour, minute);
    if now >= now - sod + target {
        lemma_fundamental_div_mod_converse(r + offset, 86400, q + 1, target);
    } else {
        lemma_fundamental_div_mod_converse(r + offset, 86400, q, target);
    }
}

/// The first instant strictly after `now` at which the local wall clock reads
/// `hour:minute`, with the seconds that the clock shows at `now`; at most one
/// day ahead.
pub fn next_at_fire(now: i64, offset: i32, hour: u8, minute: u8) -> (r: i64)
    requires
        valid_instant(now as int),
        valid_offset(offset as int),
        valid_hour_minute(hour as int, minute as int),
    ensures
        r == next_at(now as int, offset as int, hour as int, minute as int),
        now < r <= now + 86400,
        local_second_of_day(r as int, offset as int) == second_of_hour_minute(
            hour as int,
            minute as int,
        ) + local_second_of_day(now as int, offset as int) % 60,
{
    let sod = second_of_day(now, offset);
    let target = hour as i64 * 3600 + minute as i64 * 60 + sod % 60;
    let candidate = now - sod + target;
    let r = if now >= candidate {
        candidate + SECS_PER_DAY
    } else {
        candidate
    };
    proof {
        let x = now + offset;
        vstd::arithmetic::div_mod::lemma_fundamental_div_mod(x, 86400);
        let q = x / 86400;
        if now >= candidate {
            lemma_fundamental_div_mod_converse(r + offset, 86400, q + 1, target as int);
        } else {
            lemma_fundamental_div_mod_converse(r + offset, 86400, q, target as int);
        }
    }
    r
}

/// An instant together with the fixed UTC offset under which it is read.
#[derive(Clone, Copy, Debug, PartialEq, Eq, Structural)]
pub struct LocalTime {
    /// Seconds since the Unix epoch.
    pub unix: i64,
    /// Seconds east of UTC.
    pub offset: i32,
}

impl LocalTime {
    pub open spec fn wf(self) -> bool {
        valid_instant(self.unix as int) && valid_offset(self.offset as int)
    }

    /// The local wall-clock hour and minute.
    pub fn hour_minute(&self) -> (r: (u8, u8))
        requires
            self.wf(),
        ensures
            valid_hour_minute(r.0 as int, r.1 as int),
            r.0 == local_second_of_day(self.unix as int, self.offset as int) / 3600,
            r.1 == local_second_of_day(self.unix as int, self.offset as int) % 3600 / 60,
    {
        local_hour_minute(self.unix, self.offset)
    }
}

/// Two instants with the same local time of day, the second later than the
/// first, fall on different local days: a task re-armed for its wall-clock
/// minute after each fire never fires twice on one calendar day.
pub proof fn lemma_same_time_of_day_later_day(t1: int, t2: int, offset: int)
    requires
        t1 < t2,
        local_second_of_day(t1, offset) == local_second_of_day(t2, offset),
    ensures
        local_day(t1, offset) < local_day(t2, offset),
{
    vstd::arithmetic::div_mod::lemma_fundamental_div_mod(t1 + offset, 86400);
    vstd::arithmetic::div_mod::lemma_fundamental_div_mod(t2 + offset, 86400);
    let d1 = local_day(t1, offset);
    let d2 = local_day(t2, offset);
    assert(86400 * d1 < 86400 * d2);
    assert(d1 < d2) by (nonlinear_arith)
        requires
            86400 * d1 < 86400 * d2,
    ;
}

} // verus!
