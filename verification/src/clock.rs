//! Time as the daemon sees it: moments in UTC, calendar days in the machine's
//! time zone, and the whole seconds between two moments.
//!
//! The daemon's rules are stated over plain numbers. Only the four
//! functions that read the system clock or the time zone stand on `chrono`;
//! their contracts are believed, not proved.

use vstd::prelude::*;
use chrono::Datelike;

verus! {

/// A moment in time: milliseconds since the Unix epoch, in UTC.
pub type Timestamp = i64;

/// A calendar day in the machine's time zone.
#[derive(Clone, Copy, Debug, PartialEq, Eq, Structural)]
pub struct LocalDay {
    /// The number of the day in the proleptic Gregorian calendar, with
    /// January 1 of the year 1 as day 1.
    pub date: i32,
    /// The day of the week, counted from Monday: 0 for Monday, 6 for Sunday.
    pub weekday: u8,
}

/// The present moment with the distance of the machine's time zone from
/// UTC at that moment.
#[derive(Clone, Copy, Debug, PartialEq, Eq, Structural)]
pub struct LocalMoment {
    /// The moment.
    pub utc: Timestamp,
    /// The seconds to add to UTC for the local time.
    pub offset_seconds: i32,
}

/// Reads the system clock through `chrono::Utc::now` and returns the moment
/// in milliseconds, as `DateTime::timestamp_millis` gives it. Nothing is
/// claimed of the result. `chrono` stops the program if the system clock
/// stands before the Unix epoch.
#[verifier::external_body]
pub(crate) fn utc_now() -> Timestamp {
    chrono::Utc::now().timestamp_millis()
}

/// Reads the system clock and the time zone through `chrono::Local::now` and
/// returns the local date as `Datelike::num_days_from_ce` numbers it, with
/// the day of the week as `Weekday::num_days_from_monday` numbers it. The
/// contract claims only that the latter is below 7.
#[verifier::external_body]
pub(crate) fn local_today() -> (today: LocalDay)
    ensures
        today.weekday < 7,
{
    let now = chrono::Local::now();
    LocalDay { date: now.num_days_from_ce(), weekday: now.weekday().num_days_from_monday() as u8 }
}

/// Reads the system clock and the time zone through `chrono::Local::now`
/// and returns the moment as `DateTime::timestamp_millis` gives it, with
/// the offset as `FixedOffset::local_minus_utc` gives it. Nothing is claimed
/// of the result.
#[verifier::external_body]
pub(crate) fn local_now() -> LocalMoment {
    let now = chrono::Local::now();
    LocalMoment { utc: now.timestamp_millis(), offset_seconds: now.offset().local_minus_utc() }
}

/// Asks `chrono` for the moment at which day `date` begins in the machine's
/// time zone: `NaiveDate::from_num_days_from_ce_opt`, midnight of that date,
/// and `NaiveDateTime::and_local_timezone` for `chrono::Local`, of which
/// the earliest moment is taken where the clocks show that midnight twice.
/// `None` where the date is out of `chrono`'s range or the clocks skip that
/// midnight. Nothing is claimed of the result: it depends on the time zone.
#[verifier::external_body]
pub(crate) fn local_midnight(date: i32) -> Option<Timestamp> {
    let day = chrono::NaiveDate::from_num_days_from_ce_opt(date)?;
    let midnight = day.and_time(chrono::NaiveTime::MIN).and_local_timezone(chrono::Local);
    midnight.earliest().map(|moment| moment.timestamp_millis())
}

/// The whole seconds from `from` to `to`: zero where `to` is not later than
/// `from`, and never more than the largest `u32`.
pub open spec fn elapsed_seconds_of(from: int, to: int) -> u32 {
    if to <= from {
        0
    } else if (to - from) / 1000 > u32::MAX {
        u32::MAX
    } else {
        ((to - from) / 1000) as u32
    }
}

/// The whole seconds from `from` to `to`. A clock that went backwards gives
/// zero, not a negative length.
pub fn elapsed_seconds(from: Timestamp, to: Timestamp) -> (seconds: u32)
    ensures
        seconds == elapsed_seconds_of(from as int, to as int),
{
    if to <= from {
        return 0;
    }
    let span: i128 = to as i128 - from as i128;
    let whole: i128 = span / 1000;
    if whole > u32::MAX as i128 {
        u32::MAX
    } else {
        whole as u32
    }
}

/// The whole seconds that `now` has to wait for `then`: zero where `then`
/// has passed.
pub open spec fn seconds_until_of(now: int, then: int) -> u64 {
    if then <= now {
        0
    } else {
        ((then - now) / 1000) as u64
    }
}

/// The whole seconds that `now` has to wait for `then`.
pub fn seconds_until(now: Timestamp, then: Timestamp) -> (seconds: u64)
    ensures
        seconds == seconds_until_of(now as int, then as int),
{
    if then <= now {
        return 0;
    }
    let span: i128 = then as i128 - now as i128;
    let whole: i128 = span / 1000;
    whole as u64
}

/// The position of a day of the week in a timer's `allowed_days`, which
/// start on Sunday, for a day counted from Monday.
pub open spec fn day_index_of(weekday: int) -> int {
    (weekday + 1) % 7
}

/// The position of a day of the week in a timer's `allowed_days`: Sunday is
/// 0, Monday 1, Saturday 6.
pub fn day_index(weekday: u8) -> (index: usize)
    ensures
        index == day_index_of(weekday as int),
        index < 7,
{
    (weekday as usize + 1) % 7
}

/// The number of the day after `today`; `None` for the last day that can
/// be numbered.
pub open spec fn day_after_of(today: LocalDay) -> Option<i32> {
    if today.date == i32::MAX {
        None
    } else {
        Some((today.date + 1) as i32)
    }
}

/// The number of the day after `today`: the day whose midnight is the
/// coming one.
pub fn day_after(today: LocalDay) -> (date: Option<i32>)
    ensures
        date == day_after_of(today),
{
    if today.date == i32::MAX {
        None
    } else {
        Some(today.date + 1)
    }
}

/// The wait from `now` for a midnight that the time zone gave: its whole
/// seconds, and none where the time zone gave no midnight.
pub open spec fn wait_until_of(midnight: Option<Timestamp>, now: Timestamp) -> Option<u64> {
    match midnight {
        Some(then) => Some(seconds_until_of(now as int, then as int)),
        None => None,
    }
}

/// The wait from `now` for a midnight that the time zone gave.
pub fn wait_until(midnight: Option<Timestamp>, now: Timestamp) -> (wait: Option<u64>)
    ensures
        wait == wait_until_of(midnight, now),
{
    match midnight {
        Some(then) => Some(seconds_until(now, then)),
        None => None,
    }
}

/// The seconds for which the midnight alarm is set: the wait, and one
/// second where the wait is none.
pub open spec fn alarm_seconds_of(wait: u64) -> u64 {
    if wait == 0 {
        1
    } else {
        wait
    }
}

/// The seconds for which the midnight alarm is set, given the whole
/// seconds to wait. Whole seconds fall short of midnight by up to a second;
/// an alarm that is set for no time at all would go off again and again
/// until midnight has passed, so it is set for one second at least.
pub fn alarm_seconds(wait: u64) -> (seconds: u64)
    ensures
        seconds == alarm_seconds_of(wait),
{
    if wait == 0 {
        1
    } else {
        wait
    }
}

/// The seconds from now to the next local midnight, by the system clock and
/// the machine's time zone: the wait for the midnight at which the day
/// after today begins. `None` where the time zone has no such midnight.
pub fn seconds_until_next_local_midnight() -> (wait: Option<u64>)
    ensures
        exists|midnight: Option<Timestamp>, now: Timestamp|
            wait == #[trigger] wait_until_of(midnight, now),
{
    let today = local_today();
    let midnight = match day_after(today) {
        Some(date) => local_midnight(date),
        None => None,
    };
    let now = utc_now();
    let wait = wait_until(midnight, now);
    assert(wait == wait_until_of(midnight, now));
    wait
}

} // verus!
