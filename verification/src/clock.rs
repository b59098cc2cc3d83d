//! The local clock and local calendar times, read through `chrono`.
use chrono::{Datelike, TimeZone, Timelike};
use vstd::prelude::*;

verus! {

/// A point in time: whole seconds since the Unix epoch and the nanoseconds
/// past them.
#[derive(Clone, Copy, Debug, PartialEq, Eq, Structural)]
pub struct Instant {
    pub secs: i64,
    pub nanos: u32,
}

/// The instant in nanoseconds since the epoch.
pub open spec fn instant_nanos(i: Instant) -> int {
    i.secs * 1_000_000_000 + i.nanos
}

/// A reading of the local clock: the calendar fields of the local time and the
/// instant.
#[derive(Clone, Copy, Debug, PartialEq, Eq, Structural)]
pub struct LocalNow {
    pub year: i32,
    pub month: u32,
    pub day: u32,
    pub hour: u32,
    pub minute: u32,
    pub second: u32,
    pub instant: Instant,
}

/// What a local calendar time resolves to in the local time zone: no instant
/// (`Unresolved`: an invalid date or time, or one that a clock change skips),
/// one, or two (a time that a clock change repeats).
#[derive(Clone, Copy, Debug, PartialEq, Eq, Structural)]
pub enum LocalTime {
    Unresolved,
    Single(Instant),
    Ambiguous(Instant, Instant),
}

/// A resolved local time, and its `Debug` text as `chrono` writes it.
#[derive(Clone, Debug)]
pub struct ResolvedTime {
    pub time: LocalTime,
    pub debug: String,
}

/// Whether year, month, day, hour, minute and second can name a calendar time
/// at all: a month of the year, a day number a month can have, a time of day.
pub open spec fn fields_in_range(month: u32, day: u32, hour: u32, minute: u32, second: u32) -> bool {
    &&& 1 <= month <= 12
    &&& 1 <= day <= 31
    &&& hour <= 23
    &&& minute <= 59
    &&& second <= 59
}

/// Whether `year` is a leap year of the proleptic Gregorian calendar.
pub open spec fn is_leap_year(year: int) -> bool {
    (year % 4 == 0 && year % 100 != 0) || year % 400 == 0
}

/// The number of days of `month` (1 to 12) in `year`.
pub open spec fn days_in_month(year: int, month: int) -> int {
    if month == 2 {
        if is_leap_year(year) { 29 } else { 28 }
    } else if month == 4 || month == 6 || month == 9 || month == 11 {
        30
    } else {
        31
    }
}

/// Whether `year`, `month` and `day` name a day of the proleptic Gregorian
/// calendar.
pub open spec fn date_exists(year: int, month: int, day: int) -> bool {
    &&& 1 <= month <= 12
    &&& 1 <= day <= days_in_month(year, month)
}

/// The number of days from 1970-01-01 to the given date of the proleptic
/// Gregorian calendar (negative before it). Years are counted from March, so
/// that the leap day ends a year, in cycles of 400 years of 146097 days.
pub open spec fn days_from_epoch(year: int, month: int, day: int) -> int {
    let y = if month <= 2 { year - 1 } else { year };
    let era = y / 400;
    let year_of_era = y - era * 400;
    let month_from_march = if month > 2 { month - 3 } else { month + 9 };
    let day_of_year = (153 * month_from_march + 2) / 5 + day - 1;
    let day_of_era = year_of_era * 365 + year_of_era / 4 - year_of_era / 100 + day_of_year;
    era * 146097 + day_of_era - 719468
}

/// The calendar time as seconds counted from 1970-01-01 00:00:00 on the same
/// calendar: the seconds since the epoch of that calendar time read as UTC.
pub open spec fn calendar_seconds(year: int, month: int, day: int, hour: int, minute: int, second: int) -> int {
    days_from_epoch(year, month, day) * 86_400 + hour * 3_600 + minute * 60 + second
}

/// Whether the instant `t` lies less than a day away from `local`, the
/// seconds of a calendar time read as UTC: what a time-zone offset, always
/// strictly between minus and plus one day, allows.
pub open spec fn within_a_day_of(t: Instant, local: int) -> bool {
    local - 86_400 < t.secs < local + 86_400
}

/// Whether each instant that `time` holds lies within a day of `local`.
pub open spec fn resolved_within_a_day_of(time: LocalTime, local: int) -> bool {
    match time {
        LocalTime::Unresolved => true,
        LocalTime::Single(t) => within_a_day_of(t, local),
        LocalTime::Ambiguous(a, b) => within_a_day_of(a, local) && within_a_day_of(b, local),
    }
}

/// A reading of local calendar fields and an instant that fit together: the
/// fields name a calendar time, and the instant lies within a day of them
/// read as UTC (the local offset lies strictly within a day either way).
pub open spec fn fits_local_fields(l: LocalNow) -> bool {
    &&& date_exists(l.year as int, l.month as int, l.day as int)
    &&& l.year <= 262144
    &&& l.hour <= 23
    &&& l.minute <= 59
    &&& l.second <= 59
    &&& within_a_day_of(
        l.instant,
        calendar_seconds(l.year as int, l.month as int, l.day as int, l.hour as int, l.minute as int, l.second as int),
    )
}

/// A reading that the local clock can give: fields and instant that fit
/// together, an instant not before the epoch, and so a year from 1969 on.
pub open spec fn clock_reading(now: LocalNow) -> bool {
    &&& fits_local_fields(now)
    &&& 1969 <= now.year
    &&& now.instant.secs >= 0
    &&& now.instant.nanos < 1_000_000_000
}

/// `std::time::SystemTime::now().duration_since(UNIX_EPOCH)`, as whole
/// seconds and the nanoseconds past them. Claimed: the nanoseconds of a
/// `Duration` are below one second. `None` when the system clock is set
/// before the epoch. Which time it is is not stated.
#[verifier::external_body]
fn since_epoch() -> (r: Option<(u64, u32)>)
    ensures
        r matches Some(d) ==> d.1 < 1_000_000_000,
{
    match std::time::SystemTime::now().duration_since(std::time::UNIX_EPOCH) {
        Ok(d) => Some((d.as_secs(), d.subsec_nanos())),
        Err(_) => None,
    }
}

/// `chrono::DateTime::from_timestamp(secs, nanos)` taken to the local time
/// zone with `with_timezone(&chrono::Local)`, read into its calendar fields
/// and its instant. `None` where `from_timestamp` refuses the instant (out of
/// `NaiveDate`'s range). Claimed of a reading given: its instant is the one
/// asked for (`with_timezone` keeps the UTC instant); its fields are those of
/// a `NaiveDate` and a `NaiveTime` with no leap second (the nanoseconds are
/// below one second), after the latest date by at most a day
/// (`NaiveDate::AFTER_MAX`, 1 January 262143, so the year is at
/// most 262144 whatever happens); they are the instant plus the
/// local offset, which `FixedOffset` holds strictly within a day, so an
/// instant not before the epoch has a year from 1969 on. Which offset
/// applies depends on the machine's time zone and is not stated. Time-zone
/// data that gives an offset of a day or more, or that cannot be searched,
/// makes chrono panic; nothing here can rule that out.
#[verifier::external_body]
fn local_at(secs: i64, nanos: u32) -> (r: Option<LocalNow>)
    requires
        nanos < 1_000_000_000,
    ensures
        r matches Some(l) ==> l.instant == (Instant { secs, nanos }),
        r matches Some(l) ==> fits_local_fields(l),
        r matches Some(l) ==> (secs >= 0 ==> 1969 <= l.year),
{
    let now = chrono::DateTime::from_timestamp(secs, nanos)?.with_timezone(&chrono::Local);
    Some(LocalNow {
        year: now.year(),
        month: now.month(),
        day: now.day(),
        hour: now.hour(),
        minute: now.minute(),
        second: now.second(),
        instant: Instant { secs: now.timestamp(), nanos: now.timestamp_subsec_nanos() },
    })
}

/// `chrono::Local.with_ymd_and_hms(year, month, day, hour, minute, second)`,
/// with the `Debug` text of its result. Claimed: fields out of their ranges
/// give no instant (the call builds a `NaiveDate` and a `NaiveTime` first,
/// and returns `None` when either cannot be built), and the instants it gives
/// fall on whole seconds (the `NaiveTime` is built with no fraction, and a
/// time-zone offset is whole seconds). A day that the month does not have
/// gives no instant either (`NaiveDate::from_ymd_opt` refuses it). Each
/// instant given is the calendar time less a local offset, which lies
/// strictly within a day either way, so it lies within a day of the calendar
/// time read as UTC. Which offset applies, and whether a valid time resolves
/// at all, depends on the machine's time zone and is not stated; neither is
/// the order of the two instants of an ambiguous time. Time-zone data that
/// cannot be searched makes chrono panic; nothing here can rule that out.
#[verifier::external_body]
pub(crate) fn local_ymd_hms(
    year: i32,
    month: u32,
    day: u32,
    hour: u32,
    minute: u32,
    second: u32,
) -> (r: ResolvedTime)
    ensures
        !date_exists(year as int, month as int, day as int) ==> r.time == LocalTime::Unresolved,
        resolved_within_a_day_of(r.time, calendar_seconds(year as int, month as int, day as int, hour as int, minute as int, second as int)),
        !fields_in_range(month, day, hour, minute, second) ==> r.time == LocalTime::Unresolved,
        r.time matches LocalTime::Single(t) ==> t.nanos == 0,
        r.time matches LocalTime::Ambiguous(a, b) ==> a.nanos == 0 && b.nanos == 0,
{
    let res = chrono::Local.with_ymd_and_hms(year, month, day, hour, minute, second);
    let time = match res {
        chrono::LocalResult::None => LocalTime::Unresolved,
        chrono::LocalResult::Single(t) => LocalTime::Single(
            Instant { secs: t.timestamp(), nanos: t.timestamp_subsec_nanos() },
        ),
        chrono::LocalResult::Ambiguous(a, b) => LocalTime::Ambiguous(
            Instant { secs: a.timestamp(), nanos: a.timestamp_subsec_nanos() },
            Instant { secs: b.timestamp(), nanos: b.timestamp_subsec_nanos() },
        ),
    };
    ResolvedTime { time, debug: format!("{:?}", res) }
}


/// The local clock now: `None` when the system clock reads before the epoch
/// or past the last date that `chrono` can hold.
pub fn now() -> (r: Option<LocalNow>)
    ensures
        r matches Some(l) ==> clock_reading(l),
{
    let (secs, nanos) = match since_epoch() {
        Some(d) => d,
        None => return None,
    };
    if secs > 9_223_372_036_854_775_807 {
        return None;
    }
    local_at(secs as i64, nanos)
}

} // verus!
