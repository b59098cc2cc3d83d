//! When a reminder's countdown notifies.
use crate::clock::{calendar_seconds, clock_reading, instant_nanos, within_a_day_of, Instant, LocalNow, LocalTime};
use crate::file_scanner::time_reminder::model::{aims_at, target_fields_spec, ReminderKey, ReminderKeyView};
use crate::file_scanner::time_reminder::tracker::repeats_daily;
use vstd::prelude::*;

verus! {

/// What the countdown of one reminder does.
#[derive(Clone, Copy, Debug, PartialEq, Eq, Structural)]
pub enum CountdownPlan {
    /// The reminder's check box is ticked: nothing to do.
    Done,
    /// The aimed-at time resolves to no single instant: the countdown reports
    /// the error and fails.
    Unresolved,
    /// The time passed a minute ago or longer: nothing to do.
    Missed,
    /// Notify after waiting this long (zero for a time passed less than a
    /// minute ago).
    Notify { wait_secs: u64, wait_nanos: u32 },
}

/// How long past an aimed-at time a reminder still notifies: one minute.
pub open spec fn grace_nanos() -> int {
    60_000_000_000
}

/// The countdown of reminder `key` whose aimed-at time resolved to `target`,
/// at instant `now`.
pub open spec fn countdown_spec(key: ReminderKeyView, target: LocalTime, now: Instant) -> CountdownPlan {
    if key.completed_checked {
        CountdownPlan::Done
    } else {
        match target {
            LocalTime::Single(t) => {
                let d = instant_nanos(t) - instant_nanos(now);
                if d >= 0 {
                    CountdownPlan::Notify {
                        wait_secs: (d / 1_000_000_000) as u64,
                        wait_nanos: (d % 1_000_000_000) as u32,
                    }
                } else if -d >= grace_nanos() {
                    CountdownPlan::Missed
                } else {
                    CountdownPlan::Notify { wait_secs: 0, wait_nanos: 0 }
                }
            },
            _ => CountdownPlan::Unresolved,
        }
    }
}

/// Decides the countdown of reminder `key`, whose aimed-at time resolved to
/// `target`, at instant `now`.
pub fn countdown_plan(key: &ReminderKey, target: &LocalTime, now: &Instant) -> (r: CountdownPlan)
    requires
        now.nanos < 1_000_000_000,
        target matches LocalTime::Single(t) ==> t.nanos < 1_000_000_000,
    ensures
        r == countdown_spec(key@, *target, *now),
{
    if key.completed_checked {
        return CountdownPlan::Done;
    }
    match target {
        LocalTime::Single(t) => {
            let ds: i128 = (t.secs as i128) - (now.secs as i128);
            let dn: i128 = (t.nanos as i128) - (now.nanos as i128);
            let d: i128 = ds * 1_000_000_000 + dn;
            assert(d == instant_nanos(*t) - instant_nanos(*now)) by (nonlinear_arith)
                requires
                    ds == t.secs - now.secs,
                    dn == t.nanos - now.nanos,
                    d == ds * 1_000_000_000 + dn,
            ;
            if d >= 0 {
                let secs = d / 1_000_000_000;
                let nanos = d % 1_000_000_000;
                assert(secs <= u64::MAX) by (nonlinear_arith)
                    requires
                        secs == d / 1_000_000_000,
                        0 <= d,
                        d == ds * 1_000_000_000 + dn,
                        ds <= 18446744073709551615,
                        dn < 1_000_000_000,
                ;
                CountdownPlan::Notify { wait_secs: secs as u64, wait_nanos: nanos as u32 }
            } else if -d >= 60_000_000_000 {
                CountdownPlan::Missed
            } else {
                CountdownPlan::Notify { wait_secs: 0, wait_nanos: 0 }
            }
        },
        _ => CountdownPlan::Unresolved,
    }
}

} // verus!

verus! {

/// A reminder whose check box is ticked never notifies.
pub proof fn law_checked_reminder_never_notifies(key: ReminderKeyView, target: LocalTime, now: Instant)
    requires
        key.completed_checked,
    ensures
        countdown_spec(key, target, now) == CountdownPlan::Done,
{
}

/// A reminder whose time is still to come notifies exactly at that time: it
/// waits the difference between its instant and now.
pub proof fn law_future_reminder_notifies_at_its_time(key: ReminderKeyView, t: Instant, now: Instant)
    requires
        !key.completed_checked,
        t.nanos < 1_000_000_000,
        now.nanos < 1_000_000_000,
        instant_nanos(t) >= instant_nanos(now),
    ensures
        countdown_spec(key, LocalTime::Single(t), now) matches CountdownPlan::Notify { wait_secs, wait_nanos }
            && wait_secs * 1_000_000_000 + wait_nanos == instant_nanos(t) - instant_nanos(now),
{
    let d = instant_nanos(t) - instant_nanos(now);
    assert((d / 1_000_000_000) * 1_000_000_000 + d % 1_000_000_000 == d) by (nonlinear_arith)
        requires
            d >= 0,
    ;
    let ds = t.secs - now.secs;
    let dn = t.nanos - now.nanos;
    assert(d == ds * 1_000_000_000 + dn) by (nonlinear_arith)
        requires
            d == instant_nanos(t) - instant_nanos(now),
            ds == t.secs - now.secs,
            dn == t.nanos - now.nanos,
    ;
    assert(d / 1_000_000_000 <= u64::MAX) by (nonlinear_arith)
        requires
            0 <= d,
            d == ds * 1_000_000_000 + dn,
            ds <= 18446744073709551615,
            dn < 1_000_000_000,
    ;
}

/// A reminder whose time passed less than a minute ago notifies at once; one
/// whose time passed a minute ago or longer never notifies.
pub proof fn law_past_reminder_within_a_minute(key: ReminderKeyView, t: Instant, now: Instant)
    requires
        !key.completed_checked,
        instant_nanos(t) < instant_nanos(now),
    ensures
        instant_nanos(now) - instant_nanos(t) < grace_nanos() ==> countdown_spec(key, LocalTime::Single(t), now)
            == (CountdownPlan::Notify { wait_secs: 0, wait_nanos: 0 }),
        instant_nanos(now) - instant_nanos(t) >= grace_nanos() ==> countdown_spec(key, LocalTime::Single(t), now)
            == CountdownPlan::Missed,
{
}

/// A time stamp that resolves to no single instant never notifies.
pub proof fn law_unresolved_time_never_notifies(key: ReminderKeyView, target: LocalTime, now: Instant)
    requires
        !key.completed_checked,
        !(target is Single),
    ensures
        countdown_spec(key, target, now) == CountdownPlan::Unresolved,
{
}

/// A reminder with a time of day and no date goes off every day at that
/// time: a countdown started on any day, at a clock reading `now`, aims at
/// that day's date and the time of day as written (seconds `00` when left
/// out). Where that time
/// resolves to one instant, the countdown notifies exactly at it when it is
/// still to come, and not at all when it passed a minute ago or longer, so a
/// countdown started again after the day's notification (which waits a
/// minute before it ends) does not notify a second time that day.
pub proof fn law_daily_reminder_notifies_each_day(
    key: ReminderKeyView,
    hour: u32,
    minute: u32,
    now: LocalNow,
    target: LocalTime,
)
    requires
        repeats_daily(key),
        key.time_parts.hour == Some(hour),
        key.time_parts.minute == Some(minute),
        clock_reading(now),
        aims_at(target, target_fields_spec(key.time_parts, now)),
    ensures
        ({
            let f = target_fields_spec(key.time_parts, now);
            let second: u32 = match key.time_parts.second {
                Some(s) => s,
                None => 0,
            };
            &&& f.year == now.year && f.month == now.month && f.day == now.day
            &&& f.hour == hour && f.minute == minute && f.second == second
            &&& target matches LocalTime::Single(t) ==> within_a_day_of(
                t,
                calendar_seconds(now.year as int, now.month as int, now.day as int, hour as int, minute as int, second as int),
            )
        }),
        target matches LocalTime::Single(t) ==> (instant_nanos(t) >= instant_nanos(now.instant) ==> (countdown_spec(
            key,
            target,
            now.instant,
        ) matches CountdownPlan::Notify { wait_secs, wait_nanos } && wait_secs * 1_000_000_000 + wait_nanos
            == instant_nanos(t) - instant_nanos(now.instant))),
        target matches LocalTime::Single(t) ==> (instant_nanos(now.instant) - instant_nanos(t) >= grace_nanos()
            ==> countdown_spec(key, target, now.instant) == CountdownPlan::Missed),
{
    if let LocalTime::Single(t) = target {
        if instant_nanos(t) >= instant_nanos(now.instant) {
            law_future_reminder_notifies_at_its_time(key, t, now.instant);
        }
        if instant_nanos(t) < instant_nanos(now.instant) {
            law_past_reminder_within_a_minute(key, t, now.instant);
        }
    }
}

} // verus!
