//! The trigger clock: trusted access to the system time and to the US
//! Eastern timezone table, and the verified logic that turns a local
//! wall-clock target time into the next future occurrence as a UTC instant.

use vstd::prelude::*;

use crate::calendar::{date_lt, lemma_next_date_lt, next_date, next_date_exec, valid_date, Date};
use chrono::{Datelike, TimeZone, Timelike};

verus! {

/// Noon as a local time of day, in seconds.
pub const NOON_TOD: u32 = 43200;

/// Defensive sentinel: an instant far in the past, returned when a chosen
/// local time has no valid UTC interpretation (it makes the caller treat the
/// task as immediately due rather than fail).
pub const FAR_PAST_EPOCH: i64 = -62135596800;

/// The current moment, as a UTC epoch second together with its US Eastern
/// civil reading (date, time of day, day of week with Monday as 0).
pub struct LocalStamp {
    pub epoch: i64,
    pub date: Date,
    pub tod_seconds: u32,
    pub weekday: u8,
}

/// Today's UTC civil date and its day of week (Monday as 0).
pub struct DayStamp {
    pub date: Date,
    pub weekday: u8,
}

/// The UTC epoch second (if any) of the earliest valid interpretation of a
/// US Eastern local wall-clock time: what chrono-tz's embedded timezone
/// table answers for that local date and time of day.  `None` means the
/// local time falls in a daylight-saving gap and does not exist.
pub uninterp spec fn eastern_utc_of_local(
    year: int,
    month: int,
    day: int,
    tod_seconds: int,
) -> Option<i64>;

/// Relies on chrono's `TimeZone::from_local_datetime` with chrono-tz's
/// `US::Eastern`: maps a local civil time to its earliest valid UTC instant,
/// or `None` inside a daylight-saving gap.
#[verifier::external_body]
fn resolve_eastern_local(date: &Date, tod_seconds: u32) -> (r: Option<i64>)
    requires
        valid_date(*date),
        1 <= date.year <= 9999,
        tod_seconds < 86400,
    ensures
        r == eastern_utc_of_local(
            date.year as int,
            date.month as int,
            date.day as int,
            tod_seconds as int,
        ),
{
    let nd = match chrono::NaiveDate::from_ymd_opt(date.year, date.month as u32, date.day as u32) {
        Some(d) => d,
        None => return None,
    };
    let nt = match chrono::NaiveTime::from_num_seconds_from_midnight_opt(tod_seconds, 0) {
        Some(t) => t,
        None => return None,
    };
    chrono_tz::US::Eastern.from_local_datetime(&nd.and_time(nt)).earliest().map(
        |dt| dt.timestamp(),
    )
}

/// Relies on chrono's `Utc::now`, its `Datelike`/`Timelike` accessors and
/// chrono-tz's `US::Eastern`: the current instant and its Eastern civil
/// reading.  The date is a valid civil date within chrono's representable
/// years; the time of day is below 86400; the weekday counts days since
/// Monday.
#[verifier::external_body]
pub fn now_eastern() -> (r: LocalStamp)
    ensures
        valid_date(r.date),
        -262200 <= r.date.year <= 262200,
        r.tod_seconds < 86400,
        r.weekday < 7,
{
    let now = chrono::Utc::now();
    let et = now.with_timezone(&chrono_tz::US::Eastern);
    LocalStamp {
        epoch: now.timestamp(),
        date: Date { year: et.year(), month: et.month() as u8, day: et.day() as u8 },
        tod_seconds: et.num_seconds_from_midnight(),
        weekday: et.weekday().num_days_from_monday() as u8,
    }
}

/// Relies on chrono's `Utc::now` and its `Datelike` accessors: today's UTC
/// civil date, a valid date within chrono's representable years, with the
/// weekday counting days since Monday.
#[verifier::external_body]
pub fn today_utc() -> (r: DayStamp)
    ensures
        valid_date(r.date),
        -262200 <= r.date.year <= 262200,
        r.weekday < 7,
{
    let today = chrono::Utc::now().date_naive();
    DayStamp {
        date: Date { year: today.year(), month: today.month() as u8, day: today.day() as u8 },
        weekday: today.weekday().num_days_from_monday() as u8,
    }
}

/// Relies on chrono's `Utc::now`: the current UTC epoch second.
#[verifier::external_body]
pub fn now_epoch() -> (r: i64)
{
    chrono::Utc::now().timestamp()
}

/// The local calendar date on which the target time of day next occurs:
/// today while the target is still strictly ahead, otherwise tomorrow (so a
/// call exactly at the target second schedules tomorrow's occurrence).
pub open spec fn chosen_local_date(now_date: Date, now_tod: int, target_tod: int) -> Date {
    if now_tod < target_tod {
        now_date
    } else {
        next_date(now_date)
    }
}

/// Strict "earlier" on local (date, time-of-day) pairs.
pub open spec fn local_pair_lt(d1: Date, t1: int, d2: Date, t2: int) -> bool {
    date_lt(d1, d2) || (d1 == d2 && t1 < t2)
}

/// The UTC instant of the next occurrence of a local time of day, as the
/// specification of `next_occurrence_eastern`: resolve the chosen local
/// date and target time; a local time inside a daylight-saving gap falls
/// back to the far-past sentinel.
pub open spec fn occurrence_spec(now: LocalStamp, target_tod: u32) -> int {
    let d = chosen_local_date(now.date, now.tod_seconds as int, target_tod as int);
    match eastern_utc_of_local(d.year as int, d.month as int, d.day as int, target_tod as int) {
        Some(t) => t as int,
        None => FAR_PAST_EPOCH as int,
    }
}

/// The next future occurrence of a local Eastern wall-clock time, as a UTC
/// epoch second.  The chosen occurrence is strictly in the local future: an
/// exact match of the current second already schedules tomorrow.  A target
/// inside a daylight-saving gap yields the far-past sentinel, making the
/// task immediately due (defensive fallback, not expected in practice).
pub fn next_occurrence_eastern(now: &LocalStamp, target_tod: u32) -> (r: i64)
    requires
        valid_date(now.date),
        1 <= now.date.year <= 9998,
        now.tod_seconds < 86400,
        target_tod < 86400,
    ensures
        r == occurrence_spec(*now, target_tod),
        local_pair_lt(
            now.date,
            now.tod_seconds as int,
            chosen_local_date(now.date, now.tod_seconds as int, target_tod as int),
            target_tod as int,
        ),
{
    let d: Date = if now.tod_seconds < target_tod {
        now.date
    } else {
        proof {
            lemma_next_date_lt(now.date);
        }
        next_date_exec(&now.date)
    };
    match resolve_eastern_local(&d, target_tod) {
        Some(t) => t,
        None => FAR_PAST_EPOCH,
    }
}

/// The minimum of a non-empty vector of instants.
pub fn earliest_of(instants: &Vec<i64>) -> (r: i64)
    requires
        instants@.len() > 0,
    ensures
        exists|i: int| 0 <= i < instants@.len() && r == instants@[i],
        forall|i: int| 0 <= i < instants@.len() ==> r <= instants@[i],
{
    let mut best: i64 = instants[0];
    let mut i: usize = 1;
    while i < instants.len()
        invariant
            1 <= i <= instants@.len(),
            exists|j: int| 0 <= j < i && best == instants@[j],
            forall|j: int| 0 <= j < i ==> best <= instants@[j],
        decreases instants@.len() - i,
    {
        if instants[i] < best {
            best = instants[i];
        }
        i = i + 1;
    }
    best
}

/// The next trigger time over a strategy's daily checkpoints: the earliest
/// of the next occurrences of each checkpoint's local time.
pub fn next_trigger_time(now: &LocalStamp, checkpoints_tod: &Vec<u32>) -> (r: i64)
    requires
        valid_date(now.date),
        1 <= now.date.year <= 9998,
        now.tod_seconds < 86400,
        checkpoints_tod@.len() > 0,
        forall|i: int| 0 <= i < checkpoints_tod@.len() ==> checkpoints_tod@[i] < 86400,
    ensures
        exists|i: int|
            0 <= i < checkpoints_tod@.len() && r == occurrence_spec(*now, checkpoints_tod@[i]),
        forall|i: int|
            0 <= i < checkpoints_tod@.len() ==> r <= occurrence_spec(*now, checkpoints_tod@[i]),
{
    let mut occs: Vec<i64> = Vec::new();
    let mut i: usize = 0;
    while i < checkpoints_tod.len()
        invariant
            valid_date(now.date),
            1 <= now.date.year <= 9998,
            now.tod_seconds < 86400,
            forall|k: int| 0 <= k < checkpoints_tod@.len() ==> checkpoints_tod@[k] < 86400,
            i <= checkpoints_tod@.len(),
            occs@.len() == i,
            forall|k: int| 0 <= k < i ==> occs@[k] == occurrence_spec(*now, checkpoints_tod@[k]),
        decreases checkpoints_tod@.len() - i,
    {
        let t = next_occurrence_eastern(now, checkpoints_tod[i]);
        occs.push(t);
        i = i + 1;
    }
    let best = earliest_of(&occs);
    proof {
        assert forall|k: int| 0 <= k < checkpoints_tod@.len() implies best <= occurrence_spec(
            *now,
            checkpoints_tod@[k],
        ) by {
            assert(occs@[k] == occurrence_spec(*now, checkpoints_tod@[k]));
        }
    }
    best
}

/// The next trigger over a strategy's checkpoints, computed from the real
/// clock: the Eastern civil reading of now is returned beside the trigger.
/// A clock outside the supported year range falls back to the far-past
/// sentinel (the task becomes immediately due instead of failing).
pub fn next_trigger_from_now(checkpoints_tod: &Vec<u32>) -> (r: (LocalStamp, i64))
    requires
        checkpoints_tod@.len() > 0,
        forall|i: int| 0 <= i < checkpoints_tod@.len() ==> checkpoints_tod@[i] < 86400,
    ensures
        valid_date(r.0.date),
        r.0.tod_seconds < 86400,
        r.0.weekday < 7,
        1 <= r.0.date.year <= 9998 ==> {
            &&& exists|i: int|
                0 <= i < checkpoints_tod@.len() && r.1 == occurrence_spec(
                    r.0,
                    checkpoints_tod@[i],
                )
            &&& forall|i: int|
                0 <= i < checkpoints_tod@.len() ==> r.1 <= occurrence_spec(
                    r.0,
                    checkpoints_tod@[i],
                )
        },
        !(1 <= r.0.date.year <= 9998) ==> r.1 == FAR_PAST_EPOCH,
{
    let now = now_eastern();
    if now.date.year < 1 || now.date.year > 9998 {
        return (now, FAR_PAST_EPOCH);
    }
    let t = next_trigger_time(&now, checkpoints_tod);
    (now, t)
}

/// Inside the live-trading window: within 55 seconds of local Eastern noon.
/// When noon itself has no valid UTC interpretation the window is closed.
pub open spec fn live_window_spec(now: LocalStamp) -> bool {
    match eastern_utc_of_local(
        now.date.year as int,
        now.date.month as int,
        now.date.day as int,
        NOON_TOD as int,
    ) {
        Some(noon) => -55 < now.epoch - noon < 55,
        None => false,
    }
}

/// Whether the current moment is inside the live-trading window: within 55
/// seconds of local Eastern noon.  When noon itself has no valid UTC
/// interpretation the window is closed (and the run stays a simulation).
pub fn is_live_window(now: &LocalStamp) -> (r: bool)
    requires
        valid_date(now.date),
        1 <= now.date.year <= 9999,
    ensures
        r == live_window_spec(*now),
{
    match resolve_eastern_local(&now.date, NOON_TOD) {
        Some(noon) => {
            let diff: i128 = now.epoch as i128 - noon as i128;
            -55 < diff && diff < 55
        },
        None => false,
    }
}

} // verus!
