use rqcore::calendar::Date;
use rqcore::clock::{
    earliest_of, is_live_window, next_occurrence_eastern, next_trigger_time, now_eastern,
    today_utc, LocalStamp, FAR_PAST_EPOCH,
};

fn stamp(epoch: i64, year: i32, month: u8, day: u8, tod: u32, weekday: u8) -> LocalStamp {
    LocalStamp { epoch, date: Date { year, month, day }, tod_seconds: tod, weekday }
}

#[test]
fn next_occurrence_later_today() {
    // 2025-01-15 (EST), 10:00 local; target 11:01:30 local = 16:01:30 UTC.
    let now = stamp(0, 2025, 1, 15, 36000, 2);
    assert_eq!(next_occurrence_eastern(&now, 39690), 1736956890);
}

#[test]
fn next_occurrence_rolls_to_tomorrow_after_target() {
    // Past the target: tomorrow's occurrence.
    let now = stamp(0, 2025, 1, 15, 50000, 2);
    assert_eq!(next_occurrence_eastern(&now, 39690), 1737043290);
}

#[test]
fn exact_match_at_the_trigger_second_schedules_tomorrow() {
    // The comparison is strict: exactly at the trigger second, today's
    // occurrence counts as passed.
    let now = stamp(0, 2025, 1, 15, 39690, 2);
    assert_eq!(next_occurrence_eastern(&now, 39690), 1737043290);
}

#[test]
fn spring_forward_gap_yields_the_far_past_sentinel() {
    // 2025-03-09 02:30 US Eastern does not exist (clocks jump 02:00->03:00).
    // The sentinel makes the task immediately due instead of failing.
    let now = stamp(0, 2025, 3, 9, 0, 6);
    assert_eq!(next_occurrence_eastern(&now, 9000), FAR_PAST_EPOCH);
}

#[test]
fn fall_back_ambiguity_takes_the_earliest_reading() {
    // 2025-11-02 01:30 US Eastern happens twice; the earliest (daylight
    // time) reading wins.
    let now = stamp(0, 2025, 11, 2, 0, 6);
    assert_eq!(next_occurrence_eastern(&now, 5400), 1762061400);
}

#[test]
fn noon_resolves_across_dst() {
    // Noon ET is 17:00 UTC in winter and 16:00 UTC in summer time.
    let winter = stamp(1736960400, 2025, 1, 15, 43200, 2);
    assert!(is_live_window(&winter));
    let within = stamp(1736960400 + 54, 2025, 1, 15, 43254, 2);
    assert!(is_live_window(&within));
    let outside = stamp(1736960400 + 55, 2025, 1, 15, 43255, 2);
    assert!(!is_live_window(&outside));
    let before = stamp(1736960400 - 54, 2025, 1, 15, 43146, 2);
    assert!(is_live_window(&before));
    let summer_noon = stamp(1741536000, 2025, 3, 9, 43200, 6);
    assert!(is_live_window(&summer_noon));
}

#[test]
fn earliest_of_picks_the_minimum() {
    assert_eq!(earliest_of(&vec![5, 3, 9]), 3);
    assert_eq!(earliest_of(&vec![7]), 7);
    assert_eq!(earliest_of(&vec![-2, 0, -2]), -2);
}

#[test]
fn trigger_time_is_the_earliest_checkpoint() {
    // 10:00 ET on 2025-01-15 with the weekly strategy's checkpoints:
    // the 11:01:30 one is next (09:45:30 already passed today, so its
    // occurrence is tomorrow).
    let now = stamp(0, 2025, 1, 15, 36000, 2);
    let cps = vec![35130, 39690, 41430, 43170];
    assert_eq!(next_trigger_time(&now, &cps), 1736956890);
}

#[test]
fn real_clock_is_sane() {
    // Exercises the trusted time wrappers end to end.
    let now = now_eastern();
    assert!(now.tod_seconds < 86400);
    assert!(now.weekday < 7);
    assert!(now.date.year >= 2024);
    let today = today_utc();
    assert!(today.weekday < 7);
    assert!(today.date.year >= 2024);
    assert!((1..=12).contains(&today.date.month));
}

#[test]
fn next_trigger_from_real_clock_is_near_now() {
    let cps = vec![35130, 39690, 41430, 43170];
    let (now, t) = rqcore::clock::next_trigger_from_now(&cps);
    // The next occurrence lies within the coming two days (in epoch terms,
    // allowing for the UTC/Eastern offset).
    assert!(t > now.epoch - 2 * 86400);
    assert!(t < now.epoch + 2 * 86400);
}
