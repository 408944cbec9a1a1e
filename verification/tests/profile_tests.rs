use rqcore::calendar::Date;
use rqcore::profile::{
    calculate_dates_and_allocation, capital_allocation, monthly_target, weekly_target,
    RebalanceRule, StrategyProfile,
};

fn d(year: i32, month: u8, day: u8) -> Date {
    Date { year, month, day }
}

#[test]
fn weekly_rule_finds_monday() {
    // 2025-11-05 is a Wednesday (2 days since Monday).
    assert_eq!(weekly_target(&d(2025, 11, 5), 2), d(2025, 11, 3));
    // A Monday maps to itself.
    assert_eq!(weekly_target(&d(2025, 11, 3), 0), d(2025, 11, 3));
    // A Sunday maps back across a month boundary: 2025-11-02 -> 2025-10-27.
    assert_eq!(weekly_target(&d(2025, 11, 2), 6), d(2025, 10, 27));
}

#[test]
fn monthly_rule_first_on_saturday_rolls_to_the_third() {
    // 2025-11-01 is a Saturday; seen from Wednesday 2025-11-05 (weekday 2).
    let (target, wd) = monthly_target(&d(2025, 11, 5), 2);
    assert_eq!(target, d(2025, 11, 3));
    assert_eq!(wd, 0);
}

#[test]
fn monthly_rule_first_on_sunday_rolls_to_the_second() {
    // 2026-02-01 is a Sunday; seen from Wednesday 2026-02-04 (weekday 2).
    let (target, wd) = monthly_target(&d(2026, 2, 4), 2);
    assert_eq!(target, d(2026, 2, 2));
    assert_eq!(wd, 0);
}

#[test]
fn monthly_rule_fifteenth_on_saturday_rolls_to_the_seventeenth() {
    // 2025-11-15 is a Saturday; seen from Thursday 2025-11-20 (weekday 3).
    let (target, wd) = monthly_target(&d(2025, 11, 20), 3);
    assert_eq!(target, d(2025, 11, 17));
    assert_eq!(wd, 0);
}

#[test]
fn monthly_rule_weekday_candidate_stays() {
    // 2025-10-15 is a Wednesday; seen from itself.
    let (target, wd) = monthly_target(&d(2025, 10, 15), 2);
    assert_eq!(target, d(2025, 10, 15));
    assert_eq!(wd, 2);
}

#[test]
fn allocation_table() {
    let both = capital_allocation(true, true);
    assert_eq!(both.pqp_buy_cents, 7_000_000);
    assert_eq!(both.pqp_sell_cents, 6_000_000);
    assert_eq!(both.ap_buy_cents, 7_000_000);
    let pqp_only = capital_allocation(true, false);
    assert_eq!(pqp_only.pqp_buy_cents, 14_000_000);
    assert_eq!(pqp_only.pqp_sell_cents, 6_000_000);
    assert_eq!(pqp_only.ap_buy_cents, 0);
    let ap_only = capital_allocation(false, true);
    assert_eq!(ap_only.pqp_buy_cents, 0);
    assert_eq!(ap_only.pqp_sell_cents, 0);
    assert_eq!(ap_only.ap_buy_cents, 20_000_000);
    let neither = capital_allocation(false, false);
    assert_eq!(neither.pqp_buy_cents, 0);
    assert_eq!(neither.pqp_sell_cents, 0);
    assert_eq!(neither.ap_buy_cents, 0);
}

#[test]
fn run_plan_on_a_monday() {
    // 2025-11-03 is a Monday: the weekly strategy runs, the monthly does
    // not (its target is also the 3rd... it is: 1st was Saturday).
    let plan = calculate_dates_and_allocation(&d(2025, 11, 3), 0);
    assert_eq!(plan.pqp_target, d(2025, 11, 3));
    assert!(plan.pqp_is_run_today);
    assert_eq!(plan.ap_target, d(2025, 11, 3));
    assert!(plan.ap_is_run_today);
    assert_eq!(plan.allocation.pqp_buy_cents, 7_000_000);
}

#[test]
fn run_plan_midweek() {
    // 2025-11-05, Wednesday: neither strategy runs.
    let plan = calculate_dates_and_allocation(&d(2025, 11, 5), 2);
    assert_eq!(plan.pqp_target, d(2025, 11, 3));
    assert!(!plan.pqp_is_run_today);
    assert_eq!(plan.ap_target, d(2025, 11, 3));
    assert!(!plan.ap_is_run_today);
    assert_eq!(plan.allocation.pqp_buy_cents, 0);
    assert_eq!(plan.allocation.ap_buy_cents, 0);
}

#[test]
fn profile_constants() {
    let pqp = StrategyProfile::pqp();
    assert_eq!(pqp.rule, RebalanceRule::WeeklyMonday);
    assert_eq!(pqp.checkpoints_tod, vec![35130, 39690, 41430, 43170]);
    assert_eq!(pqp.max_events, 14);
    assert_eq!(pqp.deadline_secs_simulation, 30);
    assert_eq!(pqp.deadline_secs_live, 270);
    assert_eq!(pqp.strategy_name, "SA_PQP");
    let ap = StrategyProfile::ap();
    assert_eq!(ap.rule, RebalanceRule::MonthlyFirstAndFifteenth);
    assert_eq!(ap.checkpoints_tod, vec![35430, 39940, 41440, 43180]);
    assert_eq!(ap.max_events, 2);
    assert_eq!(ap.strategy_name, "SA_AP");
}
