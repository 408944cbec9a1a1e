//! Per-strategy configuration and the rebalance-date rules: weekly
//! (current-or-most-recent Monday) and monthly (1st or 15th, rolled forward
//! past a weekend), together with the buy/sell capital allocation table.

use vstd::prelude::*;

use crate::calendar::{
    add_days, date_plus_days, days_in_month, days_in_month_exec, next_date, valid_date, Date,
    WD_SATURDAY, WD_SUNDAY,
};
use crate::clock::{today_utc, DayStamp};
use crate::error::RqError;

verus! {

/// Which calendar rule determines a strategy's rebalance date.
#[derive(Clone, Copy, Debug, PartialEq, Eq, Structural)]
pub enum RebalanceRule {
    /// Rebalances on Mondays; the target date is the current or most recent
    /// Monday.
    WeeklyMonday,
    /// Rebalances on the 1st and the 15th, rolled forward to Monday when the
    /// nominal day falls on a weekend.
    MonthlyFirstAndFifteenth,
}

/// Immutable per-strategy configuration.
pub struct StrategyProfile {
    /// Label used when handing orders to the broker layer.
    pub strategy_name: String,
    /// The calendar rule for the strategy's rebalance date.
    pub rule: RebalanceRule,
    /// Daily run checkpoints, as local times of day in seconds.
    pub checkpoints_tod: Vec<u32>,
    /// Sleep between poll ticks in simulation mode, milliseconds.
    pub loop_sleep_ms_simulation: u32,
    /// Sleep between poll ticks in live mode, milliseconds.
    pub loop_sleep_ms_realtrading: u32,
    /// Polling window length for a pure simulation run, seconds.
    pub deadline_secs_simulation: u32,
    /// Polling window length for a live run, seconds.
    pub deadline_secs_live: u32,
    /// More detected events than this aborts the run as implausible.
    pub max_events: u64,
}

impl StrategyProfile {
    /// The quant-pro portfolio strategy: weekly Monday rebalances,
    /// four daily checkpoints, at most 14 plausible events.
    pub fn pqp() -> (r: StrategyProfile)
        ensures
            r.rule == RebalanceRule::WeeklyMonday,
            r.checkpoints_tod@ =~= seq![35130u32, 39690u32, 41430u32, 43170u32],
            r.loop_sleep_ms_simulation == 3750,
            r.loop_sleep_ms_realtrading == 0,
            r.deadline_secs_simulation == 30,
            r.deadline_secs_live == 270,
            r.max_events == 14,
            r.strategy_name@ == "SA_PQP"@,
    {
        let mut cps: Vec<u32> = Vec::new();
        cps.push(35130);  // 09:45:30
        cps.push(39690);  // 11:01:30
        cps.push(41430);  // 11:30:30
        cps.push(43170);  // 11:59:30
        StrategyProfile {
            strategy_name: String::from_str("SA_PQP"),
            rule: RebalanceRule::WeeklyMonday,
            checkpoints_tod: cps,
            loop_sleep_ms_simulation: 3750,
            loop_sleep_ms_realtrading: 0,
            deadline_secs_simulation: 30,
            deadline_secs_live: 270,
            max_events: 14,
        }
    }

    /// The alpha-picks strategy: monthly 1st/15th rebalances,
    /// four daily checkpoints, at most 2 plausible events.
    pub fn ap() -> (r: StrategyProfile)
        ensures
            r.rule == RebalanceRule::MonthlyFirstAndFifteenth,
            r.checkpoints_tod@ =~= seq![35430u32, 39940u32, 41440u32, 43180u32],
            r.loop_sleep_ms_simulation == 3750,
            r.loop_sleep_ms_realtrading == 0,
            r.deadline_secs_simulation == 30,
            r.deadline_secs_live == 270,
            r.max_events == 2,
            r.strategy_name@ == "SA_AP"@,
    {
        let mut cps: Vec<u32> = Vec::new();
        cps.push(35430);  // 09:50:30
        cps.push(39940);  // 11:05:40
        cps.push(41440);  // 11:30:40
        cps.push(43180);  // 11:59:40
        StrategyProfile {
            strategy_name: String::from_str("SA_AP"),
            rule: RebalanceRule::MonthlyFirstAndFifteenth,
            checkpoints_tod: cps,
            loop_sleep_ms_simulation: 3750,
            loop_sleep_ms_realtrading: 0,
            deadline_secs_simulation: 30,
            deadline_secs_live: 270,
            max_events: 2,
        }
    }
}

/// The calendar predecessor of a valid date.
fn prev_date_exec(d: &Date) -> (r: Date)
    requires
        valid_date(*d),
        d.year > i32::MIN,
    ensures
        valid_date(r),
        next_date(r) == *d,
        r.year >= d.year - 1,
{
    if d.day > 1 {
        Date { year: d.year, month: d.month, day: d.day - 1 }
    } else if d.month > 1 {
        let pm = d.month - 1;
        let dim = days_in_month_exec(d.year, pm);
        Date { year: d.year, month: pm, day: dim }
    } else {
        Date { year: d.year - 1, month: 12, day: 31 }
    }
}

/// `d` moved back by `k` days.
fn sub_days(d: &Date, k: u8) -> (r: Date)
    requires
        valid_date(*d),
        d.year - k > i32::MIN,
    ensures
        valid_date(r),
        date_plus_days(r, k as nat) == *d,
        r.year >= d.year - k,
{
    let mut cur: Date = *d;
    let mut i: u8 = 0;
    while i < k
        invariant
            valid_date(cur),
            i <= k,
            d.year - k > i32::MIN,
            cur.year >= d.year - i,
            date_plus_days(cur, i as nat) == *d,
        decreases k - i,
    {
        let prev = prev_date_exec(&cur);
        proof {
            assert(date_plus_days(prev, (i + 1) as nat) == date_plus_days(cur, i as nat));
        }
        cur = prev;
        i = i + 1;
    }
    cur
}

/// The weekly rule's target: the current or most recent Monday, i.e. today
/// moved back by the number of days since Monday.
///
/// `weekday` is today's day of week with Monday as 0.
pub fn weekly_target(today: &Date, weekday: u8) -> (r: Date)
    requires
        valid_date(*today),
        weekday < 7,
        today.year - 7 > i32::MIN,
    ensures
        valid_date(r),
        date_plus_days(r, weekday as nat) == *today,
        weekday == 0 ==> r == *today,
{
    sub_days(today, weekday)
}

/// The nominal monthly rebalance day: the 15th once the month has reached it,
/// otherwise the 1st.
pub open spec fn monthly_candidate(today: Date) -> Date {
    if today.day >= 15 {
        Date { year: today.year, month: today.month, day: 15 }
    } else {
        Date { year: today.year, month: today.month, day: 1 }
    }
}

/// The day of week of the monthly candidate, given today's day of week
/// (Monday as 0): today's weekday shifted back by the days between them.
pub open spec fn candidate_weekday(today: Date, weekday: int) -> int {
    (weekday - (today.day - monthly_candidate(today).day)) % 7
}

/// The monthly rule's target date and its day of week: the candidate, rolled
/// forward to Monday when it falls on Saturday or Sunday.
pub open spec fn monthly_target_spec(today: Date, weekday: int) -> (Date, int) {
    let cand = monthly_candidate(today);
    let cwd = candidate_weekday(today, weekday);
    if cwd == WD_SATURDAY {
        (date_plus_days(cand, 2), 0)
    } else if cwd == WD_SUNDAY {
        (date_plus_days(cand, 1), 0)
    } else {
        (cand, cwd)
    }
}

/// Compute the monthly rule's target date.  Returns the target and its day
/// of week (Monday as 0).
pub fn monthly_target(today: &Date, weekday: u8) -> (r: (Date, u8))
    requires
        valid_date(*today),
        weekday < 7,
        today.year + 3 <= i32::MAX,
    ensures
        (r.0, r.1 as int) == monthly_target_spec(*today, weekday as int),
        valid_date(r.0),
        r.1 < 7,
{
    let cand_day: u8 = if today.day >= 15 {
        15
    } else {
        1
    };
    let cand = Date { year: today.year, month: today.month, day: cand_day };
    let back: u8 = today.day - cand_day;
    let cwd: u8 = ((weekday as u32 + 35 - back as u32) % 7) as u8;
    proof {
        assert((weekday as int + 35 - back as int) % 7 == (weekday as int - back as int) % 7) by (
        nonlinear_arith);
        assert(0 <= (weekday as int - back as int) % 7 < 7) by (nonlinear_arith);
    }
    if cwd == WD_SATURDAY {
        (add_days(&cand, 2), 0)
    } else if cwd == WD_SUNDAY {
        (add_days(&cand, 1), 0)
    } else {
        (cand, cwd)
    }
}

/// Weekend roll-forward of the monthly rule: a candidate that falls on
/// Saturday moves two days to the following Monday (the 1st becomes the 3rd,
/// the 15th the 17th); one that falls on Sunday moves one day (the 1st
/// becomes the 2nd, the 15th the 16th).  The month and year never change.
pub proof fn lemma_monthly_weekend_rollforward(today: Date, weekday: int)
    requires
        valid_date(today),
        0 <= weekday < 7,
    ensures
        candidate_weekday(today, weekday) == WD_SATURDAY ==> {
            let (t, twd) = monthly_target_spec(today, weekday);
            &&& t.day == monthly_candidate(today).day + 2
            &&& t.month == today.month
            &&& t.year == today.year
            &&& twd == 0
        },
        candidate_weekday(today, weekday) == WD_SUNDAY ==> {
            let (t, twd) = monthly_target_spec(today, weekday);
            &&& t.day == monthly_candidate(today).day + 1
            &&& t.month == today.month
            &&& t.year == today.year
            &&& twd == 0
        },
{
    let cand = monthly_candidate(today);
    assert(days_in_month(cand.year as int, cand.month as int) >= 28);
    let n1 = next_date(cand);
    assert(n1.day == cand.day + 1 && n1.month == cand.month && n1.year == cand.year);
    let n2 = next_date(n1);
    assert(n2.day == cand.day + 2 && n2.month == cand.month && n2.year == cand.year);
    assert(date_plus_days(cand, 1) == date_plus_days(n1, 0));
    assert(date_plus_days(cand, 2) == date_plus_days(n1, 1));
    assert(date_plus_days(n1, 1) == date_plus_days(n2, 0));
}

/// Buy/sell capital to deploy for each strategy, in cents.
#[derive(Clone, Copy, Debug, PartialEq, Eq, Structural)]
pub struct CapitalAllocation {
    pub pqp_buy_cents: u64,
    pub pqp_sell_cents: u64,
    pub ap_buy_cents: u64,
}

/// The capital split between the two strategies, depending on which of them
/// rebalances today.  When both run the capital is divided; when only one
/// runs it receives the whole budget; when neither runs nothing is deployed.
pub fn capital_allocation(pqp_runs_today: bool, ap_runs_today: bool) -> (r: CapitalAllocation)
    ensures
        pqp_runs_today && ap_runs_today ==> r == (CapitalAllocation {
            pqp_buy_cents: 7_000_000,
            pqp_sell_cents: 6_000_000,
            ap_buy_cents: 7_000_000,
        }),
        pqp_runs_today && !ap_runs_today ==> r == (CapitalAllocation {
            pqp_buy_cents: 14_000_000,
            pqp_sell_cents: 6_000_000,
            ap_buy_cents: 0,
        }),
        !pqp_runs_today && ap_runs_today ==> r == (CapitalAllocation {
            pqp_buy_cents: 0,
            pqp_sell_cents: 0,
            ap_buy_cents: 20_000_000,
        }),
        !pqp_runs_today && !ap_runs_today ==> r == (CapitalAllocation {
            pqp_buy_cents: 0,
            pqp_sell_cents: 0,
            ap_buy_cents: 0,
        }),
{
    if pqp_runs_today && ap_runs_today {
        CapitalAllocation { pqp_buy_cents: 7_000_000, pqp_sell_cents: 6_000_000, ap_buy_cents: 7_000_000 }
    } else if pqp_runs_today {
        CapitalAllocation { pqp_buy_cents: 14_000_000, pqp_sell_cents: 6_000_000, ap_buy_cents: 0 }
    } else if ap_runs_today {
        CapitalAllocation { pqp_buy_cents: 0, pqp_sell_cents: 0, ap_buy_cents: 20_000_000 }
    } else {
        CapitalAllocation { pqp_buy_cents: 0, pqp_sell_cents: 0, ap_buy_cents: 0 }
    }
}

/// Everything the two strategies need to know about today: each rule's
/// target date, whether today is that date, and the capital allocation.
pub struct RunPlan {
    pub pqp_target: Date,
    pub pqp_is_run_today: bool,
    pub ap_target: Date,
    pub ap_is_run_today: bool,
    pub allocation: CapitalAllocation,
}

/// Compute both strategies' target rebalance dates and the capital
/// allocation from today's date and day of week (Monday as 0).
pub fn calculate_dates_and_allocation(today: &Date, weekday: u8) -> (r: RunPlan)
    requires
        valid_date(*today),
        weekday < 7,
        0 < today.year <= i32::MAX - 3,
    ensures
        valid_date(r.pqp_target),
        date_plus_days(r.pqp_target, weekday as nat) == *today,
        r.pqp_is_run_today == (r.pqp_target == *today),
        r.ap_target == monthly_target_spec(*today, weekday as int).0,
        r.ap_is_run_today == (r.ap_target == *today),
        r.allocation == capital_allocation_spec(r.pqp_is_run_today, r.ap_is_run_today),
{
    let pqp_target = weekly_target(today, weekday);
    let pqp_is_run_today = pqp_target == *today;
    let (ap_target, _ap_wd) = monthly_target(today, weekday);
    let ap_is_run_today = ap_target == *today;
    let allocation = capital_allocation(pqp_is_run_today, ap_is_run_today);
    RunPlan { pqp_target, pqp_is_run_today, ap_target, ap_is_run_today, allocation }
}


/// Today's run plan, computed from the real UTC clock: the observed day is
/// returned beside the plan, and the plan follows the two rebalance-date
/// rules and the allocation table for exactly that day.  A system clock
/// outside the supported year range is a configuration error.
pub fn today_run_plan() -> (r: Result<(DayStamp, RunPlan), RqError>)
    ensures
        r matches Ok(p) ==> {
            &&& valid_date(p.0.date)
            &&& p.0.weekday < 7
            &&& 0 < p.0.date.year <= 9998
            &&& valid_date(p.1.pqp_target)
            &&& date_plus_days(p.1.pqp_target, p.0.weekday as nat) == p.0.date
            &&& p.1.pqp_is_run_today == (p.1.pqp_target == p.0.date)
            &&& p.1.ap_target == monthly_target_spec(p.0.date, p.0.weekday as int).0
            &&& p.1.ap_is_run_today == (p.1.ap_target == p.0.date)
            &&& p.1.allocation == capital_allocation_spec(
                p.1.pqp_is_run_today,
                p.1.ap_is_run_today,
            )
        },
{
    let today = today_utc();
    if today.date.year < 1 || today.date.year > 9998 {
        return Err(RqError::Config(String::from_str("system clock out of supported range")));
    }
    let plan = calculate_dates_and_allocation(&today.date, today.weekday);
    Ok((today, plan))
}

/// The allocation table of `capital_allocation` as a spec function.
pub open spec fn capital_allocation_spec(pqp: bool, ap: bool) -> CapitalAllocation {
    if pqp && ap {
        CapitalAllocation { pqp_buy_cents: 7_000_000, pqp_sell_cents: 6_000_000, ap_buy_cents: 7_000_000 }
    } else if pqp {
        CapitalAllocation { pqp_buy_cents: 14_000_000, pqp_sell_cents: 6_000_000, ap_buy_cents: 0 }
    } else if ap {
        CapitalAllocation { pqp_buy_cents: 0, pqp_sell_cents: 0, ap_buy_cents: 20_000_000 }
    } else {
        CapitalAllocation { pqp_buy_cents: 0, pqp_sell_cents: 0, ap_buy_cents: 0 }
    }
}

} // verus!
