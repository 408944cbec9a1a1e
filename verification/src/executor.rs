//! The per-run trade executor: gate a scheduled run (is today the run day,
//! live or simulation, forced dry run), decide each poll tick, and enforce
//! that one session submits orders at most once and that polling stops at
//! the deadline.

use vstd::prelude::*;

use crate::calendar::{date_plus_days, valid_date, Date};
use crate::clock::{live_window_spec, now_eastern, DayStamp, LocalStamp};
use crate::detect::{LogNote, TradingSession};
use crate::error::RqError;
use crate::events::{
    count_side, events_view, orders_of_events, EventModel, RqOrder, RqOrderType, TransactionEvent,
};
use crate::profile::{
    capital_allocation_spec, monthly_target_spec, today_run_plan, RebalanceRule, RunPlan,
    StrategyProfile,
};
use crate::sizing::{determine_position_market_values, sized_event};

verus! {

/// What one poll tick decided.
pub enum TickOutcome {
    /// No events for the target date yet: sleep and retry.
    NoEvents,
    /// Implausibly many events: do not trade this tick.
    TooManyEvents { count: usize },
    /// Events found but this session has already traded.
    AlreadyTraded,
    /// Hand these sized orders to the broker layer, exactly once.
    Submit(Vec<RqOrder>),
}

/// The batch with every event's target value assigned by the equal split.
pub open spec fn sized_batch(
    evs: Seq<EventModel>,
    buy_capital_cents: u64,
    sell_capital_cents: u64,
) -> Seq<EventModel> {
    Seq::new(
        evs.len(),
        |i: int|
            sized_event(
                evs[i],
                buy_capital_cents,
                sell_capital_cents,
                count_side(evs, RqOrderType::Buy),
                count_side(evs, RqOrderType::Sell),
            ),
    )
}

/// Decide one poll tick of the executor, given the events the detector
/// returned: with no events the caller retries; with an implausible count
/// the tick is skipped; otherwise the events are sized, turned into orders
/// and submitted — unless the session has already traded.  The submission
/// flag rises exactly when orders are handed out, and never falls.
pub fn trade_tick(
    session: &mut TradingSession,
    events: Vec<TransactionEvent>,
    max_events: u64,
    buy_capital_cents: u64,
    sell_capital_cents: u64,
) -> (r: TickOutcome)
    ensures
        final(session).has_traded == (old(session).has_traded || r is Submit),
        r is Submit ==> !old(session).has_traded,
        events@.len() == 0 ==> r is NoEvents,
        events@.len() > max_events ==> (r matches TickOutcome::TooManyEvents { count } && count
            == events@.len()),
        0 < events@.len() <= max_events && old(session).has_traded ==> r is AlreadyTraded,
        0 < events@.len() <= max_events && !old(session).has_traded ==> (r matches
        TickOutcome::Submit(orders) && orders@.map_values(|o: RqOrder| o@) == orders_of_events(
            sized_batch(events_view(events@), buy_capital_cents, sell_capital_cents),
        ) && orders@.len() == events@.len()),
        final(session).is_simulation == old(session).is_simulation,
        final(session).cookie == old(session).cookie,
        final(session).cookie_file_modtime == old(session).cookie_file_modtime,
        final(session).cookie_verified_working == old(session).cookie_verified_working,
        r is NoEvents ==> final(session).run_log@ == old(session).run_log@.push(
            LogNote::NoEvents,
        ),
        r matches TickOutcome::TooManyEvents { count } ==> final(session).run_log@ == old(
            session,
        ).run_log@.push(LogNote::TooManyEvents { count }),
        r is AlreadyTraded ==> final(session).run_log@ == old(session).run_log@.push(
            LogNote::AlreadyTraded,
        ),
        r matches TickOutcome::Submit(orders) ==> final(session).run_log@ == old(
            session,
        ).run_log@.push(LogNote::TradeStarted { orders: orders@.len() as usize }),
{
    let n = events.len();
    if n == 0 {
        session.run_log.push(LogNote::NoEvents);
        return TickOutcome::NoEvents;
    }
    if n as u64 > max_events {
        session.run_log.push(LogNote::TooManyEvents { count: n });
        return TickOutcome::TooManyEvents { count: n };
    }
    if session.has_traded {
        session.run_log.push(LogNote::AlreadyTraded);
        return TickOutcome::AlreadyTraded;
    }
    let mut sized = events;
    determine_position_market_values(&mut sized, buy_capital_cents, sell_capital_cents);
    proof {
        assert(events_view(sized@) =~= sized_batch(
            events_view(events@),
            buy_capital_cents,
            sell_capital_cents,
        ));
    }
    let orders = crate::events::build_rqorders(&sized);
    proof {
        assert(orders@.len() == orders@.map_values(|o: RqOrder| o@).len());
        assert(orders_of_events(events_view(sized@)).len() == events_view(sized@).len());
        assert(events_view(sized@).len() == sized@.len());
    }
    session.has_traded = true;
    session.run_log.push(LogNote::TradeStarted { orders: orders.len() });
    TickOutcome::Submit(orders)
}

/// Whether the polling loop should run another tick: only while the
/// deadline has not passed, nothing has been traded yet, and the run is not
/// a forced single-tick dry run.  In particular, once the wall clock
/// reaches the deadline the loop always stops.
pub fn should_continue_polling(
    now_epoch: i64,
    deadline_epoch: i64,
    has_traded: bool,
    force_single_tick: bool,
) -> (r: bool)
    ensures
        r == (now_epoch < deadline_epoch && !has_traded && !force_single_tick),
        now_epoch >= deadline_epoch ==> !r,
{
    now_epoch < deadline_epoch && !has_traded && !force_single_tick
}

/// The polling deadline for a run: short for a pure simulation check, long
/// for a live run (to tolerate the data source's publish-time jitter).
pub fn loop_deadline(
    start_epoch: i64,
    is_simulation: bool,
    deadline_secs_simulation: u32,
    deadline_secs_live: u32,
) -> (r: i64)
    requires
        start_epoch + deadline_secs_simulation <= i64::MAX,
        start_epoch + deadline_secs_live <= i64::MAX,
    ensures
        is_simulation ==> r == start_epoch + deadline_secs_simulation,
        !is_simulation ==> r == start_epoch + deadline_secs_live,
{
    if is_simulation {
        start_epoch + deadline_secs_simulation as i64
    } else {
        start_epoch + deadline_secs_live as i64
    }
}

/// Gate a scheduled run: it proceeds when today is the strategy's rebalance
/// date, or unconditionally when forced by an operator — and a forced run
/// is always a simulation, whatever the live-window assessment said.
pub fn run_gate(is_run_today: bool, in_live_window: bool, forced: bool) -> (r: (bool, bool))
    ensures
        r.0 == (is_run_today || forced),
        r.1 == (forced || !in_live_window),
{
    let proceed = is_run_today || forced;
    let is_simulation = forced || !in_live_window;
    (proceed, is_simulation)
}

/// Everything one scheduled strategy run needs, computed up front: the
/// observed UTC day and Eastern moment, both strategies' plan, this
/// strategy's target date and capital, whether and how to proceed, and the
/// polling deadline.
pub struct RunSetup {
    pub today: DayStamp,
    pub now_et: LocalStamp,
    pub plan: RunPlan,
    pub target: Date,
    pub is_run_today: bool,
    pub proceed: bool,
    pub is_simulation: bool,
    pub buy_capital_cents: u64,
    pub sell_capital_cents: u64,
    pub deadline_epoch: i64,
}

/// Prepare one scheduled run of a strategy against the real clock: compute
/// today's rebalance targets and allocation, assess the live window, apply
/// the force rules (a forced run always proceeds and is always a
/// simulation), and fix the polling deadline.  A system clock outside the
/// supported year range is a configuration error.
pub fn prepare_run(profile: &StrategyProfile, forced: bool) -> (r: Result<RunSetup, RqError>)
    ensures
        r matches Ok(s) ==> {
            &&& valid_date(s.today.date)
            &&& s.today.weekday < 7
            &&& 0 < s.today.date.year <= 9998
            &&& valid_date(s.now_et.date)
            &&& s.now_et.tod_seconds < 86400
            &&& date_plus_days(s.plan.pqp_target, s.today.weekday as nat) == s.today.date
            &&& s.plan.pqp_is_run_today == (s.plan.pqp_target == s.today.date)
            &&& s.plan.ap_target == monthly_target_spec(
                s.today.date,
                s.today.weekday as int,
            ).0
            &&& s.plan.ap_is_run_today == (s.plan.ap_target == s.today.date)
            &&& s.plan.allocation == capital_allocation_spec(
                s.plan.pqp_is_run_today,
                s.plan.ap_is_run_today,
            )
            &&& profile.rule == RebalanceRule::WeeklyMonday ==> {
                &&& s.target == s.plan.pqp_target
                &&& s.is_run_today == s.plan.pqp_is_run_today
                &&& s.buy_capital_cents == s.plan.allocation.pqp_buy_cents
                &&& s.sell_capital_cents == s.plan.allocation.pqp_sell_cents
            }
            &&& profile.rule == RebalanceRule::MonthlyFirstAndFifteenth ==> {
                &&& s.target == s.plan.ap_target
                &&& s.is_run_today == s.plan.ap_is_run_today
                &&& s.buy_capital_cents == s.plan.allocation.ap_buy_cents
                &&& s.sell_capital_cents == 0
            }
            &&& s.proceed == (s.is_run_today || forced)
            &&& s.is_simulation == (forced || !(1 <= s.now_et.date.year <= 9999
                && live_window_spec(s.now_et)))
            &&& {
                let secs: u32 = if s.is_simulation {
                    profile.deadline_secs_simulation
                } else {
                    profile.deadline_secs_live
                };
                s.deadline_epoch == if s.now_et.epoch <= i64::MAX - secs {
                    s.now_et.epoch + secs
                } else {
                    i64::MAX as int
                }
            }
        },
{
    let (today, plan) = match today_run_plan() {
        Ok(p) => p,
        Err(e) => {
            return Err(e);
        },
    };
    let (target, is_run_today, buy_capital_cents, sell_capital_cents) = match profile.rule {
        RebalanceRule::WeeklyMonday => (
            plan.pqp_target,
            plan.pqp_is_run_today,
            plan.allocation.pqp_buy_cents,
            plan.allocation.pqp_sell_cents,
        ),
        RebalanceRule::MonthlyFirstAndFifteenth => (
            plan.ap_target,
            plan.ap_is_run_today,
            plan.allocation.ap_buy_cents,
            0u64,
        ),
    };
    let now_et = now_eastern();
    let live: bool = if 1 <= now_et.date.year && now_et.date.year <= 9999 {
        crate::clock::is_live_window(&now_et)
    } else {
        false
    };
    let (proceed, is_simulation) = run_gate(is_run_today, live, forced);
    let secs: u32 = if is_simulation {
        profile.deadline_secs_simulation
    } else {
        profile.deadline_secs_live
    };
    let deadline_epoch: i64 = if now_et.epoch <= i64::MAX - secs as i64 {
        now_et.epoch + secs as i64
    } else {
        i64::MAX
    };
    Ok(
        RunSetup {
            today,
            now_et,
            plan,
            target,
            is_run_today,
            proceed,
            is_simulation,
            buy_capital_cents,
            sell_capital_cents,
            deadline_epoch,
        },
    )
}

/// The loop condition against the real clock: may only answer "continue"
/// while nothing has been traded and the run is not a forced single tick,
/// and answers "stop" as soon as the wall clock reaches the deadline.
pub fn polling_gate(deadline_epoch: i64, has_traded: bool, force_single_tick: bool) -> (r: bool)
    ensures
        r ==> !has_traded && !force_single_tick,
        has_traded || force_single_tick ==> !r,
{
    let now = crate::clock::now_epoch();
    should_continue_polling(now, deadline_epoch, has_traded, force_single_tick)
}

/// How one tick moves the session's submission flag: a submission may only
/// happen when nothing was submitted before, and the flag afterwards is set
/// exactly when something has been submitted by now.
pub open spec fn tick_evolution(pre: bool, submitted: bool, post: bool) -> bool {
    &&& submitted ==> !pre
    &&& post == (pre || submitted)
}

/// How many ticks of a run submitted.
pub open spec fn count_submits(subs: Seq<bool>) -> int
    decreases subs.len(),
{
    if subs.len() == 0 {
        0int
    } else {
        count_submits(subs.drop_last()) + if subs.last() {
            1int
        } else {
            0int
        }
    }
}

/// While the submission flag is still down at tick `k`, no earlier tick
/// submitted.
proof fn lemma_no_submits_while_untraded(flags: Seq<bool>, subs: Seq<bool>, k: int)
    requires
        flags.len() == subs.len() + 1,
        forall|i: int| 0 <= i < subs.len() ==> tick_evolution(flags[i], subs[i], flags[i + 1]),
        0 <= k <= subs.len(),
        !flags[k],
    ensures
        count_submits(subs.subrange(0, k)) == 0,
    decreases k,
{
    if k == 0 {
        assert(subs.subrange(0, 0) =~= Seq::<bool>::empty());
    } else {
        assert(tick_evolution(flags[k - 1], subs[k - 1], flags[k]));
        lemma_no_submits_while_untraded(flags, subs, k - 1);
        let p = subs.subrange(0, k);
        assert(p.drop_last() =~= subs.subrange(0, k - 1));
        assert(p.last() == subs[k - 1]);
    }
}

/// Exactly-once law: over any sequence of poll ticks of one session that
/// starts with nothing submitted, where each tick respects the executor's
/// tick contract (`tick_evolution` over the session's submission flag),
/// orders are submitted at most once — however many ticks found events.
pub proof fn lemma_submit_at_most_once(flags: Seq<bool>, subs: Seq<bool>)
    requires
        flags.len() == subs.len() + 1,
        !flags[0],
        forall|i: int| 0 <= i < subs.len() ==> tick_evolution(flags[i], subs[i], flags[i + 1]),
    ensures
        count_submits(subs) <= 1,
    decreases subs.len(),
{
    let n = subs.len() as int;
    if n == 0 {
    } else if subs.last() {
        assert(tick_evolution(flags[n - 1], subs[n - 1], flags[n]));
        assert(!flags[n - 1]);
        lemma_no_submits_while_untraded(flags, subs, n - 1);
        assert(subs.drop_last() =~= subs.subrange(0, n - 1));
    } else {
        let f2 = flags.subrange(0, n);
        let s2 = subs.drop_last();
        assert(s2 =~= subs.subrange(0, n - 1));
        assert(forall|i: int|
            0 <= i < s2.len() ==> tick_evolution(f2[i], s2[i], f2[i + 1]) == tick_evolution(
                flags[i],
                subs[i],
                flags[i + 1],
            ));
        lemma_submit_at_most_once(f2, s2);
    }
}

} // verus!
