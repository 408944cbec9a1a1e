use rqcore::calendar::Date;
use rqcore::detect::TradingSession;
use rqcore::events::{MarketValue, RqOrderType, TransactionEvent};
use rqcore::executor::{loop_deadline, run_gate, should_continue_polling, trade_tick, TickOutcome};
use rqcore::sizing::determine_position_market_values;

fn ev(side: RqOrderType, ticker: &str, price: Option<&str>) -> TransactionEvent {
    TransactionEvent {
        transaction_id: ticker.to_string(),
        order_type: side,
        action_date: Date { year: 2025, month: 11, day: 3 },
        ticker: ticker.to_string(),
        company_name: ticker.to_string(),
        starting_weight: None,
        new_weight: None,
        price: price.map(|s| s.to_string()),
        pos_market_value: MarketValue { num_cents: 0, den: 1 },
    }
}

#[test]
fn exactly_once_across_ticks() {
    // The detector "finds" events on two consecutive ticks; orders are
    // submitted exactly once.
    let mut session = TradingSession::new();
    let events1 = vec![ev(RqOrderType::Buy, "AAPL", Some("182.50"))];
    let events2 = vec![ev(RqOrderType::Buy, "AAPL", Some("182.50"))];
    let mut submissions = 0;
    match trade_tick(&mut session, events1, 14, 7_000_000, 6_000_000) {
        TickOutcome::Submit(orders) => {
            submissions += 1;
            assert_eq!(orders.len(), 1);
        }
        _ => panic!("first tick with events must submit"),
    }
    assert!(session.has_traded);
    match trade_tick(&mut session, events2, 14, 7_000_000, 6_000_000) {
        TickOutcome::AlreadyTraded => {}
        TickOutcome::Submit(_) => {
            submissions += 1;
            panic!("second tick must not submit again");
        }
        _ => panic!("second tick with events must report AlreadyTraded"),
    }
    assert_eq!(submissions, 1);
}

#[test]
fn no_events_means_retry() {
    let mut session = TradingSession::new();
    match trade_tick(&mut session, Vec::new(), 14, 7_000_000, 6_000_000) {
        TickOutcome::NoEvents => {}
        _ => panic!("zero events must yield NoEvents"),
    }
    assert!(!session.has_traded);
}

#[test]
fn implausibly_many_events_skip_trading() {
    let mut session = TradingSession::new();
    let events: Vec<TransactionEvent> =
        (0..15).map(|i| ev(RqOrderType::Buy, &format!("T{}", i), None)).collect();
    match trade_tick(&mut session, events, 14, 7_000_000, 6_000_000) {
        TickOutcome::TooManyEvents { count } => assert_eq!(count, 15),
        _ => panic!("15 events with a cap of 14 must be rejected"),
    }
    assert!(!session.has_traded);
}

#[test]
fn submitted_orders_are_sized_and_priced() {
    let mut session = TradingSession::new();
    let events = vec![
        ev(RqOrderType::Buy, "A", Some("100.00")),
        ev(RqOrderType::Buy, "B", None),
        ev(RqOrderType::Sell, "C", Some("50.00")),
    ];
    match trade_tick(&mut session, events, 14, 7_000_000, 6_000_000) {
        TickOutcome::Submit(orders) => {
            assert_eq!(orders.len(), 3);
            // Two buys split the buy capital; the sell takes the whole sell capital.
            assert_eq!(orders[0].pos_market_value, MarketValue { num_cents: 7_000_000, den: 2 });
            assert_eq!(orders[1].pos_market_value, MarketValue { num_cents: 7_000_000, den: 2 });
            assert_eq!(orders[2].pos_market_value, MarketValue { num_cents: 6_000_000, den: 1 });
            assert_eq!(orders[0].known_last_price, Some(10000));
            assert_eq!(orders[1].known_last_price, None);
            assert_eq!(orders[2].known_last_price, Some(5000));
        }
        _ => panic!("expected submission"),
    }
}

#[test]
fn deadline_terminates_polling() {
    // At or past the deadline the loop never continues, whatever else holds.
    assert!(!should_continue_polling(100, 100, false, false));
    assert!(!should_continue_polling(101, 100, false, false));
    assert!(should_continue_polling(99, 100, false, false));
    // A submission or a forced single-tick run also stops the loop.
    assert!(!should_continue_polling(99, 100, true, false));
    assert!(!should_continue_polling(99, 100, false, true));
}

#[test]
fn deadline_is_short_for_simulation_and_long_for_live() {
    assert_eq!(loop_deadline(1000, true, 30, 270), 1030);
    assert_eq!(loop_deadline(1000, false, 30, 270), 1270);
}

#[test]
fn forced_runs_proceed_and_stay_simulated() {
    assert_eq!(run_gate(false, true, true), (true, true));
    assert_eq!(run_gate(true, true, false), (true, false));
    assert_eq!(run_gate(true, false, false), (true, true));
    assert_eq!(run_gate(false, false, false), (false, true));
}

#[test]
fn equal_split_sizing_is_exact() {
    // Buy capital of $70,000 over 3 buy events: each target value is
    // exactly 70000/3 dollars (the fraction 7000000 cents / 3).
    let mut events = vec![
        ev(RqOrderType::Buy, "A", None),
        ev(RqOrderType::Buy, "B", None),
        ev(RqOrderType::Buy, "C", None),
    ];
    determine_position_market_values(&mut events, 7_000_000, 6_000_000);
    for e in &events {
        assert_eq!(e.pos_market_value, MarketValue { num_cents: 7_000_000, den: 3 });
    }
}

#[test]
fn zero_events_produce_no_orders_and_no_panic() {
    let mut events: Vec<TransactionEvent> = Vec::new();
    determine_position_market_values(&mut events, 7_000_000, 6_000_000);
    assert!(events.is_empty());
    let orders = rqcore::events::build_rqorders(&events);
    assert!(orders.is_empty());
}

#[test]
fn forced_run_proceeds_as_simulation() {
    // Exercises the real-clock run preparation: a forced run always
    // proceeds and is always a simulation, with the short deadline.
    let profile = rqcore::profile::StrategyProfile::pqp();
    let setup = rqcore::executor::prepare_run(&profile, true).unwrap();
    assert!(setup.proceed);
    assert!(setup.is_simulation);
    assert!(setup.deadline_epoch >= setup.now_et.epoch);
    assert!(setup.deadline_epoch <= setup.now_et.epoch.saturating_add(30));
}
