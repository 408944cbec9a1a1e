use rqcore::events::{MarketValue, RqOrder, RqOrderType};
use rqcore::pricing::{parse_price_cents, plan_order, resolve_price, OrderPlan, SkipReason};

fn order(side: RqOrderType, value: MarketValue, known: Option<u64>) -> RqOrder {
    RqOrder {
        order_type: side,
        ticker: "T".to_string(),
        company_name: "T".to_string(),
        pos_market_value: value,
        known_last_price: known,
    }
}

#[test]
fn decimal_prices_parse_to_cents() {
    assert_eq!(parse_price_cents(b"182.50"), Some(18250));
    assert_eq!(parse_price_cents(b"182.5"), Some(18250));
    assert_eq!(parse_price_cents(b"182"), Some(18200));
    assert_eq!(parse_price_cents(b"0.07"), Some(7));
    assert_eq!(parse_price_cents(b"0"), Some(0));
}

#[test]
fn non_prices_do_not_parse() {
    assert_eq!(parse_price_cents(b"Scheduled"), None);
    assert_eq!(parse_price_cents(b""), None);
    assert_eq!(parse_price_cents(b"."), None);
    assert_eq!(parse_price_cents(b".5"), None);
    assert_eq!(parse_price_cents(b"182."), None);
    assert_eq!(parse_price_cents(b"182.505"), None);
    assert_eq!(parse_price_cents(b"1 2"), None);
    assert_eq!(parse_price_cents(b"-5"), None);
    assert_eq!(parse_price_cents(b"1.2.3"), None);
}

#[test]
fn known_price_resolves_without_any_live_tick() {
    // An event with a known price of "182.50" resolves to 182.50 (18250
    // cents) with no live stream consulted.
    let known = parse_price_cents(b"182.50");
    assert_eq!(resolve_price(known, None), Some(18250));
    // The live tick is ignored when a known price exists.
    assert_eq!(resolve_price(known, Some(99999)), Some(18250));
}

#[test]
fn missing_price_and_no_tick_is_unresolved_not_a_crash() {
    assert_eq!(resolve_price(None, None), None);
    let o = order(RqOrderType::Buy, MarketValue { num_cents: 7_000_000, den: 3 }, None);
    assert_eq!(plan_order(&o, None, false), OrderPlan::Skip(SkipReason::PriceUnresolved));
}

#[test]
fn live_tick_fills_in_for_missing_price() {
    assert_eq!(resolve_price(None, Some(18250)), Some(18250));
}

#[test]
fn plan_computes_shares_and_limits() {
    // $70,000/3 at $182.50: floor(7000000 / (3 * 18250)) = 127 shares,
    // buy limit 2.1% above, rounded to cents: $186.33.
    let o = order(RqOrderType::Buy, MarketValue { num_cents: 7_000_000, den: 3 }, Some(18250));
    assert_eq!(plan_order(&o, None, false), OrderPlan::Execute { shares: 127, limit_cents: 18633 });
    // Sell: 2.1% below, $178.67.
    let o2 = order(RqOrderType::Sell, MarketValue { num_cents: 6_000_000, den: 1 }, Some(18250));
    assert_eq!(plan_order(&o2, None, false), OrderPlan::Execute { shares: 328, limit_cents: 17867 });
}

#[test]
fn plan_skips_zero_value_and_zero_share_orders() {
    // Zero target value: zero shares.
    let o = order(RqOrderType::Buy, MarketValue { num_cents: 0, den: 1 }, Some(18250));
    assert_eq!(plan_order(&o, None, false), OrderPlan::Skip(SkipReason::TooFewShares));
    // Value smaller than one share's price.
    let o2 = order(RqOrderType::Buy, MarketValue { num_cents: 10000, den: 1 }, Some(18250));
    assert_eq!(plan_order(&o2, None, false), OrderPlan::Skip(SkipReason::TooFewShares));
    // A zero price can buy nothing meaningful and is treated as unresolved.
    let o3 = order(RqOrderType::Buy, MarketValue { num_cents: 10000, den: 1 }, Some(0));
    assert_eq!(plan_order(&o3, None, false), OrderPlan::Skip(SkipReason::PriceUnresolved));
}

#[test]
fn plan_uses_live_tick_when_no_known_price() {
    let o = order(RqOrderType::Buy, MarketValue { num_cents: 7_000_000, den: 2 }, None);
    assert_eq!(
        plan_order(&o, Some(10000), false),
        OrderPlan::Execute { shares: 350, limit_cents: 10210 }
    );
}

#[test]
fn simulation_mode_never_submits() {
    // All steps run, but the final submission becomes a dry run.
    let o = order(RqOrderType::Buy, MarketValue { num_cents: 7_000_000, den: 3 }, Some(18250));
    assert_eq!(
        plan_order(&o, None, true),
        OrderPlan::DryRun { shares: 127, limit_cents: 18633 }
    );
    // Skips are unaffected by the mode.
    let o2 = order(RqOrderType::Buy, MarketValue { num_cents: 0, den: 1 }, Some(18250));
    assert_eq!(plan_order(&o2, None, true), OrderPlan::Skip(SkipReason::TooFewShares));
}
