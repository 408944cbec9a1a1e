//! Position sizing: split each side's capital evenly across that side's
//! events.  The assigned target value is the exact fraction
//! `capital / count`, so no remainder is ever lost.

use vstd::prelude::*;

use crate::events::{
    count_side, events_view, EventModel, MarketValue, RqOrderType, TransactionEvent,
};

verus! {

/// The event with its target market value assigned: the side's capital
/// split evenly across the side's event count.
pub open spec fn sized_event(
    e: EventModel,
    buy_capital_cents: u64,
    sell_capital_cents: u64,
    buys: int,
    sells: int,
) -> EventModel {
    if e.order_type == RqOrderType::Buy {
        EventModel { pos_market_value: MarketValue { num_cents: buy_capital_cents, den: buys as u64 }, ..e }
    } else {
        EventModel {
            pos_market_value: MarketValue { num_cents: sell_capital_cents, den: sells as u64 },
            ..e
        }
    }
}

/// A batch that contains an event of a side has a positive count for that
/// side, so an assigned value's denominator is never zero.
pub proof fn lemma_count_side_positive(evs: Seq<EventModel>, i: int, side: RqOrderType)
    requires
        0 <= i < evs.len(),
        evs[i].order_type == side,
    ensures
        count_side(evs, side) >= 1,
        count_side(evs, side) <= evs.len(),
    decreases evs.len(),
{
    lemma_count_side_bounds(evs, side);
    if i == evs.len() - 1 {
        assert(evs.last() == evs[i]);
        lemma_count_side_bounds(evs.drop_last(), side);
    } else {
        assert(evs.drop_last()[i] == evs[i]);
        lemma_count_side_positive(evs.drop_last(), i, side);
    }
}

/// A side's count never exceeds the batch size.
pub proof fn lemma_count_side_bounds(evs: Seq<EventModel>, side: RqOrderType)
    ensures
        0 <= count_side(evs, side) <= evs.len(),
    decreases evs.len(),
{
    if evs.len() > 0 {
        lemma_count_side_bounds(evs.drop_last(), side);
    }
}

/// Assign each event its target market value: the batch's buy capital is
/// split evenly across the buy events, the sell capital across the sell
/// events.  Each buy event receives exactly `buy capital / number of buys`
/// (as an exact fraction), each sell event exactly
/// `sell capital / number of sells`; nothing else of the event changes.
pub fn determine_position_market_values(
    events: &mut Vec<TransactionEvent>,
    buy_capital_cents: u64,
    sell_capital_cents: u64,
)
    ensures
        final(events)@.len() == old(events)@.len(),
        forall|i: int|
            0 <= i < old(events)@.len() ==> events_view(final(events)@)[i] == sized_event(
                events_view(old(events)@)[i],
                buy_capital_cents,
                sell_capital_cents,
                count_side(events_view(old(events)@), RqOrderType::Buy),
                count_side(events_view(old(events)@), RqOrderType::Sell),
            ),
{
    let ghost evm = events_view(old(events)@);
    let (buys, sells) = crate::events::count_order_types(events);
    let mut out: Vec<TransactionEvent> = Vec::new();
    let mut i: usize = 0;
    proof {
        lemma_count_side_bounds(evm, RqOrderType::Buy);
        lemma_count_side_bounds(evm, RqOrderType::Sell);
    }
    while i < events.len()
        invariant
            evm == events_view(events@),
            i <= events@.len(),
            evm.len() == events@.len(),
            buys == count_side(evm, RqOrderType::Buy),
            sells == count_side(evm, RqOrderType::Sell),
            out@.len() == i,
            forall|k: int|
                0 <= k < i ==> events_view(out@)[k] == sized_event(
                    evm[k],
                    buy_capital_cents,
                    sell_capital_cents,
                    count_side(evm, RqOrderType::Buy),
                    count_side(evm, RqOrderType::Sell),
                ),
        decreases events@.len() - i,
    {
        let e = &events[i];
        let value = if matches!(e.order_type, RqOrderType::Buy) {
            MarketValue { num_cents: buy_capital_cents, den: buys as u64 }
        } else {
            MarketValue { num_cents: sell_capital_cents, den: sells as u64 }
        };
        let sized = TransactionEvent {
            transaction_id: e.transaction_id.clone(),
            order_type: e.order_type,
            action_date: e.action_date,
            ticker: e.ticker.clone(),
            company_name: e.company_name.clone(),
            starting_weight: clone_opt_str(&e.starting_weight),
            new_weight: clone_opt_str(&e.new_weight),
            price: clone_opt_str(&e.price),
            pos_market_value: value,
        };
        let ghost prev = out@;
        out.push(sized);
        proof {
            assert(evm[i as int] == e@);
            assert(out@.last()@ == sized_event(
                evm[i as int],
                buy_capital_cents,
                sell_capital_cents,
                count_side(evm, RqOrderType::Buy),
                count_side(evm, RqOrderType::Sell),
            ));
            assert forall|k: int| 0 <= k < i + 1 implies events_view(out@)[k] == sized_event(
                evm[k],
                buy_capital_cents,
                sell_capital_cents,
                count_side(evm, RqOrderType::Buy),
                count_side(evm, RqOrderType::Sell),
            ) by {
                assert(events_view(out@)[k] == out@[k]@);
                if k < i {
                    assert(out@[k] == prev[k]);
                    assert(events_view(prev)[k] == prev[k]@);
                } else {
                    assert(out@[k] == out@.last());
                }
            }
        }
        i = i + 1;
    }
    *events = out;
}

/// Clone an optional string.
fn clone_opt_str(o: &Option<String>) -> (r: Option<String>)
    ensures
        crate::events::opt_view(r) == crate::events::opt_view(*o),
{
    match o {
        Some(s) => Some(s.clone()),
        None => None,
    }
}

} // verus!
