//! Price handling: strict decimal-string parsing into integer cents,
//! best-effort price resolution (known price first, live tick second),
//! and the per-order plan (share count and offset limit price).

use vstd::prelude::*;

use crate::events::{MarketValue, RqOrder, RqOrderType};
use crate::strutil::{all_digits, digit_val, digits_value, is_digit, lemma_digits_value_nonneg};

verus! {

/// Largest price accepted, in cents; anything above is treated as unusable.
pub const PRICE_CENTS_MAX: u64 = 10_000_000_000_000;

/// `s` splits at position `k` into a non-empty digit run, a dot, and one or
/// two fraction digits.
pub open spec fn price_split_at(s: Seq<u8>, k: int) -> bool {
    &&& 1 <= k
    &&& k < s.len()
    &&& s[k] == 46
    &&& all_digits(s.subrange(0, k))
    &&& all_digits(s.subrange(k + 1, s.len() as int))
    &&& 1 <= s.len() - (k + 1) <= 2
}

/// The exact value in cents that a price string denotes: either a plain
/// digit run (whole dollars) or digits, a dot, and one or two fraction
/// digits.  Anything else — and any value above `PRICE_CENTS_MAX` — has no
/// usable price.
pub open spec fn parse_price_spec(s: Seq<u8>) -> Option<u64> {
    if s.len() > 0 && all_digits(s) {
        let v = digits_value(s) * 100;
        if v <= PRICE_CENTS_MAX {
            Some(v as u64)
        } else {
            None
        }
    } else if exists|k: int| price_split_at(s, k) {
        let k = choose|k: int| price_split_at(s, k);
        let frac = s.subrange(k + 1, s.len() as int);
        let scale: int = if frac.len() == 1 {
            10
        } else {
            1
        };
        let v = digits_value(s.subrange(0, k)) * 100 + digits_value(frac) * scale;
        if v <= PRICE_CENTS_MAX {
            Some(v as u64)
        } else {
            None
        }
    } else {
        None
    }
}

/// A dot position satisfying `price_split_at` is unique.
proof fn lemma_price_split_unique(s: Seq<u8>, k1: int, k2: int)
    requires
        price_split_at(s, k1),
        price_split_at(s, k2),
    ensures
        k1 == k2,
{
    if k1 < k2 {
        assert(is_digit(s.subrange(0, k2)[k1]));
    }
    if k2 < k1 {
        assert(is_digit(s.subrange(0, k1)[k2]));
    }
}

/// Parse a decimal price string into cents.
pub fn parse_price_cents(s: &[u8]) -> (r: Option<u64>)
    ensures
        r == parse_price_spec(s@),
{
    let len: usize = s.len();
    if len == 0 {
        return None;
    }
    // Locate the dot, checking that everything before it is a digit.
    let mut dot: Option<usize> = None;
    let mut i: usize = 0;
    loop
        invariant_except_break
            dot is None,
        invariant
            len == s@.len(),
            0 < len,
            i <= len,
            all_digits(s@.subrange(0, i as int)),
        ensures
            i <= len,
            all_digits(s@.subrange(0, i as int)),
            dot matches Some(d) ==> i < len && d == i && s@[i as int] == 46,
            dot is None ==> i == len,
        decreases len - i,
    {
        if i >= len {
            break;
        }
        let b = s[i];
        if b == 46 {
            dot = Some(i);
            break;
        }
        if !(48 <= b && b <= 57) {
            proof {
                assert(!all_digits(s@)) by {
                    assert(!is_digit(s@[i as int]));
                }
                assert(forall|k: int| !price_split_at(s@, k)) by {
                    assert forall|k: int| !price_split_at(s@, k) by {
                        if price_split_at(s@, k) {
                            if i < k {
                                assert(is_digit(s@.subrange(0, k)[i as int]));
                            } else if i > k {
                                assert(is_digit(
                                    s@.subrange(k + 1, s@.len() as int)[i - (k + 1)],
                                ));
                            }
                        }
                    }
                }
            }
            return None;
        }
        proof {
            assert(s@.subrange(0, i + 1).drop_last() =~= s@.subrange(0, i as int));
            assert(all_digits(s@.subrange(0, i + 1)));
        }
        i = i + 1;
    }
    match dot {
        None => {
            // Whole-dollar form: all digits.
            proof {
                assert(s@.subrange(0, len as int) =~= s@);
                assert(PRICE_CENTS_MAX / 100 == 100_000_000_000u64);
            }
            proof {
                lemma_digits_value_nonneg(s@);
            }
            let v = digits_run_value(s, 0, len);
            match v {
                Some(whole) => {
                    if whole <= PRICE_CENTS_MAX / 100 {
                        Some(whole * 100)
                    } else {
                        None
                    }
                },
                None => None,
            }
        },
        Some(d) => {
            if d == 0 {
                proof {
                    assert forall|k: int| !price_split_at(s@, k) by {
                        if price_split_at(s@, k) {
                            assert(is_digit(s@.subrange(0, k)[0]));
                        }
                    }
                    assert(!all_digits(s@)) by {
                        assert(!is_digit(s@[0]));
                    }
                }
                return None;
            }
            let frac_len = len - (d + 1);
            if frac_len < 1 || frac_len > 2 {
                proof {
                    assert(!all_digits(s@)) by {
                        assert(!is_digit(s@[d as int]));
                    }
                    assert(forall|k: int| !price_split_at(s@, k)) by {
                        assert forall|k: int| !price_split_at(s@, k) by {
                            if price_split_at(s@, k) {
                                if k < d {
                                    assert(is_digit(
                                        s@.subrange(k + 1, s@.len() as int)[d - (k + 1)],
                                    ));
                                } else if k > d {
                                    assert(is_digit(s@.subrange(0, k)[d as int]));
                                }
                            }
                        }
                    }
                }
                return None;
            }
            // Check the fraction digits.
            let mut j: usize = d + 1;
            loop
                invariant
                    len == s@.len(),
                    d + 1 <= j <= len,
                    s@[d as int] == 46,
                    1 <= d,
                    1 <= len - (d + 1) <= 2,
                    all_digits(s@.subrange(0, d as int)),
                    all_digits(s@.subrange(d + 1, j as int)),
                ensures
                    j == len,
                    all_digits(s@.subrange(d + 1, len as int)),
                decreases len - j,
            {
                if j >= len {
                    break;
                }
                let b = s[j];
                if !(48 <= b && b <= 57) {
                    proof {
                        assert(!all_digits(s@)) by {
                            assert(!is_digit(s@[d as int]));
                        }
                        assert(forall|k: int| !price_split_at(s@, k)) by {
                            assert forall|k: int| !price_split_at(s@, k) by {
                                if price_split_at(s@, k) {
                                    lemma_dot_is_split(s@, k, d as int);
                                    assert(is_digit(
                                        s@.subrange(k + 1, s@.len() as int)[j - (k + 1)],
                                    ));
                                }
                            }
                        }
                    }
                    return None;
                }
                proof {
                    assert(s@.subrange(d + 1, j + 1).drop_last() =~= s@.subrange(
                        d + 1,
                        j as int,
                    ));
                }
                j = j + 1;
            }
            proof {
                assert(price_split_at(s@, d as int));
                assert(!all_digits(s@)) by {
                    assert(!is_digit(s@[d as int]));
                }
                let kw = choose|k: int| price_split_at(s@, k);
                lemma_price_split_unique(s@, kw, d as int);
            }
            let whole = digits_run_value(s, 0, d);
            let frac = digits_run_value(s, d + 1, len);
            proof {
                lemma_digits_bounded(s@.subrange(d + 1, len as int));
                lemma_digits_value_nonneg(s@.subrange(0, d as int));
                assert(PRICE_CENTS_MAX / 100 == 100_000_000_000u64);
            }
            match (whole, frac) {
                (Some(w), Some(f)) => {
                    let scale: u64 = if frac_len == 1 {
                        10
                    } else {
                        1
                    };
                    if w <= PRICE_CENTS_MAX / 100 {
                        let v = w * 100 + f * scale;
                        if v <= PRICE_CENTS_MAX {
                            Some(v)
                        } else {
                            None
                        }
                    } else {
                        proof {
                            assert(w * 100 > PRICE_CENTS_MAX);
                        }
                        None
                    }
                },
                (None, _) => {
                    proof {
                        lemma_digits_value_nonneg(s@.subrange(0, d as int));
                        let dv = digits_value(s@.subrange(0, d as int));
                        assert(dv * 100 >= dv);
                    }
                    None
                },
                (Some(_), None) => {
                    proof {
                        assert(false);
                    }
                    None
                },
            }
        },
    }
}

/// A run of at most two digits has value below 100 (below 10 for a single
/// digit).
proof fn lemma_digits_bounded(s: Seq<u8>)
    requires
        all_digits(s),
        s.len() <= 2,
    ensures
        0 <= digits_value(s) < 100,
        s.len() <= 1 ==> digits_value(s) < 10,
    decreases s.len(),
{
    if s.len() > 0 {
        assert(all_digits(s.drop_last()));
        lemma_digits_bounded(s.drop_last());
        assert(is_digit(s[s.len() - 1]));
    }
}

/// Any dot inside a price split must be the split's own dot.
proof fn lemma_dot_is_split(s: Seq<u8>, k: int, d: int)
    requires
        price_split_at(s, k),
        0 <= d < s.len(),
        s[d] == 46,
    ensures
        k == d,
{
    if d < k {
        assert(is_digit(s.subrange(0, k)[d]));
    }
    if d > k {
        assert(is_digit(s.subrange(k + 1, s.len() as int)[d - (k + 1)]));
    }
}

/// The value of the digit run `s[from..to]`, or `None` if it exceeds
/// `PRICE_CENTS_MAX`.
fn digits_run_value(s: &[u8], from: usize, to: usize) -> (r: Option<u64>)
    requires
        from <= to <= s@.len(),
        all_digits(s@.subrange(from as int, to as int)),
    ensures
        digits_value(s@.subrange(from as int, to as int)) <= PRICE_CENTS_MAX ==> r == Some(
            digits_value(s@.subrange(from as int, to as int)) as u64,
        ),
        digits_value(s@.subrange(from as int, to as int)) > PRICE_CENTS_MAX ==> r is None,
{
    let ghost whole = s@.subrange(from as int, to as int);
    let mut acc: u64 = 0;
    let mut i: usize = from;
    while i < to
        invariant
            from <= i <= to <= s@.len(),
            all_digits(whole),
            whole == s@.subrange(from as int, to as int),
            acc == digits_value(s@.subrange(from as int, i as int)),
            acc <= PRICE_CENTS_MAX,
        decreases to - i,
    {
        let b = s[i];
        proof {
            assert(is_digit(whole[i - from]));
            assert(whole[i - from] == s@[i as int]);
            assert(s@.subrange(from as int, i + 1).drop_last() =~= s@.subrange(
                from as int,
                i as int,
            ));
        }
        let d: u64 = (b - 48) as u64;
        if acc > (PRICE_CENTS_MAX - d) / 10 {
            proof {
                let part = s@.subrange(from as int, i + 1);
                assert(digits_value(part) == acc * 10 + d);
                assert(digits_value(part) > PRICE_CENTS_MAX);
                lemma_digits_value_mono_from(s@, from as int, i + 1, to as int);
            }
            return None;
        }
        acc = acc * 10 + d;
        i = i + 1;
    }
    proof {
        assert(s@.subrange(from as int, to as int) == whole);
    }
    Some(acc)
}

/// The value of a digit run only grows as the run extends.
proof fn lemma_digits_value_mono_from(s: Seq<u8>, from: int, mid: int, to: int)
    requires
        0 <= from <= mid <= to <= s.len(),
        all_digits(s.subrange(from, to)),
    ensures
        digits_value(s.subrange(from, mid)) <= digits_value(s.subrange(from, to)),
    decreases to - mid,
{
    if mid == to {
    } else {
        lemma_digits_value_mono_from(s, from, mid + 1, to);
        let p = s.subrange(from, mid);
        let q = s.subrange(from, mid + 1);
        assert(q.drop_last() =~= p);
        assert(forall|x: int| 0 <= x < p.len() ==> p[x] == s.subrange(from, to)[x]);
        assert(all_digits(p));
        crate::strutil::lemma_digits_value_nonneg(p);
        assert(is_digit(q.last())) by {
            assert(q.last() == s.subrange(from, to)[mid - from]);
        }
        assert(digits_value(q) == digits_value(p) * 10 + digit_val(q.last()));
    }
}

/// Resolve the price to trade at: a known last price wins; otherwise the
/// first live tick, if any arrived.
pub fn resolve_price(known_cents: Option<u64>, live_tick_cents: Option<u64>) -> (r: Option<u64>)
    ensures
        known_cents is Some ==> r == known_cents,
        known_cents is None ==> r == live_tick_cents,
{
    match known_cents {
        Some(p) => Some(p),
        None => live_tick_cents,
    }
}

/// Why an order was not submitted.
#[derive(Clone, Copy, Debug, PartialEq, Eq, Structural)]
pub enum SkipReason {
    /// No known price and no live tick, or a price of zero or out of range.
    PriceUnresolved,
    /// The target value buys less than one share.
    TooFewShares,
}

/// The decision for one order: skip it, log it as a dry run (simulation
/// mode executes every step except the final broker submission), or submit
/// it with a share count and a limit price.
#[derive(Clone, Copy, Debug, PartialEq, Eq, Structural)]
pub enum OrderPlan {
    Skip(SkipReason),
    DryRun { shares: u64, limit_cents: u64 },
    Execute { shares: u64, limit_cents: u64 },
}

/// Buy limit: 2.1% above the resolved price, rounded half-up to a cent.
pub open spec fn buy_limit_cents(p: int) -> int {
    (p * 1021 + 500) / 1000
}

/// Sell limit: 2.1% below the resolved price, rounded half-up to a cent.
pub open spec fn sell_limit_cents(p: int) -> int {
    (p * 979 + 500) / 1000
}

/// Whole shares affordable: floor of target value over price (both in cents).
pub open spec fn share_count(v: MarketValue, p: int) -> int {
    (v.num_cents as int) / (v.den as int * p)
}

/// The plan for an order given the live tick (if any): exactly how
/// `plan_order` decides.
pub open spec fn plan_order_spec(o: RqOrder, live_tick_cents: Option<u64>, is_simulation: bool) -> OrderPlan {
    let price = if o.known_last_price is Some {
        o.known_last_price
    } else {
        live_tick_cents
    };
    match price {
        None => OrderPlan::Skip(SkipReason::PriceUnresolved),
        Some(p) => {
            if p == 0 || p > PRICE_CENTS_MAX || o.pos_market_value.den == 0 {
                OrderPlan::Skip(SkipReason::PriceUnresolved)
            } else {
                let shares = share_count(o.pos_market_value, p as int);
                if shares == 0 {
                    OrderPlan::Skip(SkipReason::TooFewShares)
                } else {
                    let limit = if o.order_type == RqOrderType::Buy {
                        buy_limit_cents(p as int)
                    } else {
                        sell_limit_cents(p as int)
                    };
                    if is_simulation {
                        OrderPlan::DryRun { shares: shares as u64, limit_cents: limit as u64 }
                    } else {
                        OrderPlan::Execute { shares: shares as u64, limit_cents: limit as u64 }
                    }
                }
            }
        },
    }
}

/// Decide what to do with one order: resolve its price, compute the whole
/// share count, and offset the limit price (+2.1% for buys, −2.1% for
/// sells, rounded to cents).  Unresolvable or zero-share orders are
/// skipped; in simulation mode an executable order becomes a dry run, so a
/// simulation never submits.
pub fn plan_order(order: &RqOrder, live_tick_cents: Option<u64>, is_simulation: bool) -> (r: OrderPlan)
    ensures
        r == plan_order_spec(*order, live_tick_cents, is_simulation),
        is_simulation ==> !(r is Execute),
{
    let price = resolve_price(order.known_last_price, live_tick_cents);
    match price {
        None => OrderPlan::Skip(SkipReason::PriceUnresolved),
        Some(p) => {
            if p == 0 || p > PRICE_CENTS_MAX || order.pos_market_value.den == 0 {
                OrderPlan::Skip(SkipReason::PriceUnresolved)
            } else {
                let den: u64 = order.pos_market_value.den;
                let num: u64 = order.pos_market_value.num_cents;
                proof {
                    assert(1 <= den as int * p as int <= 0xFFFFFFFFFFFFFFFFint
                        * 0xFFFFFFFFFFFFFFFFint) by (nonlinear_arith)
                        requires
                            1 <= den as int <= 0xFFFFFFFFFFFFFFFFint,
                            1 <= p as int <= 0xFFFFFFFFFFFFFFFFint,
                    ;
                }
                let denom: u128 = (den as u128) * (p as u128);
                let shares128: u128 = (num as u128) / denom;
                proof {
                    assert(shares128 <= num as u128) by (nonlinear_arith)
                        requires
                            denom >= 1,
                            num >= 0,
                            shares128 == num as u128 / denom,
                    ;
                }
                let shares: u64 = shares128 as u64;
                if shares == 0 {
                    OrderPlan::Skip(SkipReason::TooFewShares)
                } else {
                    let limit: u64 = if matches!(order.order_type, RqOrderType::Buy) {
                        (p * 1021 + 500) / 1000
                    } else {
                        (p * 979 + 500) / 1000
                    };
                    if is_simulation {
                        OrderPlan::DryRun { shares, limit_cents: limit }
                    } else {
                        OrderPlan::Execute { shares, limit_cents: limit }
                    }
                }
            }
        },
    }
}

} // verus!
