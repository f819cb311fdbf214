//! Log returns, relative spread, and imbalance.

use crate::num::double::double_int;
use crate::num::laws::{
    law_commutative, law_rounding_is_monotone, lemma_fraction_is_at_most_one,
    lemma_zero_is_kept,
};
use crate::num::model::{
    absolute, at_most, difference, double_format, finite_positive, less, magnitude_of, narrowed,
    negated, quotient, same, signed, single_format, sum, zero, Num,
};
use crate::num::single::single_ratio;
use crate::num::{Double, Single};
use vstd::arithmetic::power2::{lemma_pow2_pos, pow2};
use vstd::prelude::*;

verus! {

/// The ratio of two mid prices, where both are finite and positive.
pub open spec fn mid_ratio(now: Num, before: Num) -> Option<Num> {
    if finite_positive(now) && finite_positive(before) {
        Some(quotient(double_format(), now, before))
    } else {
        None
    }
}

/// A logarithm as a feature: rounded to single precision where it is finite.
pub open spec fn log_feature(log: Num) -> Option<Num> {
    if log is Fin {
        Some(narrowed(log))
    } else {
        None
    }
}

/// `r` is the log return from `before` to `now` under the logarithm `ln`.
pub open spec fn is_log_return<F: Fn(Double) -> Double>(
    ln: F,
    now: Num,
    before: Num,
    r: Option<Num>,
) -> bool {
    match mid_ratio(now, before) {
        Some(q) => exists|x: Double, y: Double|
            x@ == q && #[trigger] call_ensures(ln, (x,), y) && r == log_feature(y@),
        None => r is None,
    }
}

/// The view of an optional number.
pub open spec fn seen(x: Option<Single>) -> Option<Num> {
    match x {
        Some(v) => Some(v@),
        None => None,
    }
}

/// A logarithm as a feature.
pub fn finish_log(log: Double) -> (r: Option<Single>)
    ensures
        seen(r) == log_feature(log@),
{
    if log.is_finite() {
        Some(log.to_single())
    } else {
        None
    }
}

fn log_return<F: Fn(Double) -> Double>(now: Double, before: Double, ln: &F) -> (r: Option<Single>)
    requires
        forall|x: Double| #[trigger] call_requires(*ln, (x,)),
    ensures
        is_log_return(*ln, now@, before@, seen(r)),
{
    if !now.is_finite_positive() || !before.is_finite_positive() {
        return None;
    }
    let q = now.over(before);
    let log = ln(q);
    proof {
        assert(call_ensures(*ln, (q,), log));
    }
    finish_log(log)
}

/// Log return from one mid price to the next; `ln` is the natural logarithm.
pub fn log_return_1<F: Fn(Double) -> Double>(
    mid_now: Double,
    mid_prev: Double,
    ln: &F,
) -> (r: Option<Single>)
    requires
        forall|x: Double| #[trigger] call_requires(*ln, (x,)),
    ensures
        is_log_return(*ln, mid_now@, mid_prev@, seen(r)),
{
    log_return(mid_now, mid_prev, ln)
}

/// Log return over the window; `ln` is the natural logarithm.
pub fn log_return_window<F: Fn(Double) -> Double>(
    mid_last: Double,
    mid_first: Double,
    ln: &F,
) -> (r: Option<Single>)
    requires
        forall|x: Double| #[trigger] call_requires(*ln, (x,)),
    ensures
        is_log_return(*ln, mid_last@, mid_first@, seen(r)),
{
    log_return(mid_last, mid_first, ln)
}

/// The middle between bid and ask.
pub open spec fn middle(bid: Num, ask: Num) -> Num {
    quotient(double_format(), sum(double_format(), bid, ask), double_int(2))
}

pub fn mid_price(bid: Double, ask: Double) -> (r: Double)
    ensures
        r@ == middle(bid@, ask@),
{
    bid.plus(ask).over(Double::from_unsigned(2))
}

/// `(ask - bid) / mid` in single precision, where the mid price is finite and positive and the
/// spread finite and not negative.
pub open spec fn spread_fraction(bid: Num, ask: Num) -> Option<Num> {
    let mid = middle(bid, ask);
    let spread = difference(double_format(), ask, bid);
    let pct = narrowed(quotient(double_format(), spread, mid));
    if finite_positive(mid) && spread is Fin && !less(spread, zero()) && pct is Fin {
        Some(pct)
    } else {
        None
    }
}

/// Spread as a fraction of the mid price.
pub fn spread_pct(bid_price: Double, ask_price: Double) -> (r: Option<Single>)
    ensures
        seen(r) == spread_fraction(bid_price@, ask_price@),
{
    let mid = mid_price(bid_price, ask_price);
    if !mid.is_finite_positive() {
        return None;
    }
    let spread = ask_price.minus(bid_price);
    if !spread.is_finite() || spread.below(Double::zero()) {
        return None;
    }
    let pct = spread.over(mid).to_single();
    if pct.is_finite() {
        Some(pct)
    } else {
        None
    }
}

/// `(bid - ask) / (bid + ask)` of the quantities in single precision; zero where the sum is not
/// finite and positive or the quotient not finite.
pub open spec fn imbalance_of(bid: Num, ask: Num) -> Num {
    let total = sum(double_format(), bid, ask);
    let diff = difference(double_format(), bid, ask);
    let imb = narrowed(quotient(double_format(), diff, total));
    if finite_positive(total) && diff is Fin && imb is Fin {
        imb
    } else {
        zero()
    }
}

/// Imbalance of the quantities at the best bid and ask.
pub fn imbalance(bid_qty: Double, ask_qty: Double) -> (r: Single)
    ensures
        r@ == imbalance_of(bid_qty@, ask_qty@),
{
    let total = bid_qty.plus(ask_qty);
    if !total.is_finite_positive() {
        return Single::zero();
    }
    let diff = bid_qty.minus(ask_qty);
    if !diff.is_finite() {
        return Single::zero();
    }
    let imb = diff.over(total).to_single();
    if imb.is_finite() {
        imb
    } else {
        Single::zero()
    }
}

/// Relative spread and imbalance, where there are any, are finite.
pub proof fn law_features_are_finite(a: Num, b: Num)
    ensures
        imbalance_of(a, b) is Fin,
        spread_fraction(a, b) matches Some(x) ==> x is Fin,
{
}

/// The imbalance of quantities that are not negative lies between minus one and one.
pub proof fn law_imbalance_is_bounded(bid: Num, ask: Num)
    requires
        !less(bid, zero()),
        !less(ask, zero()),
    ensures
        at_most(negated(single_ratio(1, 1)), imbalance_of(bid, ask)),
        at_most(imbalance_of(bid, ask), single_ratio(1, 1)),
{
    let f = double_format();
    let total = sum(f, bid, ask);
    let diff = difference(f, bid, ask);
    lemma_one_is_positive();
    if finite_positive(total) && diff is Fin {
        reveal(sum);
        assert(bid is Fin && ask is Fin);
        let b = signed(bid->Fin_neg, bid->Fin_units);
        let a = signed(ask->Fin_neg, ask->Fin_units);
        assert(b >= 0 && a >= 0);
        if b != a {
            law_rounding_is_monotone(f, magnitude_of(b - a), 1, magnitude_of(b + a), 1);
        }
        assert(at_most(absolute(diff), absolute(total)));
        lemma_fraction_is_at_most_one(diff, total);
    }
}

proof fn lemma_one_is_positive()
    ensures
        at_most(zero(), single_ratio(1, 1)),
{
    lemma_fraction_is_at_most_one(zero(), Num::Fin { neg: false, units: 1 });
}

/// Swapping the sides changes the sign of the imbalance and nothing else.
pub proof fn law_imbalance_is_antisymmetric(bid: Num, ask: Num)
    ensures
        same(imbalance_of(ask, bid), negated(imbalance_of(bid, ask))),
{
    let f = double_format();
    law_commutative(f, bid, ask);
    let total = sum(f, bid, ask);
    if finite_positive(total) {
        reveal(sum);
        reveal(quotient);
        reveal(narrowed);
        let x = difference(f, bid, ask);
        let y = difference(f, ask, bid);
        assert(y == negated(x) || x == zero() && y == zero());
        if x == zero() {
            lemma_zero_is_kept(f, false, total->Fin_units);
            lemma_pow2_pos(925);
            lemma_zero_is_kept(single_format(), false, pow2(925));
            assert(0 * pow2(1074) == 0);
        }
    }
}

} // verus!
