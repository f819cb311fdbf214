//! What the wallet promises of its positions, whatever the order of messages and orders.

use super::model::MarketContextEvent;
use super::wallet::{
    balance_after_funding, funded, funding_due, is_closed, liquidation_estimate, opened, revalued,
    with_context, worth_of, PositionModel, PositionSide, Wallet, WalletModel,
};
use crate::num::double::{double_int, double_ratio};
use crate::num::laws::{
    law_commutative, law_difference_is_monotone, law_difference_tells_the_larger,
    law_factor_beside_one, law_one_is_exact, law_product_has_sign, law_product_is_monotone,
    law_product_is_representable, law_sum_grows, law_sum_is_monotone, law_sum_is_representable,
    law_sum_shrinks, representable,
};
use crate::num::model::{
    at_most, difference, double_format, finite_positive, less, product, quotient, sum, zero, Num,
};
use crate::text::words::uppercase;
use vstd::prelude::*;

verus! {

/// What a position is worth above its entry when it is valued at this mark price.
pub open spec fn valued_at(p: PositionModel, w: WalletModel, s: Seq<char>, mark: Num) -> Num {
    revalued(
        WalletModel {
            positions: w.positions.insert(s, p),
            marks: w.marks.insert(s, mark),
            ..w
        },
    ).positions[s].pnl
}

/// A long gains where the mark price is above its entry and loses where it is below, a short the
/// other way round.
pub proof fn law_gains_have_their_side(
    w: WalletModel,
    s: Seq<char>,
    p: PositionModel,
    mark: Num,
)
    requires
        finite_positive(mark),
        at_most(zero(), p.amount),
    ensures
        p.side == PositionSide::Long && at_most(p.entry, mark) ==> !less(
            valued_at(p, w, s, mark),
            zero(),
        ),
        p.side == PositionSide::Long && at_most(mark, p.entry) ==> !less(
            zero(),
            valued_at(p, w, s, mark),
        ),
        p.side == PositionSide::Short && at_most(mark, p.entry) ==> !less(
            valued_at(p, w, s, mark),
            zero(),
        ),
        p.side == PositionSide::Short && at_most(p.entry, mark) ==> !less(
            zero(),
            valued_at(p, w, s, mark),
        ),
{
    let f = double_format();
    let up = difference(f, mark, p.entry);
    let down = difference(f, p.entry, mark);
    law_difference_tells_the_larger(f, mark, p.entry);
    law_difference_tells_the_larger(f, p.entry, mark);
    law_product_has_sign(f, up, p.amount);
    law_product_has_sign(f, down, p.amount);
    lemma_nan_product(up, p.amount);
    lemma_nan_product(down, p.amount);
}

/// A product with a not-a-number is none, so it is neither positive nor negative.
proof fn lemma_nan_product(x: Num, y: Num)
    ensures
        x is Nan ==> product(double_format(), x, y) is Nan,
        !(x is Nan) ==> at_most(zero(), x) || at_most(x, zero()),
{
    reveal(product);
}

/// A higher mark price never values a long lower, and never a short higher.
pub proof fn law_gains_follow_the_mark(
    w: WalletModel,
    s: Seq<char>,
    p: PositionModel,
    low: Num,
    high: Num,
)
    requires
        finite_positive(low),
        finite_positive(high),
        at_most(low, high),
        at_most(zero(), p.amount),
    ensures
        p.side == PositionSide::Long ==> !less(
            valued_at(p, w, s, high),
            valued_at(p, w, s, low),
        ),
        p.side == PositionSide::Short ==> !less(
            valued_at(p, w, s, low),
            valued_at(p, w, s, high),
        ),
{
    let f = double_format();
    law_difference_is_monotone(f, p.entry, low, high);
    let (a, b) = (difference(f, low, p.entry), difference(f, high, p.entry));
    let (c, d) = (difference(f, p.entry, high), difference(f, p.entry, low));
    lemma_nan_product(a, p.amount);
    lemma_nan_product(b, p.amount);
    lemma_nan_product(c, p.amount);
    lemma_nan_product(d, p.amount);
    if !(a is Nan) && !(b is Nan) {
        law_product_is_monotone(f, a, b, p.amount);
    }
    if !(c is Nan) && !(d is Nan) {
        law_product_is_monotone(f, c, d, p.amount);
    }
}

/// The price at which an order is carried out: the mark price where there is a finite positive
/// one, else the price of the trade, moved by the slippage against who buys or sells.
pub open spec fn execution_price(
    w: WalletModel,
    symbol: Seq<char>,
    trade_price: Num,
    slippage: Num,
    buys: bool,
) -> Num {
    let f = double_format();
    let one = double_int(1);
    let s = uppercase(symbol);
    let base = if w.marks.contains_key(s) && finite_positive(w.marks[s]) {
        w.marks[s]
    } else {
        trade_price
    };
    if buys {
        product(f, base, sum(f, one, slippage))
    } else {
        product(f, base, difference(f, one, slippage))
    }
}

/// A buyer never pays less than the price before slippage, and a seller never gets more.
pub proof fn law_slippage_is_a_cost(
    w: WalletModel,
    symbol: Seq<char>,
    trade_price: Num,
    slippage: Num,
)
    requires
        representable(double_format(), trade_price),
        forall|s: Seq<char>| #[trigger]
            w.marks.contains_key(s) ==> representable(double_format(), w.marks[s]),
        at_most(zero(), trade_price),
        at_most(zero(), slippage),
    ensures
        ({
            let s = uppercase(symbol);
            let base = if w.marks.contains_key(s) && finite_positive(w.marks[s]) {
                w.marks[s]
            } else {
                trade_price
            };
            &&& !less(execution_price(w, symbol, trade_price, slippage, true), base)
            &&& !less(base, execution_price(w, symbol, trade_price, slippage, false))
        }),
{
    let f = double_format();
    let one = double_int(1);
    let s = uppercase(symbol);
    let base = if w.marks.contains_key(s) && finite_positive(w.marks[s]) {
        w.marks[s]
    } else {
        trade_price
    };
    law_one_is_exact();
    lemma_one_is_representable();
    law_sum_grows(f, one, slippage);
    law_factor_beside_one(base, sum(f, one, slippage));
    law_factor_beside_one(base, difference(f, one, slippage));
    law_commutative(f, base, sum(f, one, slippage));
    law_commutative(f, base, difference(f, one, slippage));
    lemma_nan_product(sum(f, one, slippage), base);
    lemma_nan_product(difference(f, one, slippage), base);
}

proof fn lemma_one_is_representable()
    ensures
        representable(double_format(), double_int(1)),
{
    reveal(double_int);
    crate::num::laws::law_rounded_is_representable(
        double_format(),
        false,
        1 * vstd::arithmetic::power2::pow2(1074),
        1,
    );
}

/// Closing a position pays, for either side, its margin and what it is worth when it is valued at
/// the price at which it is closed, less the fee of four hundredths of a percent on what is
/// traded. A long is sold and a short bought back. The position is gone; marks, funding and the
/// other positions stay.
pub proof fn law_closing_pays_margin_and_gain(
    w: WalletModel,
    name: Seq<char>,
    trade_price: Num,
    slippage: Num,
    after: WalletModel,
)
    requires
        is_closed(w, name, trade_price, slippage, after),
        w.positions.contains_key(uppercase(name)),
    ensures
        ({
            let f = double_format();
            let s = uppercase(name);
            let p = w.positions[s];
            let price = execution_price(w, s, trade_price, slippage, p.side == PositionSide::Short);
            let fee = product(f, product(f, p.amount, price), double_ratio(4, 10_000));
            let gain = if p.side == PositionSide::Long {
                product(f, difference(f, price, p.entry), p.amount)
            } else {
                product(f, difference(f, p.entry, price), p.amount)
            };
            &&& after.balance == sum(
                f,
                w.balance,
                difference(f, sum(f, p.margin, gain), fee),
            )
            &&& finite_positive(price) ==> gain == valued_at(p, w, s, price)
            &&& after.positions == w.positions.remove(s)
            &&& after.marks == w.marks
            &&& after.funding == w.funding
            &&& after.interest == w.interest
        }),
{
}

/// A position closed with a gain pays at least its margin less the fee, one closed with a loss at
/// most that: a long gains above its entry and a short below it.
pub proof fn law_winners_get_their_margin_back(
    w: WalletModel,
    name: Seq<char>,
    trade_price: Num,
    slippage: Num,
    after: WalletModel,
)
    requires
        is_closed(w, name, trade_price, slippage, after),
        w.positions.contains_key(uppercase(name)),
        ({
            let p = w.positions[uppercase(name)];
            &&& representable(double_format(), p.margin)
            &&& at_most(zero(), p.amount)
            &&& finite_positive(
                execution_price(
                    w,
                    uppercase(name),
                    trade_price,
                    slippage,
                    p.side == PositionSide::Short,
                ),
            )
        }),
    ensures
        ({
            let f = double_format();
            let s = uppercase(name);
            let p = w.positions[s];
            let price = execution_price(w, s, trade_price, slippage, p.side == PositionSide::Short);
            let fee = product(f, product(f, p.amount, price), double_ratio(4, 10_000));
            let even = sum(f, w.balance, difference(f, p.margin, fee));
            let wins = if p.side == PositionSide::Long {
                at_most(p.entry, price)
            } else {
                at_most(price, p.entry)
            };
            let loses = if p.side == PositionSide::Long {
                at_most(price, p.entry)
            } else {
                at_most(p.entry, price)
            };
            &&& wins ==> !less(after.balance, even)
            &&& loses ==> !less(even, after.balance)
        }),
{
    let f = double_format();
    let s = uppercase(name);
    let p = w.positions[s];
    let price = execution_price(w, s, trade_price, slippage, p.side == PositionSide::Short);
    let fee = product(f, product(f, p.amount, price), double_ratio(4, 10_000));
    let gain = valued_at(p, w, s, price);
    law_closing_pays_margin_and_gain(w, name, trade_price, slippage, after);
    law_gains_have_their_side(w, s, p, price);
    let total = sum(f, p.margin, gain);
    lemma_nan_sum(p.margin, gain);
    let (x, y) = (difference(f, total, fee), difference(f, p.margin, fee));
    lemma_nan_sum(total, crate::num::model::negated(fee));
    lemma_nan_sum(p.margin, crate::num::model::negated(fee));
    lemma_nan_sum(w.balance, x);
    lemma_nan_sum(w.balance, y);
    if !(gain is Nan) {
        if at_most(zero(), gain) {
            law_sum_grows(f, p.margin, gain);
            if !(total is Nan) && !(p.margin is Nan) {
                law_difference_is_monotone(f, fee, p.margin, total);
                if !(x is Nan) && !(y is Nan) {
                    law_sum_is_monotone(f, w.balance, y, x);
                }
            }
        }
        if at_most(gain, zero()) {
            law_sum_shrinks(f, p.margin, gain);
            if !(total is Nan) && !(p.margin is Nan) {
                law_difference_is_monotone(f, fee, total, p.margin);
                if !(x is Nan) && !(y is Nan) {
                    law_sum_is_monotone(f, w.balance, x, y);
                }
            }
        }
    }
}

proof fn lemma_nan_sum(x: Num, y: Num)
    ensures
        x is Nan || y is Nan ==> sum(double_format(), x, y) is Nan,
{
    reveal(sum);
}

/// A position is opened exactly where the balance is at least ten and covers margin and fee, the
/// symbol has none, and a short would sell at a positive price. Margin and fee leave the balance;
/// the position holds the margin times the leverage, bought or sold at the execution price.
pub proof fn law_opening_costs_margin_and_fee(
    w: WalletModel,
    name: Seq<char>,
    side: PositionSide,
    trade_price: Num,
    margin: Num,
    leverage: u8,
    slippage: Num,
)
    ensures
        ({
            let f = double_format();
            let s = uppercase(name);
            let lev: int = if leverage == 0 {
                1
            } else {
                leverage as int
            };
            let price = execution_price(w, s, trade_price, slippage, side == PositionSide::Long);
            let notional = product(f, margin, double_int(lev));
            let cost = sum(f, margin, product(f, notional, double_ratio(4, 10_000)));
            let after = opened(w, name, side, trade_price, margin, leverage, slippage);
            let opens = {
                &&& !less(w.balance, double_int(10))
                &&& !less(w.balance, cost)
                &&& !w.positions.contains_key(s)
                &&& side == PositionSide::Short ==> !at_most(price, zero())
            };
            &&& !opens ==> after == w
            &&& opens ==> {
                let p = after.positions[s];
                &&& after.positions.contains_key(s)
                &&& after.balance == difference(f, w.balance, cost)
                &&& after.order == w.order.push(s)
                &&& p.side == side
                &&& p.entry == price
                &&& p.leverage == lev
                &&& p.margin == margin
                &&& p.notional == notional
                &&& p.amount == quotient(f, notional, price)
                &&& p.symbol == s
                &&& p.liquidation == if side == PositionSide::Short {
                    product(
                        f,
                        price,
                        sum(f, double_int(1), quotient(f, double_int(1), double_int(lev))),
                    )
                } else {
                    let low = product(
                        f,
                        price,
                        difference(f, double_int(1), quotient(f, double_int(1), double_int(lev))),
                    );
                    if less(low, zero()) {
                        zero()
                    } else {
                        low
                    }
                }
                &&& !(w.marks.contains_key(s) && finite_positive(w.marks[s])) ==> p.value
                    == product(f, p.amount, price) && p.pnl == zero()
                &&& after.interest == w.interest
                &&& after.marks == w.marks
                &&& after.funding == w.funding
                &&& forall|other: Seq<char>|
                    other != s ==> #[trigger] after.positions.contains_key(other)
                        == w.positions.contains_key(other)
                &&& forall|other: Seq<char>|
                    other != s && #[trigger] w.positions.contains_key(other) ==> {
                        &&& after.positions[other].side == w.positions[other].side
                        &&& after.positions[other].amount == w.positions[other].amount
                        &&& after.positions[other].entry == w.positions[other].entry
                        &&& after.positions[other].margin == w.positions[other].margin
                    }
            }
        }),
{
}

/// A long is liquidated at or below its entry and never below zero, a short at or above its
/// entry; the larger the leverage, the nearer.
pub proof fn law_liquidation_is_on_the_losing_side(entry: Num, leverage: u8)
    requires
        leverage > 0,
        representable(double_format(), entry),
        finite_positive(entry),
    ensures
        !less(liquidation_estimate(PositionSide::Long, entry, leverage), zero()),
        !less(entry, liquidation_estimate(PositionSide::Long, entry, leverage)),
        !less(liquidation_estimate(PositionSide::Short, entry, leverage), entry),
{
    let f = double_format();
    let one = double_int(1);
    let lev = double_int(leverage as int);
    let share = quotient(f, one, lev);
    law_one_is_exact();
    lemma_one_is_representable();
    lemma_int_is_positive(leverage as int);
    lemma_positive_quotient(one, lev);
    law_sum_grows(f, one, share);
    let less_one = difference(f, one, share);
    let more_one = sum(f, one, share);
    lemma_nan_product(less_one, entry);
    lemma_nan_product(more_one, entry);
    law_commutative(f, entry, less_one);
    law_commutative(f, entry, more_one);
    law_factor_beside_one(entry, less_one);
    law_factor_beside_one(entry, more_one);
}

proof fn lemma_int_is_positive(v: int)
    requires
        0 < v,
    ensures
        less(zero(), double_int(v)),
{
    reveal(double_int);
    law_one_is_exact();
    let p = vstd::arithmetic::power2::pow2(1074);
    assert((1 * p) * 1 <= (v * p) * 1) by (nonlinear_arith)
        requires
            1 <= v,
            p >= 0,
    ;
    crate::num::laws::law_rounding_is_monotone(double_format(), 1 * p, 1, (v * p) as nat, 1);
}

proof fn lemma_positive_quotient(x: Num, y: Num)
    requires
        finite_positive(x),
        less(zero(), y),
    ensures
        at_most(zero(), quotient(double_format(), x, y)),
{
    reveal(quotient);
    if y is Fin {
        let u = x->Fin_units * vstd::arithmetic::power2::pow2(1074);
        crate::num::laws::law_rounding_is_monotone(double_format(), 0, 1, u, y->Fin_units);
        crate::num::laws::lemma_zero_is_kept(double_format(), false, 1);
    }
}

/// Funding is due for a position from its funding time on, until it was applied for that time.
/// It then costs the notional times the rate: with one position the balance falls by that, and
/// the time is noted as applied.
pub proof fn law_funding_costs_notional_times_rate(w: WalletModel, now: i64, s: Seq<char>)
    requires
        w.order == seq![s],
        w.positions.contains_key(s),
    ensures
        ({
            let after = funded(w, now);
            let due = w.funding.contains_key(s) && w.funding[s].next <= now && w.funding[s].applied
                < w.funding[s].next;
            &&& due ==> after.balance == difference(
                double_format(),
                w.balance,
                product(double_format(), w.positions[s].notional, w.funding[s].rate),
            ) && after.funding[s].applied == w.funding[s].next && after.funding[s].next
                == w.funding[s].next && after.funding[s].rate == w.funding[s].rate
            &&& !due ==> after.balance == w.balance && after.funding == w.funding
            &&& after.positions == w.positions
            &&& after.marks == w.marks
        }),
{
    assert(w.order[0] == s);
    assert(balance_after_funding(w, now, 0) == w.balance);
    reveal_with_fuel(balance_after_funding, 2);
    reveal_with_fuel(super::wallet::funding_after, 2);
}

/// Each further position takes its own fee from what the ones before it left.
pub proof fn law_funding_adds_up(w: WalletModel, now: i64, n: int)
    requires
        0 <= n < w.order.len(),
    ensures
        ({
            let s = w.order[n];
            let due = w.positions.contains_key(s) && w.funding.contains_key(s) && w.funding[s].next
                <= now && w.funding[s].applied < w.funding[s].next;
            balance_after_funding(w, now, n + 1) == if due {
                difference(
                    double_format(),
                    balance_after_funding(w, now, n),
                    product(double_format(), w.positions[s].notional, w.funding[s].rate),
                )
            } else {
                balance_after_funding(w, now, n)
            }
        }),
        balance_after_funding(w, now, 0) == w.balance,
        funded(w, now).balance == balance_after_funding(w, now, w.order.len() as int),
{
}

/// With rates that are not negative funding never raises the balance.
pub proof fn law_positive_rates_cost(w: WalletModel, now: i64, n: int)
    requires
        0 <= n <= w.order.len(),
        representable(double_format(), w.balance),
        forall|s: Seq<char>| #[trigger]
            funding_due(w, s, now) ==> at_most(zero(), w.funding[s].rate) && at_most(
                zero(),
                w.positions[s].notional,
            ),
    ensures
        !less(w.balance, balance_after_funding(w, now, n)),
        representable(double_format(), balance_after_funding(w, now, n)),
    decreases n,
{
    if n > 0 {
        law_positive_rates_cost(w, now, n - 1);
        let f = double_format();
        let before = balance_after_funding(w, now, n - 1);
        let s = w.order[n - 1];
        if funding_due(w, s, now) {
            let fee = product(f, w.positions[s].notional, w.funding[s].rate);
            let after = difference(f, before, fee);
            law_product_has_sign(f, w.positions[s].notional, w.funding[s].rate);
            law_product_is_representable(f, w.positions[s].notional, w.funding[s].rate);
            lemma_negated_is_representable(fee);
            law_sum_is_representable(f, before, crate::num::model::negated(fee));
            lemma_nan_sum(before, crate::num::model::negated(fee));
            if !(fee is Nan) && !(before is Nan) {
                law_sum_grows(f, before, fee);
            }
        }
    }
}

proof fn lemma_negated_is_representable(x: Num)
    requires
        representable(double_format(), x),
    ensures
        representable(double_format(), crate::num::model::negated(x)),
{
    let f = double_format();
    if x is Fin {
        let (neg, mag) = choose|neg: bool, mag: nat|
            mag < f.top * vstd::arithmetic::power2::pow2(f.frac) && x
                == #[trigger] crate::num::model::with_magnitude(f, neg, mag);
        assert(crate::num::model::negated(x) == crate::num::model::with_magnitude(f, !neg, mag));
    }
}

/// A context message sets the mark price and the open interest of its symbol where they are
/// finite, and rate and time of its funding where both are there and the rate is finite; when
/// funding was applied last stays known. Balance, positions and other symbols stay.
pub proof fn law_context_concerns_its_symbol(
    w: WalletModel,
    evt: MarketContextEvent,
    other: Seq<char>,
)
    ensures
        ({
            let s = uppercase(evt.symbol@);
            let after = with_context(w, evt);
            &&& after.balance == w.balance
            &&& after.positions == w.positions
            &&& after.order == w.order
            &&& (evt.mark_price matches Some(m) && m@ is Fin) ==> after.marks.contains_key(s)
                && after.marks[s] == evt.mark_price->Some_0@
            &&& !(evt.mark_price matches Some(m) && m@ is Fin) ==> after.marks == w.marks
            &&& (evt.open_interest matches Some(x) && x@ is Fin) ==> after.interest.contains_key(s)
                && after.interest[s] == evt.open_interest->Some_0@
            &&& !(evt.open_interest matches Some(x) && x@ is Fin) ==> after.interest == w.interest
            &&& match (evt.funding_rate, evt.next_funding_time) {
                (Some(rate), Some(next)) => rate@ is Fin ==> {
                    &&& after.funding.contains_key(s)
                    &&& after.funding[s].rate == rate@
                    &&& after.funding[s].next == next
                    &&& after.funding[s].applied == if w.funding.contains_key(s) {
                        w.funding[s].applied
                    } else {
                        0
                    }
                },
                _ => after.funding == w.funding,
            }
            &&& other != s ==> {
                &&& after.marks.contains_key(other) == w.marks.contains_key(other)
                &&& w.marks.contains_key(other) ==> after.marks[other] == w.marks[other]
                &&& after.funding.contains_key(other) == w.funding.contains_key(other)
                &&& w.funding.contains_key(other) ==> after.funding[other] == w.funding[other]
                &&& after.interest.contains_key(other) == w.interest.contains_key(other)
                &&& w.interest.contains_key(other) ==> after.interest[other] == w.interest[other]
            }
        }),
{
}

/// Valuing sets the worth of a position whose symbol has a finite positive mark price: its amount
/// times the mark. Amount, entry, margin and the rest of the wallet stay.
pub proof fn law_valuing_keeps_the_position(w: WalletModel, s: Seq<char>)
    requires
        w.positions.contains_key(s),
    ensures
        ({
            let after = revalued(w);
            let (p, q) = (w.positions[s], after.positions[s]);
            &&& after.positions.contains_key(s)
            &&& after.balance == w.balance
            &&& after.order == w.order
            &&& q.side == p.side
            &&& q.amount == p.amount
            &&& q.entry == p.entry
            &&& q.margin == p.margin
            &&& q.notional == p.notional
            &&& q.leverage == p.leverage
            &&& q.liquidation == p.liquidation
            &&& w.marks.contains_key(s) && finite_positive(w.marks[s]) ==> q.value == product(
                double_format(),
                p.amount,
                w.marks[s],
            )
            &&& !(w.marks.contains_key(s) && finite_positive(w.marks[s])) ==> q == p
        }),
{
}

/// The worth of a wallet is its balance and, for each position, margin and gain at the mark price:
/// what closing it there would pay, fee aside. A symbol without a mark price counts at zero.
pub proof fn law_worth_adds_margin_and_gain(w: WalletModel, n: int)
    requires
        0 <= n < w.order.len(),
    ensures
        ({
            let f = double_format();
            let s = w.order[n];
            let p = w.positions[s];
            let mark = if w.marks.contains_key(s) {
                w.marks[s]
            } else {
                zero()
            };
            let gain = if p.side == PositionSide::Long {
                product(f, difference(f, mark, p.entry), p.amount)
            } else {
                product(f, difference(f, p.entry, mark), p.amount)
            };
            &&& worth_of(w, n + 1) == sum(f, worth_of(w, n), sum(f, p.margin, gain))
            &&& finite_positive(mark) ==> gain == valued_at(p, w, s, mark)
        }),
        worth_of(w, 0) == w.balance,
{
}

/// A wallet starts with a thousand and nothing else.
pub proof fn law_wallets_start_with_a_thousand(w: Wallet)
    requires
        call_ensures(Wallet::new, (), w),
    ensures
        w@.balance == double_int(1000),
        w@.positions == Map::<Seq<char>, PositionModel>::empty(),
        w@.order.len() == 0,
        w@.marks == Map::<Seq<char>, Num>::empty(),
{
}

} // verus!
