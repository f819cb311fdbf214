//! What the paper broker promises of orders, positions and accounts.

use super::paper_broker::{
    account_of, executed, is_active_list, quoted, BrokerModel, FillModel, PaperBroker,
    PaperBrokerConfig, PaperBrokerVars, PortfolioModel, PositionSide, QuoteModel,
};
use crate::common::{BboTick, OrderCommand, OrderSide, OrderType};
use crate::num::double::{double_int, double_ratio};
use crate::num::laws::{
    law_commutative, law_difference_is_monotone, law_difference_tells_the_larger,
    law_factor_beside_one, law_middle_lies_between, law_one_is_exact, law_product_has_sign,
    law_product_is_monotone, law_rounded_is_representable, law_sum_grows, representable,
};
use crate::num::model::{
    at_most, difference, double_format, less, narrowed, product, quotient, smaller, sum, zero,
    Num,
};
use crate::text::words::uppercase;
use vstd::prelude::*;

verus! {

/// A symbol's latest quote, where there is one that is not later than `ts`.
pub open spec fn usable_quote(m: BrokerModel, symbol: Seq<char>, ts: i64) -> bool {
    m.quotes.contains_key(uppercase(symbol)) && m.quotes[uppercase(symbol)].ts <= ts
}

/// An open long gains where the mark price is above its entry and loses where it is below, an
/// open short the other way round; without a position nothing is unrealized. The mark price is
/// the middle of bid and ask, and the equity is the cash and what is unrealized.
pub proof fn law_unrealized_gain_has_its_side(m: BrokerModel, name: Seq<char>, ts: i64)
    requires
        account_of(m, name, ts) is Some,
        at_most(zero(), m.portfolio(uppercase(name)).qty),
    ensures
        ({
            let f = double_format();
            let a = account_of(m, name, ts)->Some_0;
            let p = m.portfolio(uppercase(name));
            let q = m.quotes[uppercase(uppercase(name))];
            &&& p.side == PositionSide::Long && at_most(p.entry, a.mark) ==> !less(
                a.unrealized,
                zero(),
            )
            &&& p.side == PositionSide::Long && at_most(a.mark, p.entry) ==> !less(
                zero(),
                a.unrealized,
            )
            &&& p.side == PositionSide::Short && at_most(a.mark, p.entry) ==> !less(
                a.unrealized,
                zero(),
            )
            &&& p.side == PositionSide::Short && at_most(p.entry, a.mark) ==> !less(
                zero(),
                a.unrealized,
            )
            &&& p.side == PositionSide::Flat ==> a.unrealized == zero()
            &&& a.mark == quotient(f, sum(f, q.bid, q.ask), double_int(2))
            &&& a.equity == sum(f, a.cash, a.unrealized)
        }),
{
    let f = double_format();
    let a = account_of(m, name, ts)->Some_0;
    let p = m.portfolio(uppercase(name));
    let up = difference(f, a.mark, p.entry);
    let down = difference(f, p.entry, a.mark);
    law_difference_tells_the_larger(f, a.mark, p.entry);
    law_difference_tells_the_larger(f, p.entry, a.mark);
    law_product_has_sign(f, up, p.qty);
    law_product_has_sign(f, down, p.qty);
    lemma_nan_product(up, p.qty);
    lemma_nan_product(down, p.qty);
}

proof fn lemma_nan_product(x: Num, y: Num)
    ensures
        x is Nan ==> product(double_format(), x, y) is Nan,
        !(x is Nan) ==> at_most(zero(), x) || at_most(x, zero()),
{
    reveal(product);
}

/// The mark price lies between bid and ask.
pub proof fn law_mark_lies_in_the_spread(m: BrokerModel, name: Seq<char>, ts: i64)
    requires
        account_of(m, name, ts) is Some,
        ({
            let f = double_format();
            let q = m.quotes[uppercase(uppercase(name))];
            &&& representable(f, q.bid)
            &&& representable(f, q.ask)
            &&& at_most(q.bid, q.ask)
            &&& sum(f, q.bid, q.bid) is Fin
            &&& sum(f, q.ask, q.ask) is Fin
        }),
    ensures
        ({
            let a = account_of(m, name, ts)->Some_0;
            let q = m.quotes[uppercase(uppercase(name))];
            !less(a.mark, q.bid) && !less(q.ask, a.mark)
        }),
{
    let q = m.quotes[uppercase(uppercase(name))];
    law_middle_lies_between(q.bid, q.ask);
}

/// What an account shows as unrealized is, fee aside, what closing the whole position at the mark
/// price realizes, for either side.
pub proof fn law_unrealized_becomes_realized(
    m: BrokerModel,
    name: Seq<char>,
    ts: i64,
    later: BrokerModel,
    close: OrderCommand,
    at: i64,
)
    requires
        account_of(m, name, ts) is Some,
        uppercase(close.symbol@) == uppercase(name),
        later.portfolio(uppercase(name)) == m.portfolio(uppercase(name)),
        m.portfolio(uppercase(name)).side != PositionSide::Flat,
        executed(later, close, at).1.action != "REJECTED"@,
        executed(later, close, at).1.fill_price == account_of(m, name, ts)->Some_0.mark,
        executed(later, close, at).1.qty == m.portfolio(uppercase(name)).qty,
    ensures
        ({
            let f = double_format();
            let a = account_of(m, name, ts)->Some_0;
            let (after, fill) = executed(later, close, at);
            after.portfolio(uppercase(name)).realized == sum(
                f,
                a.realized,
                difference(f, a.unrealized, fill.fee),
            )
        }),
{
}

/// The account tells what the broker holds of the symbol.
pub proof fn law_account_shows_the_portfolio(m: BrokerModel, name: Seq<char>, ts: i64)
    ensures
        ({
            let s = uppercase(name);
            let p = m.portfolio(s);
            &&& account_of(m, name, ts) is Some <==> m.portfolios.contains_key(s) && usable_quote(
                m,
                s,
                ts,
            )
            &&& account_of(m, name, ts) matches Some(a) ==> {
                &&& a.ts_exchange == ts
                &&& a.symbol == s
                &&& a.cash == m.cash
                &&& a.side == match p.side {
                    PositionSide::Flat => "FLAT"@,
                    PositionSide::Long => "LONG"@,
                    PositionSide::Short => "SHORT"@,
                }
                &&& a.qty == p.qty
                &&& a.entry == p.entry
                &&& a.realized == p.realized
                &&& a.fees == p.fees
                &&& a.trades == p.trades
                &&& a.wins == p.wins
                &&& a.losses == p.losses
            }
        }),
{
}

/// The fill of an order that opens a position: bought at the ask with slippage on top, or sold at
/// the bid less slippage, within the notional cap and the cash. Notional and fee leave the cash;
/// position, entry and fees are noted, gains and counts stay.
pub proof fn law_opening_is_paid_from_the_cash(m: BrokerModel, cmd: OrderCommand, ts: i64)
    requires
        ({
            let s = uppercase(cmd.symbol@);
            &&& m.portfolio(s).side == PositionSide::Flat
            &&& executed(m, cmd, ts).1.action != "REJECTED"@
        }),
    ensures
        ({
            let f = double_format();
            let s = uppercase(cmd.symbol@);
            let q = m.quotes[uppercase(s)];
            let (after, fill) = executed(m, cmd, ts);
            let slip = quotient(f, m.config.slippage_bps@, double_int(10_000));
            let one = double_int(1);
            let cost = sum(f, fill.notional, fill.fee);
            let p = after.portfolio(s);
            &&& usable_quote(m, s, ts)
            &&& cmd.order_type == OrderType::Market
            &&& cmd.side == OrderSide::Sell ==> m.config.allow_short
            &&& fill.fill_price == if cmd.side == OrderSide::Buy {
                product(f, q.ask, sum(f, one, slip))
            } else {
                product(f, q.bid, difference(f, one, slip))
            }
            &&& fill.action == if cmd.side == OrderSide::Buy {
                "OPEN_LONG"@
            } else {
                "OPEN_SHORT"@
            }
            &&& is_priced(m, fill)
            &&& fill.slippage_bps == narrowed(m.config.slippage_bps@)
            &&& fill.order_id == cmd.client_order_id@
            &&& fill.qty == cmd.qty@
            &&& fill.ts_exchange == ts
            &&& fill.symbol == cmd.symbol@
            &&& !less(m.config.max_position_notional_usdt@, fill.notional)
            &&& !less(m.cash, cost)
            &&& after.cash == difference(f, m.cash, cost)
            &&& p.side == if cmd.side == OrderSide::Buy {
                PositionSide::Long
            } else {
                PositionSide::Short
            }
            &&& p.qty == cmd.qty@
            &&& p.entry == fill.fill_price
            &&& p.fees == sum(f, m.portfolio(s).fees, fill.fee)
            &&& p.realized == m.portfolio(s).realized
            &&& p.trades == m.portfolio(s).trades
            &&& p.wins == m.portfolio(s).wins
            &&& p.losses == m.portfolio(s).losses
            &&& after.quotes == m.quotes
            &&& after.config == m.config
        }),
{
    lemma_actions_differ();
}

/// The notional is price times quantity, the fee its configured hundredths of a percent.
pub open spec fn is_priced(m: BrokerModel, fill: FillModel) -> bool {
    let f = double_format();
    &&& fill.notional == product(f, fill.fill_price, fill.qty)
    &&& fill.fee == product(
        f,
        fill.notional,
        quotient(f, m.config.fee_bps@, double_int(10_000)),
    )
}

/// The fill of an order that closes a position: a long is sold at the bid less slippage, a short
/// bought back at the ask with slippage on top, for the smaller of the two quantities. Notional
/// less fee returns to the cash, the gain less fee is realized, and one trade is counted, as a
/// win where that gain is positive and as a loss where it is negative.
pub proof fn law_closing_pays_into_the_cash(m: BrokerModel, cmd: OrderCommand, ts: i64)
    requires
        ({
            let p = m.portfolio(uppercase(cmd.symbol@));
            &&& p.side != PositionSide::Flat
            &&& p.trades < u32::MAX && p.wins < u32::MAX && p.losses < u32::MAX
            &&& executed(m, cmd, ts).1.action != "REJECTED"@
        }),
    ensures
        ({
            let f = double_format();
            let s = uppercase(cmd.symbol@);
            let q = m.quotes[uppercase(s)];
            let (after, fill) = executed(m, cmd, ts);
            let old = m.portfolio(s);
            let p = after.portfolio(s);
            let slip = quotient(f, m.config.slippage_bps@, double_int(10_000));
            let one = double_int(1);
            let gain = difference(
                f,
                product(
                    f,
                    if old.side == PositionSide::Long {
                        difference(f, fill.fill_price, old.entry)
                    } else {
                        difference(f, old.entry, fill.fill_price)
                    },
                    fill.qty,
                ),
                fill.fee,
            );
            &&& usable_quote(m, s, ts)
            &&& cmd.order_type == OrderType::Market
            &&& old.side == PositionSide::Long ==> cmd.side == OrderSide::Sell && fill.action
                == "CLOSE_LONG"@ && fill.fill_price == product(f, q.bid, difference(f, one, slip))
            &&& old.side == PositionSide::Short ==> cmd.side == OrderSide::Buy && fill.action
                == "CLOSE_SHORT"@ && fill.fill_price == product(f, q.ask, sum(f, one, slip))
            &&& is_priced(m, fill)
            &&& fill.slippage_bps == narrowed(m.config.slippage_bps@)
            &&& fill.order_id == cmd.client_order_id@
            &&& fill.qty == smaller(old.qty, cmd.qty@)
            &&& fill.ts_exchange == ts
            &&& fill.symbol == cmd.symbol@
            &&& after.cash == sum(f, m.cash, difference(f, fill.notional, fill.fee))
            &&& p.side == PositionSide::Flat
            &&& p.qty == zero()
            &&& p.entry == zero()
            &&& p.realized == sum(f, old.realized, gain)
            &&& p.fees == sum(f, old.fees, fill.fee)
            &&& p.trades == old.trades + 1
            &&& p.wins == old.wins + if less(zero(), gain) {
                1int
            } else {
                0
            }
            &&& p.losses == old.losses + if less(gain, zero()) {
                1int
            } else {
                0
            }
            &&& after.quotes == m.quotes
            &&& after.config == m.config
        }),
{
    lemma_actions_differ();
}

proof fn lemma_actions_differ()
    ensures
        "REJECTED"@ != "OPEN_LONG"@,
        "REJECTED"@ != "OPEN_SHORT"@,
        "REJECTED"@ != "CLOSE_LONG"@,
        "REJECTED"@ != "CLOSE_SHORT"@,
{
    reveal_strlit("REJECTED");
    reveal_strlit("OPEN_LONG");
    reveal_strlit("OPEN_SHORT");
    reveal_strlit("CLOSE_LONG");
    reveal_strlit("CLOSE_SHORT");
    assert("REJECTED"@[0] == 'R');
    assert("OPEN_LONG"@[0] == 'O');
    assert("OPEN_SHORT"@[0] == 'O');
    assert("CLOSE_LONG"@[0] == 'C');
    assert("CLOSE_SHORT"@[0] == 'C');
}

/// An order is rejected exactly where there is no quote up to its moment, it is not a market
/// order, it would add to a position, a short is not allowed, or opening it goes over the
/// notional cap or the cash; the reason says which.
pub proof fn law_rejections_name_their_cause(m: BrokerModel, cmd: OrderCommand, ts: i64)
    ensures
        ({
            let f = double_format();
            let s = uppercase(cmd.symbol@);
            let side = m.portfolio(s).side;
            let q = m.quotes[uppercase(s)];
            let slip = quotient(f, m.config.slippage_bps@, double_int(10_000));
            let one = double_int(1);
            let price = if cmd.side == OrderSide::Buy {
                product(f, q.ask, sum(f, one, slip))
            } else {
                product(f, q.bid, difference(f, one, slip))
            };
            let notional = product(f, price, cmd.qty@);
            let fee = product(f, notional, quotient(f, m.config.fee_bps@, double_int(10_000)));
            let over = less(m.config.max_position_notional_usdt@, notional);
            let poor = less(m.cash, sum(f, notional, fee));
            let adds = cmd.side == OrderSide::Buy && side == PositionSide::Long || cmd.side
                == OrderSide::Sell && side == PositionSide::Short;
            let barred = cmd.side == OrderSide::Sell && side == PositionSide::Flat
                && !m.config.allow_short;
            let reason = executed(m, cmd, ts).1.reason_code;
            &&& !usable_quote(m, s, ts) ==> reason == "no_market_price"@
            &&& usable_quote(m, s, ts) && cmd.order_type != OrderType::Market ==> reason
                == "unsupported_order_type"@
            &&& usable_quote(m, s, ts) && cmd.order_type == OrderType::Market ==> {
                &&& adds ==> reason == "position_conflict"@
                &&& barred ==> reason == "short_disabled"@
                &&& side == PositionSide::Flat && !barred && over ==> reason == "notional_cap"@
                &&& side == PositionSide::Flat && !barred && !over && poor ==> reason
                    == "insufficient_cash"@
                &&& side == PositionSide::Flat && !barred && !over && !poor ==> reason == ""@
                &&& side != PositionSide::Flat && !adds ==> reason == ""@
            }
        }),
{
}

/// A buyer never pays less than the ask, and a seller never gets more than the bid, where
/// the slippage is not negative.
pub proof fn law_slippage_is_a_cost(m: BrokerModel, cmd: OrderCommand, ts: i64)
    requires
        executed(m, cmd, ts).1.action != "REJECTED"@,
        at_most(zero(), m.config.slippage_bps@),
        ({
            let q = m.quotes[uppercase(uppercase(cmd.symbol@))];
            &&& representable(double_format(), q.bid)
            &&& representable(double_format(), q.ask)
            &&& at_most(zero(), q.bid)
            &&& at_most(zero(), q.ask)
        }),
    ensures
        ({
            let q = m.quotes[uppercase(uppercase(cmd.symbol@))];
            let price = executed(m, cmd, ts).1.fill_price;
            &&& cmd.side == OrderSide::Buy ==> !less(price, q.ask)
            &&& cmd.side == OrderSide::Sell ==> !less(q.bid, price)
        }),
{
    let f = double_format();
    let one = double_int(1);
    let q = m.quotes[uppercase(uppercase(cmd.symbol@))];
    let slip = quotient(f, m.config.slippage_bps@, double_int(10_000));
    lemma_actions_differ();
    lemma_slip_is_not_negative(m.config.slippage_bps@);
    law_one_is_exact();
    reveal(double_int);
    law_rounded_is_representable(f, false, 1 * vstd::arithmetic::power2::pow2(1074), 1);
    law_sum_grows(f, one, slip);
    lemma_nan_product(sum(f, one, slip), q.ask);
    lemma_nan_product(difference(f, one, slip), q.bid);
    law_commutative(f, q.ask, sum(f, one, slip));
    law_commutative(f, q.bid, difference(f, one, slip));
    law_factor_beside_one(q.ask, sum(f, one, slip));
    law_factor_beside_one(q.bid, difference(f, one, slip));
}

proof fn lemma_slip_is_not_negative(bps: Num)
    requires
        at_most(zero(), bps),
    ensures
        at_most(zero(), quotient(double_format(), bps, double_int(10_000))),
{
    reveal(double_int);
    reveal(quotient);
    let f = double_format();
    let p = vstd::arithmetic::power2::pow2(1074);
    vstd::arithmetic::power2::lemma_pow2_pos(1074);
    crate::num::laws::law_one_is_exact();
    assert((1 * p) * 1 <= (10_000 * p) * 1) by (nonlinear_arith)
        requires
            p >= 0,
    ;
    crate::num::laws::law_rounding_is_monotone(f, 1 * p, 1, 10_000 * p, 1);
    let d = double_int(10_000);
    assert(less(zero(), d));
    assert(d is Fin) by {
        let top = vstd::arithmetic::power2::pow2(1088);
        crate::num::laws::lemma_power_is_exact(f, false, 1036);
        vstd::arithmetic::power2::lemma_pow2_adds(14, 1074);
        vstd::arithmetic::power2::lemma2_to64();
        assert((10_000 * p) * 1 <= (0x4000 * p) * 1) by (nonlinear_arith)
            requires
                p >= 0,
        ;
        crate::num::laws::law_rounding_is_monotone(f, 10_000 * p, 1, top, 1);
    }
    if bps is Fin && d is Fin {
        let u = bps->Fin_units * p;
        crate::num::laws::lemma_zero_is_kept(f, false, d->Fin_units);
        crate::num::laws::lemma_zero_is_kept(f, true, d->Fin_units);
        crate::num::laws::law_rounding_is_monotone(f, 0, 1, u, d->Fin_units);
        crate::num::laws::lemma_zero_is_kept(f, false, 1);
        if bps->Fin_units == 0 {
            assert(u == 0) by (nonlinear_arith)
                requires
                    u == bps->Fin_units * p,
                    bps->Fin_units == 0,
            ;
        }
    }
}

/// A quote replaces the one known of its symbol unless it is older; other symbols, positions and
/// cash stay. Before its first quote a symbol counts as quoted at zero at moment zero.
pub proof fn law_newer_quotes_replace_older(m: BrokerModel, bbo: BboTick, other: Seq<char>)
    ensures
        ({
            let s = uppercase(bbo.symbol@);
            let after = quoted(m, bbo);
            let newer = (if m.quotes.contains_key(s) {
                m.quotes[s].ts
            } else {
                0
            }) <= bbo.ts_exchange;
            &&& after.quotes.contains_key(s)
            &&& newer ==> after.quotes[s] == (QuoteModel {
                bid: bbo.bid_price@,
                ask: bbo.ask_price@,
                ts: bbo.ts_exchange,
            })
            &&& !newer && m.quotes.contains_key(s) ==> after.quotes[s] == m.quotes[s]
            &&& !newer && !m.quotes.contains_key(s) ==> after.quotes[s] == (QuoteModel {
                bid: zero(),
                ask: zero(),
                ts: 0,
            })
            &&& other != s ==> after.quotes.contains_key(other) == m.quotes.contains_key(other)
            &&& other != s && m.quotes.contains_key(other) ==> after.quotes[other]
                == m.quotes[other]
            &&& after.cash == m.cash
            &&& after.portfolios == m.portfolios
            &&& after.config == m.config
        }),
{
}

/// A higher closing price never realizes less on a long and never more on a short.
pub proof fn law_realized_gain_follows_the_price(
    m: BrokerModel,
    n: BrokerModel,
    cmd: OrderCommand,
    ts: i64,
)
    requires
        ({
            let s = uppercase(cmd.symbol@);
            let p = m.portfolio(s);
            &&& n.portfolio(s) == p
            &&& p.side != PositionSide::Flat
            &&& at_most(zero(), smaller(p.qty, cmd.qty@))
            &&& executed(m, cmd, ts).1.action != "REJECTED"@
            &&& executed(n, cmd, ts).1.action != "REJECTED"@
            &&& p.trades < u32::MAX && p.wins < u32::MAX && p.losses < u32::MAX
            &&& at_most(executed(m, cmd, ts).1.fill_price, executed(n, cmd, ts).1.fill_price)
        }),
    ensures
        ({
            let f = double_format();
            let p = m.portfolio(uppercase(cmd.symbol@));
            let low = executed(m, cmd, ts).1;
            let high = executed(n, cmd, ts).1;
            let gain = |fill: FillModel|
                product(
                    f,
                    if p.side == PositionSide::Long {
                        difference(f, fill.fill_price, p.entry)
                    } else {
                        difference(f, p.entry, fill.fill_price)
                    },
                    fill.qty,
                );
            &&& p.side == PositionSide::Long ==> !less(gain(high), gain(low))
            &&& p.side == PositionSide::Short ==> !less(gain(low), gain(high))
            &&& executed(m, cmd, ts).0.portfolio(uppercase(cmd.symbol@)).realized == sum(
                f,
                p.realized,
                difference(f, gain(low), low.fee),
            )
        }),
{
    let f = double_format();
    let p = m.portfolio(uppercase(cmd.symbol@));
    law_closing_pays_into_the_cash(m, cmd, ts);
    law_closing_pays_into_the_cash(n, cmd, ts);
    let low = executed(m, cmd, ts).1.fill_price;
    let high = executed(n, cmd, ts).1.fill_price;
    let qty = smaller(p.qty, cmd.qty@);
    law_difference_is_monotone(f, p.entry, low, high);
    let (a, b) = (difference(f, low, p.entry), difference(f, high, p.entry));
    let (c, d) = (difference(f, p.entry, high), difference(f, p.entry, low));
    lemma_nan_product(a, qty);
    lemma_nan_product(b, qty);
    lemma_nan_product(c, qty);
    lemma_nan_product(d, qty);
    if !(a is Nan) && !(b is Nan) {
        law_product_is_monotone(f, a, b, qty);
    }
    if !(c is Nan) && !(d is Nan) {
        law_product_is_monotone(f, c, d, qty);
    }
}

/// A symbol that was never traded is flat, with nothing gained, paid or counted.
pub proof fn law_new_symbols_are_flat(m: BrokerModel, s: Seq<char>)
    requires
        !m.portfolios.contains_key(s),
    ensures
        m.portfolio(s).side == PositionSide::Flat,
        m.portfolio(s).qty == zero(),
        m.portfolio(s).entry == zero(),
        m.portfolio(s).realized == zero(),
        m.portfolio(s).fees == zero(),
        m.portfolio(s).trades == 0,
        m.portfolio(s).wins == 0,
        m.portfolio(s).losses == 0,
{
}

/// The active symbols are those with a position that is not flat, each once.
pub proof fn law_active_symbols_have_a_position(
    m: BrokerModel,
    names: Seq<Seq<char>>,
    s: Seq<char>,
)
    requires
        is_active_list(m, names),
    ensures
        names.contains(s) <==> m.portfolios.contains_key(s) && m.portfolio(s).side
            != PositionSide::Flat,
{
}

/// A broker starts with its configured cash, no positions and no quotes; without variables that
/// is a hundred, with a fee of seven and a half and a slippage of two hundredths of a percent, a
/// notional cap of a hundred, and shorts allowed.
pub proof fn law_brokers_start_with_their_cash(
    config: PaperBrokerConfig,
    b: PaperBroker,
    vars: PaperBrokerVars,
    c: PaperBrokerConfig,
)
    requires
        call_ensures(PaperBroker::new, (config,), b),
        call_ensures(PaperBrokerConfig::from_env, (&vars,), c),
    ensures
        b@.cash == config.initial_cash_usdt@,
        b@.config == config,
        b@.portfolios == Map::<Seq<char>, PortfolioModel>::empty(),
        b@.quotes == Map::<Seq<char>, QuoteModel>::empty(),
        vars.initial_cash_usdt is None ==> c.initial_cash_usdt@ == double_int(100),
        vars.fee_bps is None ==> c.fee_bps@ == double_ratio(75, 10),
        vars.slippage_bps is None ==> c.slippage_bps@ == double_int(2),
        vars.max_position_notional_usdt is None ==> c.max_position_notional_usdt@ == double_int(
            100,
        ),
        vars.allow_short is None ==> c.allow_short,
{
}

/// What is unrealized is the quantity times how far the mark price is above the entry of a long or
/// below that of a short.
pub proof fn law_unrealized_is_quantity_times_distance(m: BrokerModel, name: Seq<char>, ts: i64)
    requires
        account_of(m, name, ts) is Some,
    ensures
        ({
            let f = double_format();
            let a = account_of(m, name, ts)->Some_0;
            let p = m.portfolio(uppercase(name));
            &&& p.side == PositionSide::Long ==> a.unrealized == product(
                f,
                difference(f, a.mark, p.entry),
                p.qty,
            )
            &&& p.side == PositionSide::Short ==> a.unrealized == product(
                f,
                difference(f, p.entry, a.mark),
                p.qty,
            )
            &&& p.side == PositionSide::Flat ==> a.unrealized == zero()
            &&& a.equity == sum(f, m.cash, a.unrealized)
        }),
{
}

} // verus!
