//! What the spot wallet promises of purchases, sales and values.

use super::spot::{bought, is_action, is_sold, priced, worth_of, Action, SpotModel};
use crate::num::double::{double_int, double_ratio};
use crate::num::laws::{
    law_commutative, law_difference_tells_the_larger, law_product_is_monotone,
};
use crate::num::model::{
    at_most, difference, double_format, less, product, quotient, smaller, sum, zero, Num,
};
use vstd::prelude::*;

verus! {

/// A purchase is made exactly where the balance is at least ten and something is left to spend
/// after the fee of a tenth of a percent. What is spent, at most the balance, leaves it; what is
/// left after the fee buys at the price with slippage on top. A first purchase is entered at that
/// price, a further one averages it by amount.
pub proof fn law_purchases_spend_the_balance(
    w: SpotModel,
    symbol: Seq<char>,
    price: Num,
    usdt: Num,
    slippage: Num,
)
    ensures
        ({
            let f = double_format();
            let spend = smaller(usdt, w.balance);
            let net = difference(f, spend, product(f, spend, double_ratio(1, 1000)));
            let exec = product(f, price, sum(f, double_int(1), slippage));
            let qty = quotient(f, net, exec);
            let after = bought(w, symbol, price, usdt, slippage);
            let buys = !less(w.balance, double_int(10)) && !at_most(spend, zero()) && !at_most(
                net,
                zero(),
            );
            &&& !buys ==> after == w
            &&& buys ==> {
                let h = after.holdings[symbol];
                &&& after.holdings.contains_key(symbol)
                &&& after.balance == difference(f, w.balance, spend)
                &&& after.prices == w.prices.insert(symbol, price)
                &&& h.value == product(f, h.amount, price)
                &&& !w.holdings.contains_key(symbol) ==> h.amount == qty && h.entry == exec
                    && after.order == w.order.push(symbol)
                &&& w.holdings.contains_key(symbol) ==> {
                    let old = w.holdings[symbol];
                    &&& h.amount == sum(f, old.amount, qty)
                    &&& less(zero(), h.amount) ==> h.entry == quotient(
                        f,
                        sum(f, product(f, old.amount, old.entry), product(f, qty, exec)),
                        h.amount,
                    )
                    &&& after.order == w.order
                }
            }
        }),
{
}

/// A sale sells the whole holding at the price less slippage; what it brings, less the fee of a
/// tenth of a percent, is added to the balance. Without a holding nothing changes.
pub proof fn law_sales_pay_into_the_balance(
    w: SpotModel,
    symbol: Seq<char>,
    price: Num,
    slippage: Num,
    after: SpotModel,
    other: Seq<char>,
)
    requires
        is_sold(w, symbol, price, slippage, after),
    ensures
        !w.holdings.contains_key(symbol) ==> after == w,
        w.holdings.contains_key(symbol) ==> {
            let f = double_format();
            let exec = product(f, price, difference(f, double_int(1), slippage));
            let gross = product(f, w.holdings[symbol].amount, exec);
            &&& after.balance == sum(
                f,
                w.balance,
                difference(f, gross, product(f, gross, double_ratio(1, 1000))),
            )
            &&& !after.holdings.contains_key(symbol)
            &&& after.prices == w.prices.insert(symbol, price)
            &&& other != symbol ==> after.holdings.contains_key(other)
                == w.holdings.contains_key(other)
            &&& other != symbol && w.holdings.contains_key(other) ==> after.holdings[other]
                == w.holdings[other]
        },
{
}

/// A holding shows a gain where the price is at or above its entry, and a loss where it is at or
/// below; amount and entry stay, and so do balance and other holdings.
pub proof fn law_holdings_gain_above_their_entry(w: SpotModel, symbol: Seq<char>, price: Num)
    requires
        w.holdings.contains_key(symbol),
    ensures
        ({
            let old = w.holdings[symbol];
            let after = priced(w, symbol, price);
            let h = after.holdings[symbol];
            &&& after.holdings.contains_key(symbol)
            &&& h.amount == old.amount
            &&& h.entry == old.entry
            &&& after.balance == w.balance
            &&& after.prices == w.prices.insert(symbol, price)
            &&& h.value == product(double_format(), old.amount, price)
            &&& h.pnl == difference(
                double_format(),
                h.value,
                product(double_format(), old.amount, old.entry),
            )
            &&& at_most(zero(), old.amount) && at_most(old.entry, price) ==> !less(h.pnl, zero())
            &&& at_most(zero(), old.amount) && at_most(price, old.entry) ==> !less(zero(), h.pnl)
        }),
{
    let f = double_format();
    let h = w.holdings[symbol];
    let (now, cost) = (product(f, h.amount, price), product(f, h.amount, h.entry));
    law_commutative(f, h.amount, price);
    law_commutative(f, h.amount, h.entry);
    law_difference_tells_the_larger(f, now, cost);
    lemma_nan_difference(now, cost);
    if at_most(zero(), h.amount) && at_most(h.entry, price) {
        law_product_is_monotone(f, h.entry, price, h.amount);
    }
    if at_most(zero(), h.amount) && at_most(price, h.entry) {
        law_product_is_monotone(f, price, h.entry, h.amount);
    }
}

proof fn lemma_nan_difference(x: Num, y: Num)
    ensures
        x is Nan || y is Nan ==> difference(double_format(), x, y) is Nan,
        !(x is Nan) && !(y is Nan) ==> (less(x, y) || at_most(y, x)),
{
    reveal(sum);
}

/// A price of a symbol without a holding is noted, and nothing else changes.
pub proof fn law_prices_are_noted(w: SpotModel, symbol: Seq<char>, price: Num)
    requires
        !w.holdings.contains_key(symbol),
    ensures
        priced(w, symbol, price) == (SpotModel { prices: w.prices.insert(symbol, price), ..w }),
{
}

/// The strategy buys for a hundred where there is no holding, sells where the price is more than
/// half a percent above the entry, and else holds; with a balance below ten it only holds.
pub proof fn law_spot_strategy(w: SpotModel, symbol: Seq<char>, price: Num, a: Action)
    requires
        is_action(w, symbol, price, a),
    ensures
        ({
            let rich = !less(w.balance, double_int(10));
            let held = w.holdings.contains_key(symbol);
            let up = less(
                product(double_format(), w.holdings[symbol].entry, double_ratio(1005, 1000)),
                price,
            );
            &&& a is Buy <==> rich && !held
            &&& a is Sell <==> rich && held && up
            &&& a matches Action::Buy(x) ==> x@ == double_int(100)
        }),
{
}

/// The worth of the wallet is its balance and each holding at the latest price of its symbol.
pub proof fn law_worth_adds_the_holdings(w: SpotModel, n: int)
    requires
        0 <= n < w.order.len(),
    ensures
        worth_of(w, 0) == w.balance,
        worth_of(w, n + 1) == sum(
            double_format(),
            worth_of(w, n),
            product(
                double_format(),
                w.holdings[w.order[n]].amount,
                if w.prices.contains_key(w.order[n]) {
                    w.prices[w.order[n]]
                } else {
                    zero()
                },
            ),
        ),
{
}

} // verus!
