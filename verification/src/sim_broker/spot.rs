//! Spot simulation: a wallet and a ping-pong strategy.

use super::strategy::in_profit;
use crate::num::double::{double_int, double_ratio};
use crate::num::model::{
    at_most, difference, double_format, less, product, quotient, smaller, sum, zero, Num,
};
use crate::num::Double;
use crate::symbols::SymbolMap;
use vstd::prelude::*;

verus! {

/// Spot holding.
#[derive(Debug)]
pub struct Position {
    pub symbol: String,
    pub amount: Double,
    pub average_entry_price: Double,
    pub current_value: Double,
    pub unrealized_pnl: Double,
}

#[verifier::ext_equal]
pub struct HoldingModel {
    pub symbol: Seq<char>,
    pub amount: Num,
    pub entry: Num,
    pub value: Num,
    pub pnl: Num,
}

impl View for Position {
    type V = HoldingModel;

    open spec fn view(&self) -> HoldingModel {
        HoldingModel {
            symbol: self.symbol@,
            amount: self.amount@,
            entry: self.average_entry_price@,
            value: self.current_value@,
            pnl: self.unrealized_pnl@,
        }
    }
}

impl Clone for Position {
    fn clone(&self) -> (r: Self)
        ensures
            r == *self,
    {
        Position {
            symbol: self.symbol.clone(),
            amount: self.amount,
            average_entry_price: self.average_entry_price,
            current_value: self.current_value,
            unrealized_pnl: self.unrealized_pnl,
        }
    }
}

/// Balance, holdings and latest prices.
pub struct Wallet {
    pub usdt_balance: Double,
    pub positions: SymbolMap<Position>,
    pub latest_prices: SymbolMap<Double>,
}

#[verifier::ext_equal]
pub struct SpotModel {
    pub balance: Num,
    pub holdings: Map<Seq<char>, HoldingModel>,
    /// The symbols of the holdings in the order in which they were bought.
    pub order: Seq<Seq<char>>,
    pub prices: Map<Seq<char>, Num>,
}

impl View for Wallet {
    type V = SpotModel;

    open spec fn view(&self) -> SpotModel {
        SpotModel {
            balance: self.usdt_balance@,
            holdings: self.positions@.map_values(|p: Position| p@),
            order: self.positions.keys(),
            prices: self.latest_prices@.map_values(|x: Double| x@),
        }
    }
}

/// A holding valued at a price.
pub open spec fn valued(h: HoldingModel, price: Num) -> HoldingModel {
    let f = double_format();
    let value = product(f, h.amount, price);
    HoldingModel { value, pnl: difference(f, value, product(f, h.amount, h.entry)), ..h }
}

/// The wallet after a price of a symbol.
pub open spec fn priced(w: SpotModel, symbol: Seq<char>, price: Num) -> SpotModel {
    SpotModel {
        prices: w.prices.insert(symbol, price),
        holdings: if w.holdings.contains_key(symbol) {
            w.holdings.insert(symbol, valued(w.holdings[symbol], price))
        } else {
            w.holdings
        },
        ..w
    }
}

/// The worth of the wallet with its first `n` holdings at the latest prices.
pub open spec fn worth_of(w: SpotModel, n: int) -> Num
    decreases n,
{
    if n <= 0 {
        w.balance
    } else {
        let f = double_format();
        let s = w.order[n - 1];
        let price = if w.prices.contains_key(s) {
            w.prices[s]
        } else {
            zero()
        };
        sum(f, worth_of(w, n - 1), product(f, w.holdings[s].amount, price))
    }
}

/// The fee: a tenth of a percent.
pub open spec fn fee_rate() -> Num {
    double_ratio(1, 1000)
}

/// A holding after more was bought at a price: the entry price is the average.
pub open spec fn added(h: HoldingModel, qty: Num, price: Num) -> HoldingModel {
    let f = double_format();
    let amount = sum(f, h.amount, qty);
    let entry = if less(zero(), amount) {
        quotient(f, sum(f, product(f, h.amount, h.entry), product(f, qty, price)), amount)
    } else {
        price
    };
    HoldingModel { amount, entry, ..h }
}

/// The wallet after an order to buy for `usdt`.
pub open spec fn bought(
    w: SpotModel,
    symbol: Seq<char>,
    price: Num,
    usdt: Num,
    slippage: Num,
) -> SpotModel {
    let f = double_format();
    let spend = smaller(usdt, w.balance);
    let net = difference(f, spend, product(f, spend, fee_rate()));
    let exec = product(f, price, sum(f, double_int(1), slippage));
    let qty = quotient(f, net, exec);
    if less(w.balance, double_int(10)) || at_most(spend, zero()) || at_most(net, zero()) {
        w
    } else {
        let holding = if w.holdings.contains_key(symbol) {
            added(w.holdings[symbol], qty, exec)
        } else {
            HoldingModel { symbol, amount: qty, entry: exec, value: zero(), pnl: zero() }
        };
        priced(
            SpotModel {
                balance: difference(f, w.balance, spend),
                holdings: w.holdings.insert(symbol, holding),
                order: if w.holdings.contains_key(symbol) {
                    w.order
                } else {
                    w.order.push(symbol)
                },
                ..w
            },
            symbol,
            price,
        )
    }
}

/// The wallet after an order to sell a holding; nothing changes where there is none.
pub open spec fn is_sold(
    w: SpotModel,
    symbol: Seq<char>,
    price: Num,
    slippage: Num,
    after: SpotModel,
) -> bool {
    let f = double_format();
    if !w.holdings.contains_key(symbol) {
        after == w
    } else {
        let exec = product(f, price, difference(f, double_int(1), slippage));
        let gross = product(f, w.holdings[symbol].amount, exec);
        let net = difference(f, gross, product(f, gross, fee_rate()));
        &&& after.balance == sum(f, w.balance, net)
        &&& after.holdings == w.holdings.remove(symbol)
        &&& exists|i: int|
            0 <= i < w.order.len() && #[trigger] w.order[i] == symbol && after.order
                == w.order.remove(i)
        &&& after.prices == w.prices.insert(symbol, price)
    }
}

impl Wallet {
    /// A wallet with 1000 USDT and no holdings.
    pub fn new() -> (r: Self)
        ensures
            r@ == (SpotModel {
                balance: double_int(1000),
                holdings: Map::empty(),
                order: Seq::empty(),
                prices: Map::empty(),
            }),
    {
        let r = Wallet {
            usdt_balance: Double::from_unsigned(1000),
            positions: SymbolMap::new(),
            latest_prices: SymbolMap::new(),
        };
        proof {
            assert(r@.holdings =~= Map::<Seq<char>, HoldingModel>::empty());
            assert(r@.prices =~= Map::<Seq<char>, Num>::empty());
        }
        r
    }

    pub fn has_position(&self, symbol: &str) -> (r: bool)
        ensures
            r == self@.holdings.contains_key(symbol@),
    {
        self.positions.contains(symbol)
    }

    pub fn position_entry_price(&self, symbol: &str) -> (r: Option<Double>)
        ensures
            match r {
                Some(x) => self@.holdings.contains_key(symbol@) && x@
                    == self@.holdings[symbol@].entry,
                None => !self@.holdings.contains_key(symbol@),
            },
    {
        match self.positions.get(symbol) {
            Some(p) => Some(p.average_entry_price),
            None => None,
        }
    }

    /// Notes the price of a symbol and values its holding.
    pub fn update_mark(&mut self, symbol: &str, price: Double)
        ensures
            final(self)@ == priced(old(self)@, symbol@, price@),
    {
        let ghost w = self@;
        self.latest_prices.insert(symbol, price);
        let held = match self.positions.get(symbol) {
            Some(p) => Some(p.clone()),
            None => None,
        };
        if let Some(mut p) = held {
            p.current_value = p.amount.times(price);
            p.unrealized_pnl = p.current_value.minus(p.amount.times(p.average_entry_price));
            self.positions.insert(symbol, p);
        }
        proof {
            let target = priced(w, symbol@, price@);
            assert(self@.prices =~= target.prices);
            assert(self@.holdings =~= target.holdings);
        }
    }

    /// Balance and holdings at the latest prices; a symbol without one counts at zero.
    pub fn net_worth(&self) -> (r: Double)
        ensures
            r@ == worth_of(self@, self@.order.len() as int),
    {
        let mut worth = self.usdt_balance;
        let n: usize = self.positions.len();
        let mut i: usize = 0;
        while i < n
            invariant
                i <= n,
                n == self.positions.keys().len(),
                worth@ == worth_of(self@, i as int),
            decreases n - i,
        {
            let (name, p) = self.positions.entry(i);
            let price = match self.latest_prices.get(name.as_str()) {
                Some(m) => *m,
                None => Double::zero(),
            };
            proof {
                assert(self@.order[i as int] == name@);
                assert(self@.holdings[name@] == p@);
                assert(self@.prices.contains_key(name@) == self.latest_prices@.contains_key(
                    name@,
                ));
                assert(self@.prices.contains_key(name@) ==> self@.prices[name@]
                    == self.latest_prices@[name@]@);
            }
            worth = worth.plus(p.amount.times(price));
            i = i + 1;
        }
        worth
    }

    /// Buys for at most `usdt_amount`, the fee included, with a slippage drawn by the caller.
    pub fn execute_buy(
        &mut self,
        symbol: &str,
        price: Double,
        usdt_amount: Double,
        drawn: Double,
    )
        ensures
            final(self)@ == bought(old(self)@, symbol@, price@, usdt_amount@, drawn@),
    {
        let ghost w = self@;
        if self.usdt_balance.below(Double::from_unsigned(10)) {
            return;
        }
        let spend = usdt_amount.smallest(self.usdt_balance);
        if spend.within(Double::zero()) {
            return;
        }
        let exec = price.times(Double::from_unsigned(1).plus(drawn));
        let net = spend.minus(spend.times(Double::ratio(1, 1000)));
        if net.within(Double::zero()) {
            return;
        }
        let qty = net.over(exec);
        self.usdt_balance = self.usdt_balance.minus(spend);
        let held = match self.positions.get(symbol) {
            Some(p) => Some(p.clone()),
            None => None,
        };
        let next = match held {
            Some(mut p) => {
                let amount = p.amount.plus(qty);
                let entry = if amount.above(Double::zero()) {
                    p.amount.times(p.average_entry_price).plus(qty.times(exec)).over(amount)
                } else {
                    exec
                };
                p.amount = amount;
                p.average_entry_price = entry;
                p
            },
            None => Position {
                symbol: symbol.to_string(),
                amount: qty,
                average_entry_price: exec,
                current_value: Double::zero(),
                unrealized_pnl: Double::zero(),
            },
        };
        let ghost made = next@;
        self.positions.insert(symbol, next);
        proof {
            assert(self@.holdings =~= w.holdings.insert(symbol@, made));
        }
        self.update_mark(symbol, price);
    }

    /// Sells the whole holding with a slippage drawn by the caller.
    pub fn execute_sell(&mut self, symbol: &str, price: Double, drawn: Double)
        ensures
            is_sold(old(self)@, symbol@, price@, drawn@, final(self)@),
    {
        let ghost w = self@;
        let pos = match self.positions.remove(symbol) {
            Some(p) => p,
            None => {
                proof {
                    assert(self@.holdings =~= w.holdings);
                }
                return;
            },
        };
        let exec = price.times(Double::from_unsigned(1).minus(drawn));
        let gross = pos.amount.times(exec);
        let net = gross.minus(gross.times(Double::ratio(1, 1000)));
        self.usdt_balance = self.usdt_balance.plus(net);
        self.latest_prices.insert(symbol, price);
        proof {
            assert(w.holdings[symbol@] == pos@);
            assert(self@.holdings =~= w.holdings.remove(symbol@));
            let i = choose|i: int|
                0 <= i < w.order.len() && #[trigger] w.order[i] == symbol@
                    && self.positions.keys() == w.order.remove(i);
            assert(w.order[i] == symbol@ && self@.order == w.order.remove(i));
            assert(self@.prices =~= w.prices.insert(symbol@, price@));
        }
    }
}

/// What the ping-pong strategy asks for.
#[derive(Clone, Copy, Debug, PartialEq, Eq, Structural)]
pub enum Action {
    Buy(Double),
    Sell,
    Hold,
}

/// What the strategy asks for: with a balance of at least ten it buys for 100 USDT where there
/// is no holding, and sells a holding in profit.
pub open spec fn is_action(w: SpotModel, symbol: Seq<char>, price: Num, a: Action) -> bool {
    if less(w.balance, double_int(10)) {
        a == Action::Hold
    } else if !w.holdings.contains_key(symbol) {
        a matches Action::Buy(x) && x@ == double_int(100)
    } else if in_profit(price, w.holdings[symbol].entry) {
        a == Action::Sell
    } else {
        a == Action::Hold
    }
}

/// Ping-pong strategy.
pub fn evaluate(wallet: &Wallet, symbol: &str, price: Double) -> (a: Action)
    ensures
        is_action(wallet@, symbol@, price@, a),
{
    if wallet.usdt_balance.below(Double::from_unsigned(10)) {
        return Action::Hold;
    }
    match wallet.position_entry_price(symbol) {
        None => Action::Buy(Double::from_unsigned(100)),
        Some(entry) => if price.above(entry.times(Double::ratio(1005, 1000))) {
            Action::Sell
        } else {
            Action::Hold
        },
    }
}

/// A purchase never touches other holdings, and one without funds changes nothing.
pub proof fn law_purchase_is_local(
    w: SpotModel,
    symbol: Seq<char>,
    price: Num,
    usdt: Num,
    slippage: Num,
    other: Seq<char>,
)
    requires
        other != symbol,
    ensures
        bought(w, symbol, price, usdt, slippage).holdings.contains_key(other)
            == w.holdings.contains_key(other),
        w.holdings.contains_key(other) ==> bought(
            w,
            symbol,
            price,
            usdt,
            slippage,
        ).holdings[other] == w.holdings[other],
        less(w.balance, double_int(10)) ==> bought(w, symbol, price, usdt, slippage) == w,
{
}

} // verus!
