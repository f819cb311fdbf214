//! Wallet of the perpetual futures simulation: positions, mark prices, funding.

use super::model::{norm_symbol, MarketContextEvent};
use crate::num::double::{double_int, double_ratio};
use crate::num::model::{
    at_most, difference, double_format, finite_positive, less, product, quotient, sum, zero, Num,
};
use crate::num::Double;
use crate::symbols::SymbolMap;
use crate::text::words::uppercase;
use vstd::prelude::*;

verus! {

/// Side of a position.
#[derive(Clone, Copy, Debug, PartialEq, Eq, Structural)]
pub enum PositionSide {
    Long,
    Short,
}

/// Perpetual futures position.
#[derive(Debug)]
pub struct Position {
    pub symbol: String,
    pub side: PositionSide,
    pub amount: Double,
    pub average_entry_price: Double,
    pub leverage: u8,
    /// Margin put up for the position.
    pub margin_used: Double,
    /// Entry price times amount.
    pub size_notional: Double,
    /// Estimated liquidation price.
    pub liquidation_price: Double,
    /// Mark price times amount.
    pub current_value: Double,
    pub unrealized_pnl: Double,
}

#[verifier::ext_equal]
pub struct PositionModel {
    pub symbol: Seq<char>,
    pub side: PositionSide,
    pub amount: Num,
    pub entry: Num,
    pub leverage: u8,
    pub margin: Num,
    pub notional: Num,
    pub liquidation: Num,
    pub value: Num,
    pub pnl: Num,
}

impl View for Position {
    type V = PositionModel;

    open spec fn view(&self) -> PositionModel {
        PositionModel {
            symbol: self.symbol@,
            side: self.side,
            amount: self.amount@,
            entry: self.average_entry_price@,
            leverage: self.leverage,
            margin: self.margin_used@,
            notional: self.size_notional@,
            liquidation: self.liquidation_price@,
            value: self.current_value@,
            pnl: self.unrealized_pnl@,
        }
    }
}

impl Clone for Position {
    fn clone(&self) -> (r: Self)
        ensures
            r == *self,
    {
        Position {
            symbol: self.symbol.clone(),
            side: self.side,
            amount: self.amount,
            average_entry_price: self.average_entry_price,
            leverage: self.leverage,
            margin_used: self.margin_used,
            size_notional: self.size_notional,
            liquidation_price: self.liquidation_price,
            current_value: self.current_value,
            unrealized_pnl: self.unrealized_pnl,
        }
    }
}

/// Funding of a symbol.
#[derive(Clone, Copy, Debug, PartialEq, Eq, Structural)]
pub struct FundingState {
    pub funding_rate: Double,
    pub next_funding_time: i64,
    pub last_applied_funding_time: i64,
}

pub struct FundingModel {
    pub rate: Num,
    pub next: i64,
    pub applied: i64,
}

pub open spec fn funding_model(f: FundingState) -> FundingModel {
    FundingModel {
        rate: f.funding_rate@,
        next: f.next_funding_time,
        applied: f.last_applied_funding_time,
    }
}

/// Balance, positions, and what is known of each symbol's market.
pub struct Wallet {
    pub usdt_balance: Double,
    pub positions: SymbolMap<Position>,
    pub mark_prices: SymbolMap<Double>,
    pub funding: SymbolMap<FundingState>,
    pub open_interest: SymbolMap<Double>,
}

#[verifier::ext_equal]
pub struct WalletModel {
    pub balance: Num,
    pub positions: Map<Seq<char>, PositionModel>,
    /// The symbols of the positions in the order in which they were opened.
    pub order: Seq<Seq<char>>,
    pub marks: Map<Seq<char>, Num>,
    pub funding: Map<Seq<char>, FundingModel>,
    pub interest: Map<Seq<char>, Num>,
}

impl View for Wallet {
    type V = WalletModel;

    open spec fn view(&self) -> WalletModel {
        WalletModel {
            balance: self.usdt_balance@,
            positions: self.positions@.map_values(|p: Position| p@),
            order: self.positions.keys(),
            marks: self.mark_prices@.map_values(|x: Double| x@),
            funding: self.funding@.map_values(|f: FundingState| funding_model(f)),
            interest: self.open_interest@.map_values(|x: Double| x@),
        }
    }
}

/// A finite number replaces what is known of a symbol; anything else leaves it.
pub open spec fn noted(
    known: Map<Seq<char>, Num>,
    symbol: Seq<char>,
    x: Option<Double>,
) -> Map<Seq<char>, Num> {
    match x {
        Some(v) => if v@ is Fin {
            known.insert(symbol, v@)
        } else {
            known
        },
        None => known,
    }
}

/// The wallet after a context message.
pub open spec fn with_context(w: WalletModel, evt: MarketContextEvent) -> WalletModel {
    let symbol = uppercase(evt.symbol@);
    let applied = if w.funding.contains_key(symbol) {
        w.funding[symbol].applied
    } else {
        0
    };
    let funding = match (evt.funding_rate, evt.next_funding_time) {
        (Some(rate), Some(next)) => if rate@ is Fin {
            w.funding.insert(symbol, FundingModel { rate: rate@, next, applied })
        } else {
            w.funding
        },
        _ => w.funding,
    };
    WalletModel {
        marks: noted(w.marks, symbol, evt.mark_price),
        interest: noted(w.interest, symbol, evt.open_interest),
        funding,
        ..w
    }
}

/// The gain of a position at a price.
pub open spec fn gain_at(p: PositionModel, price: Num) -> Num {
    let f = double_format();
    match p.side {
        PositionSide::Long => product(f, difference(f, price, p.entry), p.amount),
        PositionSide::Short => product(f, difference(f, p.entry, price), p.amount),
    }
}

/// A position valued at the mark price of its symbol, where that is finite and positive.
pub open spec fn marked(
    p: PositionModel,
    marks: Map<Seq<char>, Num>,
    symbol: Seq<char>,
) -> PositionModel {
    if marks.contains_key(symbol) && finite_positive(marks[symbol]) {
        PositionModel {
            value: product(double_format(), p.amount, marks[symbol]),
            pnl: gain_at(p, marks[symbol]),
            ..p
        }
    } else {
        p
    }
}

/// The wallet with all positions valued at the mark prices.
pub open spec fn revalued(w: WalletModel) -> WalletModel {
    WalletModel {
        positions: Map::new(
            |s: Seq<char>| w.positions.contains_key(s),
            |s: Seq<char>| marked(w.positions[s], w.marks, s),
        ),
        ..w
    }
}

/// Whether funding of a symbol is due: its time has come and it was not applied yet.
pub open spec fn funding_due(w: WalletModel, symbol: Seq<char>, now: i64) -> bool {
    w.positions.contains_key(symbol) && w.funding.contains_key(symbol) && now
        >= w.funding[symbol].next && w.funding[symbol].applied < w.funding[symbol].next
}

/// The balance after the funding fees of the first `n` positions.
pub open spec fn balance_after_funding(w: WalletModel, now: i64, n: int) -> Num
    decreases n,
{
    if n <= 0 {
        w.balance
    } else {
        let before = balance_after_funding(w, now, n - 1);
        let s = w.order[n - 1];
        if funding_due(w, s, now) {
            difference(
                double_format(),
                before,
                product(double_format(), w.positions[s].notional, w.funding[s].rate),
            )
        } else {
            before
        }
    }
}

/// The funding states after funding was applied to the first `n` positions.
pub open spec fn funding_after(w: WalletModel, now: i64, n: int) -> Map<Seq<char>, FundingModel>
    decreases n,
{
    if n <= 0 {
        w.funding
    } else {
        let before = funding_after(w, now, n - 1);
        let s = w.order[n - 1];
        if funding_due(w, s, now) {
            before.insert(s, FundingModel { applied: w.funding[s].next, ..w.funding[s] })
        } else {
            before
        }
    }
}

/// The wallet after funding was applied where it is due.
pub open spec fn funded(w: WalletModel, now: i64) -> WalletModel {
    WalletModel {
        balance: balance_after_funding(w, now, w.order.len() as int),
        funding: funding_after(w, now, w.order.len() as int),
        ..w
    }
}

pub open spec fn unit() -> Num {
    double_int(1)
}

/// The fee on a notional: four hundredths of a percent.
pub open spec fn fee_of(notional: Num) -> Num {
    product(double_format(), notional, double_ratio(4, 10_000))
}

/// Estimated liquidation price.
pub open spec fn liquidation_estimate(side: PositionSide, entry: Num, leverage: u8) -> Num {
    let f = double_format();
    let share = quotient(f, unit(), double_int(leverage as int));
    match side {
        PositionSide::Long => {
            let liq = product(f, entry, difference(f, unit(), share));
            if less(liq, zero()) {
                zero()
            } else {
                liq
            }
        },
        PositionSide::Short => product(f, entry, sum(f, unit(), share)),
    }
}

/// The mark price of a symbol where it is finite and positive, else the trade price.
pub open spec fn reference_price(w: WalletModel, symbol: Seq<char>, trade_price: Num) -> Num {
    let key = uppercase(symbol);
    if w.marks.contains_key(key) && finite_positive(w.marks[key]) {
        w.marks[key]
    } else {
        trade_price
    }
}

pub open spec fn at_least_one(leverage: u8) -> u8 {
    if leverage < 1 {
        1
    } else {
        leverage
    }
}

/// The price with the slippage against the trader who buys or sells.
pub open spec fn slipped(price: Num, slippage: Num, buys: bool) -> Num {
    let f = double_format();
    if buys {
        product(f, price, sum(f, unit(), slippage))
    } else {
        product(f, price, difference(f, unit(), slippage))
    }
}

/// The position that an order opens.
pub open spec fn new_position(
    symbol: Seq<char>,
    side: PositionSide,
    price: Num,
    margin: Num,
    leverage: u8,
) -> PositionModel {
    let f = double_format();
    let notional = product(f, margin, double_int(leverage as int));
    let amount = quotient(f, notional, price);
    PositionModel {
        symbol,
        side,
        amount,
        entry: price,
        leverage,
        margin,
        notional,
        liquidation: liquidation_estimate(side, price, leverage),
        value: product(f, amount, price),
        pnl: zero(),
    }
}

/// What opening a position costs: margin and fee.
pub open spec fn opening_cost(margin: Num, leverage: u8) -> Num {
    let f = double_format();
    sum(f, margin, fee_of(product(f, margin, double_int(leverage as int))))
}

/// Whether a position is opened: the balance is at least ten and covers the cost, there is none
/// yet, and a short sells at a positive price.
pub open spec fn may_open(
    w: WalletModel,
    symbol: Seq<char>,
    side: PositionSide,
    price: Num,
    margin: Num,
    leverage: u8,
) -> bool {
    &&& !less(w.balance, double_int(10))
    &&& !w.positions.contains_key(symbol)
    &&& side == PositionSide::Short ==> !at_most(price, zero())
    &&& !less(w.balance, opening_cost(margin, leverage))
}

/// The wallet after a position was opened, before its value is brought up to date.
pub open spec fn with_position(
    w: WalletModel,
    symbol: Seq<char>,
    side: PositionSide,
    price: Num,
    margin: Num,
    leverage: u8,
) -> WalletModel {
    WalletModel {
        balance: difference(double_format(), w.balance, opening_cost(margin, leverage)),
        positions: w.positions.insert(
            symbol,
            new_position(symbol, side, price, margin, leverage),
        ),
        order: w.order.push(symbol),
        ..w
    }
}

/// The wallet after an order to open a position.
pub open spec fn opened(
    w: WalletModel,
    name: Seq<char>,
    side: PositionSide,
    trade_price: Num,
    margin: Num,
    leverage: u8,
    slippage: Num,
) -> WalletModel {
    let symbol = uppercase(name);
    let lev = at_least_one(leverage);
    let price = slipped(
        reference_price(w, symbol, trade_price),
        slippage,
        side == PositionSide::Long,
    );
    if !may_open(w, symbol, side, price, margin, lev) {
        w
    } else {
        let opened = with_position(w, symbol, side, price, margin, lev);
        if side == PositionSide::Short || (w.marks.contains_key(symbol)
            && w.marks[symbol] is Fin) {
            revalued(opened)
        } else {
            opened
        }
    }
}

/// What closing a position brings: margin and gain, less the fee.
pub open spec fn closing_return(p: PositionModel, price: Num) -> Num {
    let f = double_format();
    difference(f, sum(f, p.margin, gain_at(p, price)), fee_of(product(f, p.amount, price)))
}

/// The wallet after an order to close a position; nothing changes where there is none.
pub open spec fn is_closed(
    w: WalletModel,
    name: Seq<char>,
    trade_price: Num,
    slippage: Num,
    after: WalletModel,
) -> bool {
    let symbol = uppercase(name);
    if !w.positions.contains_key(symbol) {
        after == w
    } else {
        let p = w.positions[symbol];
        let price = slipped(
            reference_price(w, symbol, trade_price),
            slippage,
            p.side == PositionSide::Short,
        );
        &&& after.balance == sum(double_format(), w.balance, closing_return(p, price))
        &&& after.positions == w.positions.remove(symbol)
        &&& exists|i: int|
            0 <= i < w.order.len() && #[trigger] w.order[i] == symbol && after.order
                == w.order.remove(i)
        &&& after.marks == w.marks
        &&& after.funding == w.funding
        &&& after.interest == w.interest
    }
}

/// The worth of the wallet with its first `n` positions.
pub open spec fn worth_of(w: WalletModel, n: int) -> Num
    decreases n,
{
    if n <= 0 {
        w.balance
    } else {
        let f = double_format();
        let s = w.order[n - 1];
        let p = w.positions[s];
        let mark = if w.marks.contains_key(s) {
            w.marks[s]
        } else {
            zero()
        };
        sum(f, worth_of(w, n - 1), sum(f, p.margin, gain_at(p, mark)))
    }
}

fn position_gain(p: &Position, price: Double) -> (r: Double)
    ensures
        r@ == gain_at(p@, price@),
{
    match p.side {
        PositionSide::Long => price.minus(p.average_entry_price).times(p.amount),
        PositionSide::Short => p.average_entry_price.minus(price).times(p.amount),
    }
}

fn fee(notional: Double) -> (r: Double)
    ensures
        r@ == fee_of(notional@),
{
    notional.times(Double::ratio(4, 10_000))
}

fn slip(price: Double, slippage: Double, buys: bool) -> (r: Double)
    ensures
        r@ == slipped(price@, slippage@, buys),
{
    let one = Double::from_unsigned(1);
    if buys {
        price.times(one.plus(slippage))
    } else {
        price.times(one.minus(slippage))
    }
}

impl Wallet {
    /// A wallet with 1000 USDT and no positions.
    pub fn new() -> (r: Self)
        ensures
            r@ == (WalletModel {
                balance: double_int(1000),
                positions: Map::empty(),
                order: Seq::empty(),
                marks: Map::empty(),
                funding: Map::empty(),
                interest: Map::empty(),
            }),
    {
        let r = Wallet {
            usdt_balance: Double::from_unsigned(1000),
            positions: SymbolMap::new(),
            mark_prices: SymbolMap::new(),
            funding: SymbolMap::new(),
            open_interest: SymbolMap::new(),
        };
        proof {
            assert(r@.positions =~= Map::<Seq<char>, PositionModel>::empty());
            assert(r@.marks =~= Map::<Seq<char>, Num>::empty());
            assert(r@.funding =~= Map::<Seq<char>, FundingModel>::empty());
            assert(r@.interest =~= Map::<Seq<char>, Num>::empty());
        }
        r
    }

    pub fn has_position(&self, symbol: &str) -> (r: bool)
        ensures
            r == self@.positions.contains_key(uppercase(symbol@)),
    {
        self.positions.contains(norm_symbol(symbol).as_str())
    }

    pub fn position_entry_price(&self, symbol: &str) -> (r: Option<Double>)
        ensures
            match r {
                Some(x) => self@.positions.contains_key(uppercase(symbol@)) && x@
                    == self@.positions[uppercase(symbol@)].entry,
                None => !self@.positions.contains_key(uppercase(symbol@)),
            },
    {
        match self.positions.get(norm_symbol(symbol).as_str()) {
            Some(p) => Some(p.average_entry_price),
            None => None,
        }
    }

    /// Takes in a context message: mark price, open interest and funding.
    pub fn update_context(&mut self, evt: &MarketContextEvent)
        ensures
            final(self)@ == with_context(old(self)@, *evt),
    {
        let symbol = norm_symbol(evt.symbol.as_str());
        let ghost w = self@;
        if let Some(mp) = evt.mark_price {
            if mp.is_finite() {
                self.mark_prices.insert(symbol.as_str(), mp);
            }
        }
        if let Some(oi) = evt.open_interest {
            if oi.is_finite() {
                self.open_interest.insert(symbol.as_str(), oi);
            }
        }
        if let Some(rate) = evt.funding_rate {
            if let Some(next) = evt.next_funding_time {
                if rate.is_finite() {
                    let applied: i64 = match self.funding.get(symbol.as_str()) {
                        Some(f) => f.last_applied_funding_time,
                        None => 0,
                    };
                    self.funding.insert(
                        symbol.as_str(),
                        FundingState {
                            funding_rate: rate,
                            next_funding_time: next,
                            last_applied_funding_time: applied,
                        },
                    );
                }
            }
        }
        proof {
            let target = with_context(w, *evt);
            assert(self@.marks =~= target.marks);
            assert(self@.interest =~= target.interest);
            assert(self@.funding =~= target.funding);
            assert(self@.positions =~= target.positions);
        }
    }

    /// Values all positions at the mark prices.
    pub fn update_pnl(&mut self)
        ensures
            final(self)@ == revalued(old(self)@),
    {
        let ghost w = self@;
        let ghost keys = self.positions.keys();
        let n: usize = self.positions.len();
        let mut i: usize = 0;
        proof {
            self.positions.lemma_keys();
            assert(keys.take(0) =~= Seq::<Seq<char>>::empty());
        }
        while i < n
            invariant
                i <= n,
                n == keys.len(),
                keys == w.order,
                keys.no_duplicates(),
                forall|k: int| 0 <= k < n ==> w.positions.contains_key(#[trigger] keys[k]),
                forall|s: Seq<char>| w.positions.contains_key(s) ==> #[trigger] keys.contains(s),
                self.positions.keys() == keys,
                self.positions@.dom() == w.positions.dom(),
                forall|s: Seq<char>| #[trigger]
                    self.positions@.contains_key(s) ==> self.positions@[s]@ == if keys.take(
                        i as int,
                    ).contains(s) {
                        marked(w.positions[s], w.marks, s)
                    } else {
                        w.positions[s]
                    },
                self.usdt_balance@ == w.balance,
                self@.marks == w.marks,
                self@.funding == w.funding,
                self@.interest == w.interest,
            decreases n - i,
        {
            let ghost before = self.positions@;
            let (name, pos) = self.positions.entry(i);
            let name = name.clone();
            let mut p = pos.clone();
            proof {
                assert(keys[i as int] == name@);
                assert(!keys.take(i as int).contains(name@)) by {
                    if keys.take(i as int).contains(name@) {
                        let k = choose|k: int| 0 <= k < i && keys.take(i as int)[k] == name@;
                        assert(keys[k] == keys[i as int]);
                    }
                }
                assert(before.contains_key(name@));
                assert(p@ == w.positions[name@]);
            }
            let mark = match self.mark_prices.get(name.as_str()) {
                Some(m) => if m.is_finite_positive() {
                    Some(*m)
                } else {
                    None
                },
                None => None,
            };
            proof {
                assert(self.mark_prices@.contains_key(name@) == w.marks.contains_key(name@));
                assert(w.marks.contains_key(name@) ==> self.mark_prices@[name@]@
                    == w.marks[name@]);
            }
            if let Some(m) = mark {
                p.current_value = p.amount.times(m);
                p.unrealized_pnl = position_gain(&p, m);
            }
            let ghost done = p@;
            proof {
                assert(done == marked(w.positions[name@], w.marks, name@));
            }
            self.positions.insert(name.as_str(), p);
            proof {
                let nth: int = i + 1;
                assert(self.positions@.dom() =~= w.positions.dom());
                assert forall|s: Seq<char>| #[trigger]
                    self.positions@.contains_key(s) implies self.positions@[s]@ == (
                if keys.take(i + 1).contains(s) {
                    marked(w.positions[s], w.marks, s)
                } else {
                    w.positions[s]
                }) by {
                    assert(keys.take(i + 1) =~= keys.take(i as int).push(name@));
                    if s == name@ {
                        assert(keys.take(i + 1)[i as int] == s);
                        assert(keys.take(i + 1).contains(s));
                    } else {
                        assert(before.contains_key(s));
                        if keys.take(i as int).contains(s) {
                            let k = choose|k: int|
                                0 <= k < i && keys.take(i as int)[k] == s;
                            assert(keys.take(i + 1)[k] == s);
                        }
                        if keys.take(i + 1).contains(s) {
                            let k = choose|k: int| 0 <= k < nth && keys.take(nth)[k] == s;
                            assert(k < i);
                            assert(keys.take(i as int)[k] == s);
                        }
                    }
                }
            }
            i = i + 1;
        }
        proof {
            assert(keys.take(n as int) =~= keys);
            assert(self@.positions =~= revalued(w).positions);
        }
    }

    /// Applies funding to each position once per funding time.
    pub fn apply_funding_if_due(&mut self, now_ms: i64)
        ensures
            final(self)@ == funded(old(self)@, now_ms),
    {
        let ghost w = self@;
        let ghost keys = self.positions.keys();
        let n: usize = self.positions.len();
        let mut i: usize = 0;
        proof {
            self.positions.lemma_keys();
        }
        while i < n
            invariant
                i <= n,
                n == keys.len(),
                keys == w.order,
                keys.no_duplicates(),
                self.positions.keys() == keys,
                self@.positions == w.positions,
                self@.marks == w.marks,
                self@.interest == w.interest,
                self.usdt_balance@ == balance_after_funding(w, now_ms, i as int),
                self@.funding == funding_after(w, now_ms, i as int),
            decreases n - i,
        {
            let (name, pos) = self.positions.entry(i);
            let name = name.clone();
            let notional = pos.size_notional;
            proof {
                assert(keys[i as int] == name@);
                assert(self@.positions.contains_key(name@));
                assert(self@.positions[name@].notional == notional@);
                lemma_funding_untouched(w, now_ms, i as int, name@);
            }
            let due = match self.funding.get(name.as_str()) {
                Some(f) => if now_ms >= f.next_funding_time && f.last_applied_funding_time
                    < f.next_funding_time {
                    Some(*f)
                } else {
                    None
                },
                None => None,
            };
            proof {
                let held = self.funding@;
                assert(self@.funding.contains_key(name@) == held.contains_key(name@));
                assert(held.contains_key(name@) ==> self@.funding[name@] == funding_model(
                    held[name@],
                ));
                assert(due is Some == funding_due(w, name@, now_ms));
            }
            if let Some(f) = due {
                let ghost before = self@.funding;
                self.usdt_balance = self.usdt_balance.minus(notional.times(f.funding_rate));
                self.funding.insert(
                    name.as_str(),
                    FundingState {
                        funding_rate: f.funding_rate,
                        next_funding_time: f.next_funding_time,
                        last_applied_funding_time: f.next_funding_time,
                    },
                );
                proof {
                    assert(self@.funding =~= funding_after(w, now_ms, i + 1));
                }
            }
            i = i + 1;
        }
    }

    fn liquidation_price_estimate(side: PositionSide, entry: Double, leverage: u8) -> (r: Double)
        ensures
            r@ == liquidation_estimate(side, entry@, leverage),
    {
        let one = Double::from_unsigned(1);
        let share = one.over(Double::from_unsigned(leverage as u64));
        match side {
            PositionSide::Long => {
                let liq = entry.times(one.minus(share));
                if liq.below(Double::zero()) {
                    Double::zero()
                } else {
                    liq
                }
            },
            PositionSide::Short => entry.times(one.plus(share)),
        }
    }

    /// Balance, margins and gains at the mark prices; a symbol without one counts at zero.
    pub fn net_worth(&self) -> (r: Double)
        ensures
            r@ == worth_of(self@, self@.order.len() as int),
    {
        let mut worth = self.usdt_balance;
        let n: usize = self.positions.len();
        let mut i: usize = 0;
        while i < n
            invariant
                i <= n,
                n == self.positions.keys().len(),
                worth@ == worth_of(self@, i as int),
            decreases n - i,
        {
            let (name, p) = self.positions.entry(i);
            let mark = match self.mark_prices.get(name.as_str()) {
                Some(m) => *m,
                None => Double::zero(),
            };
            proof {
                assert(self@.order[i as int] == name@);
                assert(self@.positions[name@] == p@);
                assert(self@.marks.contains_key(name@) == self.mark_prices@.contains_key(name@));
                assert(self@.marks.contains_key(name@) ==> self@.marks[name@]
                    == self.mark_prices@[name@]@);
            }
            worth = worth.plus(p.margin_used.plus(position_gain(p, mark)));
            i = i + 1;
        }
        worth
    }

    fn exec_reference_price(&self, symbol: &str, trade_price: Double) -> (r: Double)
        ensures
            r@ == reference_price(self@, symbol@, trade_price@),
    {
        let key = norm_symbol(symbol);
        match self.mark_prices.get(key.as_str()) {
            Some(m) => if m.is_finite_positive() {
                *m
            } else {
                trade_price
            },
            None => trade_price,
        }
    }

    fn open(
        &mut self,
        name: &str,
        side: PositionSide,
        trade_price: Double,
        usdt_margin: Double,
        leverage: u8,
        slippage: Double,
    )
        ensures
            final(self)@ == opened(
                old(self)@,
                name@,
                side,
                trade_price@,
                usdt_margin@,
                leverage,
                slippage@,
            ),
    {
        let ghost w = self@;
        let symbol = norm_symbol(name);
        if self.usdt_balance.below(Double::from_unsigned(10)) {
            return;
        }
        if self.positions.contains(symbol.as_str()) {
            return;
        }
        let lev: u8 = if leverage < 1 {
            1
        } else {
            leverage
        };
        let reference = self.exec_reference_price(symbol.as_str(), trade_price);
        let price = slip(reference, slippage, side == PositionSide::Long);
        if side == PositionSide::Short && price.within(Double::zero()) {
            return;
        }
        let notional = usdt_margin.times(Double::from_unsigned(lev as u64));
        let amount = notional.over(price);
        let cost = usdt_margin.plus(fee(notional));
        if self.usdt_balance.below(cost) {
            return;
        }
        self.usdt_balance = self.usdt_balance.minus(cost);
        let pos = Position {
            symbol: symbol.clone(),
            side,
            amount,
            average_entry_price: price,
            leverage: lev,
            margin_used: usdt_margin,
            size_notional: notional,
            liquidation_price: Self::liquidation_price_estimate(side, price, lev),
            current_value: amount.times(price),
            unrealized_pnl: Double::zero(),
        };
        let ghost made = pos@;
        self.positions.insert(symbol.as_str(), pos);
        proof {
            let target = with_position(w, symbol@, side, price@, usdt_margin@, lev);
            assert(made == target.positions[symbol@]);
            assert(self@.positions =~= target.positions);
            assert(self@ == target);
        }
        let known = match self.mark_prices.get(symbol.as_str()) {
            Some(m) => m.is_finite(),
            None => false,
        };
        if side == PositionSide::Short || known {
            self.update_pnl();
        }
    }

    /// Opens a long with a slippage drawn by the caller.
    pub fn execute_open_long(
        &mut self,
        symbol: &str,
        trade_price: Double,
        usdt_margin: Double,
        leverage: u8,
        drawn: Double,
    )
        ensures
            final(self)@ == opened(
                old(self)@,
                symbol@,
                PositionSide::Long,
                trade_price@,
                usdt_margin@,
                leverage,
                drawn@,
            ),
    {
        self.execute_open_long_with_slippage(
            symbol,
            trade_price,
            usdt_margin,
            leverage,
            None,
            drawn,
        );
    }

    /// Opens a long with the given slippage, or else the one drawn by the caller.
    pub fn execute_open_long_with_slippage(
        &mut self,
        symbol: &str,
        trade_price: Double,
        usdt_margin: Double,
        leverage: u8,
        slippage_override: Option<Double>,
        drawn: Double,
    )
        ensures
            final(self)@ == opened(
                old(self)@,
                symbol@,
                PositionSide::Long,
                trade_price@,
                usdt_margin@,
                leverage,
                match slippage_override {
                    Some(s) => s@,
                    None => drawn@,
                },
            ),
    {
        let slippage = match slippage_override {
            Some(s) => s,
            None => drawn,
        };
        self.open(symbol, PositionSide::Long, trade_price, usdt_margin, leverage, slippage);
    }

    /// Opens a short with a slippage drawn by the caller.
    pub fn execute_open_short(
        &mut self,
        symbol: &str,
        trade_price: Double,
        usdt_margin: Double,
        leverage: u8,
        drawn: Double,
    )
        ensures
            final(self)@ == opened(
                old(self)@,
                symbol@,
                PositionSide::Short,
                trade_price@,
                usdt_margin@,
                leverage,
                drawn@,
            ),
    {
        self.execute_open_short_with_slippage(
            symbol,
            trade_price,
            usdt_margin,
            leverage,
            None,
            drawn,
        );
    }

    /// Opens a short with the given slippage, or else the one drawn by the caller.
    pub fn execute_open_short_with_slippage(
        &mut self,
        symbol: &str,
        trade_price: Double,
        usdt_margin: Double,
        leverage: u8,
        slippage_override: Option<Double>,
        drawn: Double,
    )
        ensures
            final(self)@ == opened(
                old(self)@,
                symbol@,
                PositionSide::Short,
                trade_price@,
                usdt_margin@,
                leverage,
                match slippage_override {
                    Some(s) => s@,
                    None => drawn@,
                },
            ),
    {
        let slippage = match slippage_override {
            Some(s) => s,
            None => drawn,
        };
        self.open(symbol, PositionSide::Short, trade_price, usdt_margin, leverage, slippage);
    }

    /// Closes a position with a slippage drawn by the caller.
    pub fn execute_close(&mut self, symbol: &str, trade_price: Double, drawn: Double)
        ensures
            is_closed(old(self)@, symbol@, trade_price@, drawn@, final(self)@),
    {
        self.execute_close_with_slippage(symbol, trade_price, None, drawn);
    }

    /// Closes a position with the given slippage, or else the one drawn by the caller.
    pub fn execute_close_with_slippage(
        &mut self,
        symbol: &str,
        trade_price: Double,
        slippage_override: Option<Double>,
        drawn: Double,
    )
        ensures
            is_closed(
                old(self)@,
                symbol@,
                trade_price@,
                match slippage_override {
                    Some(s) => s@,
                    None => drawn@,
                },
                final(self)@,
            ),
    {
        let ghost w = self@;
        let key = norm_symbol(symbol);
        let slippage = match slippage_override {
            Some(s) => s,
            None => drawn,
        };
        let pos = match self.positions.remove(key.as_str()) {
            Some(p) => p,
            None => {
                proof {
                    assert(self@.positions =~= w.positions);
                }
                return;
            },
        };
        let reference = self.exec_reference_price(key.as_str(), trade_price);
        let price = slip(reference, slippage, pos.side == PositionSide::Short);
        let close_notional = pos.amount.times(price);
        let back = pos.margin_used.plus(position_gain(&pos, price)).minus(fee(close_notional));
        self.usdt_balance = self.usdt_balance.plus(back);
        proof {
            assert(w.positions[key@] == pos@);
            assert(self@.positions =~= w.positions.remove(key@));
            let i = choose|i: int|
                0 <= i < w.order.len() && #[trigger] w.order[i] == key@ && self.positions.keys()
                    == w.order.remove(i);
            assert(w.order[i] == key@ && self@.order == w.order.remove(i));
            assert(self@.marks == w.marks);
            assert(price@ == slipped(
                reference_price(w, key@, trade_price@),
                slippage@,
                pos.side == PositionSide::Short,
            ));
            assert(back@ == closing_return(pos@, price@));
        }
    }

    /// Opens a long of leverage one.
    pub fn execute_buy(&mut self, symbol: &str, price: Double, usdt_amount: Double, drawn: Double)
        ensures
            final(self)@ == opened(
                old(self)@,
                symbol@,
                PositionSide::Long,
                price@,
                usdt_amount@,
                1,
                drawn@,
            ),
    {
        self.execute_open_long(symbol, price, usdt_amount, 1, drawn);
    }

    /// Opens a long of leverage one with the given slippage, or else the one drawn.
    pub fn execute_buy_with_slippage(
        &mut self,
        symbol: &str,
        price: Double,
        usdt_amount: Double,
        slippage_override: Option<Double>,
        drawn: Double,
    )
        ensures
            final(self)@ == opened(
                old(self)@,
                symbol@,
                PositionSide::Long,
                price@,
                usdt_amount@,
                1,
                match slippage_override {
                    Some(s) => s@,
                    None => drawn@,
                },
            ),
    {
        self.execute_open_long_with_slippage(
            symbol,
            price,
            usdt_amount,
            1,
            slippage_override,
            drawn,
        );
    }

    /// Closes the position.
    pub fn execute_sell(&mut self, symbol: &str, price: Double, drawn: Double)
        ensures
            is_closed(old(self)@, symbol@, price@, drawn@, final(self)@),
    {
        self.execute_close(symbol, price, drawn);
    }

    /// Closes the position with the given slippage, or else the one drawn.
    pub fn execute_sell_with_slippage(
        &mut self,
        symbol: &str,
        price: Double,
        slippage_override: Option<Double>,
        drawn: Double,
    )
        ensures
            is_closed(
                old(self)@,
                symbol@,
                price@,
                match slippage_override {
                    Some(s) => s@,
                    None => drawn@,
                },
                final(self)@,
            ),
    {
        self.execute_close_with_slippage(symbol, price, slippage_override, drawn);
    }
}

/// Funding of a symbol does not change while the positions before its own are funded.
proof fn lemma_funding_untouched(w: WalletModel, now: i64, n: int, symbol: Seq<char>)
    requires
        0 <= n < w.order.len(),
        w.order.no_duplicates(),
        w.order[n] == symbol,
    ensures
        funding_after(w, now, n).contains_key(symbol) == w.funding.contains_key(symbol),
        w.funding.contains_key(symbol) ==> funding_after(w, now, n)[symbol] == w.funding[symbol],
{
    lemma_funding_prefix(w, now, n, symbol);
}

proof fn lemma_funding_prefix(w: WalletModel, now: i64, n: int, symbol: Seq<char>)
    requires
        0 <= n <= w.order.len(),
        forall|k: int| 0 <= k < n ==> #[trigger] w.order[k] != symbol,
    ensures
        funding_after(w, now, n).contains_key(symbol) == w.funding.contains_key(symbol),
        w.funding.contains_key(symbol) ==> funding_after(w, now, n)[symbol] == w.funding[symbol],
    decreases n,
{
    if n > 0 {
        assert(w.order[n - 1] != symbol);
        lemma_funding_prefix(w, now, n - 1, symbol);
    }
}

/// The state of a symbol's funding after the first `n` positions were funded.
proof fn lemma_funding_done(w: WalletModel, now: i64, n: int, symbol: Seq<char>)
    requires
        0 <= n <= w.order.len(),
        w.order.no_duplicates(),
        w.funding.contains_key(symbol),
    ensures
        funding_after(w, now, n).contains_key(symbol),
        funding_after(w, now, n)[symbol] == if w.order.take(n).contains(symbol) && funding_due(
            w,
            symbol,
            now,
        ) {
            FundingModel { applied: w.funding[symbol].next, ..w.funding[symbol] }
        } else {
            w.funding[symbol]
        },
    decreases n,
{
    if n > 0 {
        lemma_funding_done(w, now, n - 1, symbol);
        let s = w.order[n - 1];
        assert(w.order.take(n) =~= w.order.take(n - 1).push(s));
        if s == symbol {
            assert(w.order.take(n)[n - 1] == symbol);
        }
        if w.order.take(n - 1).contains(symbol) {
            let m = n - 1;
            let k = choose|k: int| 0 <= k < m && w.order.take(m)[k] == symbol;
            assert(w.order.take(n)[k] == symbol);
        }
        if w.order.take(n).contains(symbol) && s != symbol {
            let k = choose|k: int| 0 <= k < n && w.order.take(n)[k] == symbol;
            assert(w.order.take(n - 1)[k] == symbol);
        }
    } else {
        assert(!w.order.take(0).contains(symbol));
    }
}

/// Funding is applied once per funding time: right after it was applied nothing is due, now or
/// at any later time, until a context message sets a new funding time.
pub proof fn law_funding_applies_once(w: WalletModel, now: i64, later: i64, symbol: Seq<char>)
    requires
        w.order.no_duplicates(),
        w.positions.contains_key(symbol) ==> w.order.contains(symbol),
        now <= later,
        funding_due(w, symbol, now),
    ensures
        !funding_due(funded(w, now), symbol, later),
{
    let n = w.order.len() as int;
    lemma_funding_done(w, now, n, symbol);
    assert(w.order.take(n) =~= w.order);
}

/// Where no funding is due the balance stays.
pub proof fn law_no_funding_no_fee(w: WalletModel, now: i64, n: int)
    requires
        forall|s: Seq<char>| !#[trigger] funding_due(w, s, now),
        0 <= n <= w.order.len(),
    ensures
        balance_after_funding(w, now, n) == w.balance,
        funding_after(w, now, n) == w.funding,
    decreases n,
{
    if n > 0 {
        law_no_funding_no_fee(w, now, n - 1);
        assert(!funding_due(w, w.order[n - 1], now));
    }
}

/// An order that cannot be paid, or for a symbol that has a position, changes nothing.
pub proof fn law_refused_open_changes_nothing(
    w: WalletModel,
    name: Seq<char>,
    side: PositionSide,
    trade_price: Num,
    margin: Num,
    leverage: u8,
    slippage: Num,
)
    requires
        less(w.balance, double_int(10)) || w.positions.contains_key(uppercase(name)) || less(
            w.balance,
            opening_cost(margin, at_least_one(leverage)),
        ),
    ensures
        opened(w, name, side, trade_price, margin, leverage, slippage) == w,
{
}

/// After an order to close, the symbol has no position, and the others keep theirs.
pub proof fn law_close_leaves_the_others(
    w: WalletModel,
    name: Seq<char>,
    trade_price: Num,
    slippage: Num,
    after: WalletModel,
    other: Seq<char>,
)
    requires
        is_closed(w, name, trade_price, slippage, after),
    ensures
        !after.positions.contains_key(uppercase(name)),
        other != uppercase(name) ==> after.positions.contains_key(other)
            == w.positions.contains_key(other),
        other != uppercase(name) && w.positions.contains_key(other) ==> after.positions[other]
            == w.positions[other],
{
}

/// Valuing twice is valuing once.
pub proof fn law_revaluing_is_idempotent(w: WalletModel)
    ensures
        revalued(revalued(w)) == revalued(w),
{
    assert(revalued(revalued(w)).positions =~= revalued(w).positions);
}

} // verus!
