//! Strategies of the futures simulation.

use super::model::{event_price, event_symbol, norm_symbol, MarketEvent};
use super::wallet::{FundingState, Wallet, WalletModel};
use crate::common::Action;
use crate::num::double::{double_int, double_ratio};
use crate::num::model::{double_format, less, product, zero, Num};
use crate::num::Double;
use crate::symbols::SymbolMap;
use crate::text::words::uppercase;
use vstd::prelude::*;

verus! {

/// What is known of a symbol's market.
#[derive(Clone, Copy, Debug, PartialEq, Eq, Structural)]
pub struct SymbolContext {
    pub mark_price: Option<Double>,
    pub funding_rate: Option<Double>,
    pub open_interest: Option<Double>,
    pub next_funding_time: Option<i64>,
}

/// The entry of a symbol, where there is one.
pub open spec fn known<V>(m: Map<Seq<char>, V>, symbol: Seq<char>) -> Option<V> {
    if m.contains_key(symbol) {
        Some(m[symbol])
    } else {
        None
    }
}

/// What the wallet knows of a symbol's market.
pub open spec fn is_context(wallet: Wallet, symbol: Seq<char>, r: SymbolContext) -> bool {
    &&& r.mark_price == known(wallet.mark_prices@, uppercase(symbol))
    &&& r.open_interest == known(wallet.open_interest@, uppercase(symbol))
    &&& match known(wallet.funding@, uppercase(symbol)) {
        Some(f) => r.funding_rate == Some(f.funding_rate) && r.next_funding_time == Some(
            f.next_funding_time,
        ),
        None => r.funding_rate is None && r.next_funding_time is None,
    }
}

/// What the wallet knows of a symbol's market.
pub fn symbol_context_from_wallet(wallet: &Wallet, symbol: &str) -> (r: SymbolContext)
    ensures
        is_context(*wallet, symbol@, r),
{
    let symbol = norm_symbol(symbol);
    let mark_price = match wallet.mark_prices.get(symbol.as_str()) {
        Some(x) => Some(*x),
        None => None,
    };
    let open_interest = match wallet.open_interest.get(symbol.as_str()) {
        Some(x) => Some(*x),
        None => None,
    };
    let funding: Option<FundingState> = match wallet.funding.get(symbol.as_str()) {
        Some(f) => Some(*f),
        None => None,
    };
    SymbolContext {
        mark_price,
        funding_rate: match funding {
            Some(f) => Some(f.funding_rate),
            None => None,
        },
        open_interest,
        next_funding_time: match funding {
            Some(f) => Some(f.next_funding_time),
            None => None,
        },
    }
}

/// What a strategy asks for.
#[derive(Clone, Copy, Debug, PartialEq, Eq, Structural)]
pub enum TradeAction {
    OpenLong { usdt_margin: Double, leverage: u8 },
    OpenShort { usdt_margin: Double, leverage: u8 },
    ClosePosition,
    Hold,
}

pub open spec fn contract_action(a: TradeAction) -> Action {
    match a {
        TradeAction::OpenLong { .. } => Action::Long,
        TradeAction::OpenShort { .. } => Action::Short,
        _ => Action::NoTrade,
    }
}

/// The decision that a trade action amounts to.
pub fn trade_action_to_contract_action(a: &TradeAction) -> (r: Action)
    ensures
        r == contract_action(*a),
{
    match a {
        TradeAction::OpenLong { .. } => Action::Long,
        TradeAction::OpenShort { .. } => Action::Short,
        TradeAction::ClosePosition => Action::NoTrade,
        TradeAction::Hold => Action::NoTrade,
    }
}

/// A strategy: from a market message, the wallet and what is known of the symbol to an action.
pub trait Strategy: Send {
    /// In its present state the strategy may answer a message with this action, and is `after`
    /// it in that state.
    spec fn allows(
        &self,
        event: MarketEvent,
        wallet: WalletModel,
        ctx: SymbolContext,
        a: TradeAction,
        after: &Self,
    ) -> bool;

    fn evaluate(
        &mut self,
        market_event: &MarketEvent,
        wallet: &Wallet,
        ctx: &SymbolContext,
    ) -> (r: TradeAction)
        ensures
            old(self).allows(*market_event, wallet@, *ctx, r, &*final(self)),
    ;
}

/// The margin of a position that the strategies open: 100 USDT.
pub open spec fn is_small_long(a: TradeAction) -> bool {
    a matches TradeAction::OpenLong { usdt_margin, leverage } && usdt_margin@ == double_int(100)
        && leverage == 1
}

fn small_long() -> (a: TradeAction)
    ensures
        is_small_long(a),
{
    TradeAction::OpenLong { usdt_margin: Double::from_unsigned(100), leverage: 1 }
}

/// The symbol and the price that the trend follower works on: the price must be positive.
pub fn trend_input(event: &MarketEvent) -> (r: Option<(String, Double)>)
    ensures
        match r {
            Some((s, p)) => event_symbol(*event) == Some(s@) && event_price(*event) == Some(p@)
                && less(zero(), p@),
            None => event_symbol(*event) is None || !(event_price(*event) matches Some(p) && less(
                zero(),
                p,
            )),
        },
{
    let symbol = event.symbol()?;
    let price = event.price_f64()?;
    if price.above(Double::zero()) {
        Some((symbol, price))
    } else {
        None
    }
}

/// Trend following: long on a pullback in an uptrend, closed when overbought.
pub open spec fn is_trend_action(has_position: bool, price: Num, ema: Num, rsi: Num, a: TradeAction) -> bool {
    if !has_position && less(ema, price) && less(rsi, double_int(45)) {
        is_small_long(a)
    } else if has_position && less(double_int(70), rsi) {
        a == TradeAction::ClosePosition
    } else {
        a == TradeAction::Hold
    }
}

/// Trend following, from the moving average and the strength index after the price.
pub fn trend_action(
    wallet: &Wallet,
    symbol: &str,
    price: Double,
    ema: Double,
    rsi: Double,
) -> (a: TradeAction)
    ensures
        is_trend_action(
            wallet@.positions.contains_key(uppercase(symbol@)),
            price@,
            ema@,
            rsi@,
            a,
        ),
{
    let has_position = wallet.has_position(symbol);
    if !has_position && price.above(ema) && rsi.below(Double::from_unsigned(45)) {
        small_long()
    } else if has_position && rsi.above(Double::from_unsigned(70)) {
        TradeAction::ClosePosition
    } else {
        TradeAction::Hold
    }
}

/// Prices that go into the moving average.
pub const EMA_PERIOD: usize = 50;

/// Prices that go into the strength index.
pub const RSI_PERIOD: usize = 14;

/// Trend following with an exponential moving average and a relative strength index for each
/// symbol. `fresh` makes the indicators of a symbol over so many prices, or `None` where they
/// cannot be made; `next` takes the indicators and one more price to the indicators after it, the
/// average and the index.
#[verifier::reject_recursive_types(I)]
#[verifier::reject_recursive_types(M)]
#[verifier::reject_recursive_types(N)]
pub struct TrendFollowStrategy<
    I: Send,
    M: Fn(usize, usize) -> Option<I> + Send,
    N: Fn(I, Double) -> (I, (Double, Double)) + Send,
> {
    fresh: M,
    next: N,
    indicators: SymbolMap<I>,
}

/// What the trend follower asks for where these are the values of its indicators.
pub open spec fn follows_trend(
    wallet: WalletModel,
    symbol: Seq<char>,
    price: Num,
    values: (Num, Num),
    a: TradeAction,
) -> bool {
    is_trend_action(
        wallet.positions.contains_key(uppercase(symbol)),
        price,
        values.0,
        values.1,
        a,
    )
}

/// The indicators of a symbol before a price: those kept for it, or fresh ones over 50 and 14
/// prices.
pub open spec fn is_held<I, M: Fn(usize, usize) -> Option<I>>(
    fresh: M,
    held: Map<Seq<char>, I>,
    symbol: Seq<char>,
    i: I,
) -> bool {
    if held.contains_key(symbol) {
        i == held[symbol]
    } else {
        call_ensures(fresh, (EMA_PERIOD, RSI_PERIOD), Some(i))
    }
}

/// The symbol's indicators were stepped once, by this price, the action follows from their
/// values, and they are kept for the symbol.
pub open spec fn is_stepped<
    I,
    M: Fn(usize, usize) -> Option<I>,
    N: Fn(I, Double) -> (I, (Double, Double)),
>(
    fresh: M,
    next: N,
    held: Map<Seq<char>, I>,
    symbol: Seq<char>,
    price: Num,
    wallet: WalletModel,
    a: TradeAction,
    after: Map<Seq<char>, I>,
) -> bool {
    exists|i: I, p: Double, j: I, values: (Double, Double)|
        {
            &&& is_held(fresh, held, symbol, i)
            &&& p@ == price
            &&& #[trigger] call_ensures(next, (i, p), (j, values))
            &&& follows_trend(wallet, symbol, price, (values.0@, values.1@), a)
            &&& after == held.insert(symbol, j)
        }
}

/// No indicators can be made for a symbol that has none.
pub open spec fn is_without<I, M: Fn(usize, usize) -> Option<I>>(
    fresh: M,
    held: Map<Seq<char>, I>,
    symbol: Seq<char>,
) -> bool {
    !held.contains_key(symbol) && call_ensures(fresh, (EMA_PERIOD, RSI_PERIOD), None::<I>)
}

/// What the trend follower answers, and the indicators that it then keeps.
pub open spec fn is_trend<
    I,
    M: Fn(usize, usize) -> Option<I>,
    N: Fn(I, Double) -> (I, (Double, Double)),
>(
    fresh: M,
    next: N,
    held: Map<Seq<char>, I>,
    event: MarketEvent,
    wallet: WalletModel,
    a: TradeAction,
    after: Map<Seq<char>, I>,
) -> bool {
    match (event_symbol(event), event_price(event)) {
        (Some(symbol), Some(price)) => if less(zero(), price) {
            is_stepped(fresh, next, held, symbol, price, wallet, a, after) || (is_without(
                fresh,
                held,
                symbol,
            ) && a == TradeAction::Hold && after == held)
        } else {
            a == TradeAction::Hold && after == held
        },
        _ => a == TradeAction::Hold && after == held,
    }
}

impl<
    I: Send,
    M: Fn(usize, usize) -> Option<I> + Send,
    N: Fn(I, Double) -> (I, (Double, Double)) + Send,
> TrendFollowStrategy<I, M, N> {
    #[verifier::type_invariant]
    spec fn inv(self) -> bool {
        &&& call_requires(self.fresh, (EMA_PERIOD, RSI_PERIOD))
        &&& forall|i: I, p: Double| #[trigger] call_requires(self.next, (i, p))
    }

    pub closed spec fn maker(self) -> M {
        self.fresh
    }

    pub closed spec fn stepper(self) -> N {
        self.next
    }

    /// The indicators kept for each symbol.
    pub closed spec fn held(self) -> Map<Seq<char>, I> {
        self.indicators@
    }

    pub fn new(fresh: M, next: N) -> (r: Self)
        requires
            call_requires(fresh, (EMA_PERIOD, RSI_PERIOD)),
            forall|i: I, p: Double| #[trigger] call_requires(next, (i, p)),
        ensures
            r.maker() == fresh,
            r.stepper() == next,
            r.held() == Map::<Seq<char>, I>::empty(),
    {
        TrendFollowStrategy { fresh, next, indicators: SymbolMap::new() }
    }

    /// The indicators of a symbol, made where there are none yet.
    fn ensure_indicators(&mut self, symbol: &str) -> (r: Option<I>)
        ensures
            final(self).maker() == old(self).maker(),
            final(self).stepper() == old(self).stepper(),
            final(self).held() == old(self).held().remove(symbol@),
            match r {
                Some(i) => is_held(old(self).maker(), old(self).held(), symbol@, i),
                None => is_without(old(self).maker(), old(self).held(), symbol@),
            },
    {
        proof {
            use_type_invariant(&*self);
        }
        let mut kept: SymbolMap<I> = SymbolMap::new();
        std::mem::swap(&mut kept, &mut self.indicators);
        let found = kept.remove(symbol);
        std::mem::swap(&mut kept, &mut self.indicators);
        match found {
            Some(i) => Some(i),
            None => (self.fresh)(EMA_PERIOD, RSI_PERIOD),
        }
    }
}

impl<
    I: Send,
    M: Fn(usize, usize) -> Option<I> + Send,
    N: Fn(I, Double) -> (I, (Double, Double)) + Send,
> Strategy for TrendFollowStrategy<I, M, N> {
    open spec fn allows(
        &self,
        event: MarketEvent,
        wallet: WalletModel,
        ctx: SymbolContext,
        a: TradeAction,
        after: &Self,
    ) -> bool {
        &&& is_trend(
            self.maker(),
            self.stepper(),
            self.held(),
            event,
            wallet,
            a,
            after.held(),
        )
        &&& after.maker() == self.maker()
        &&& after.stepper() == self.stepper()
    }

    fn evaluate(
        &mut self,
        market_event: &MarketEvent,
        wallet: &Wallet,
        ctx: &SymbolContext,
    ) -> (a: TradeAction) {
        let (symbol, price) = match trend_input(market_event) {
            Some(input) => input,
            None => return TradeAction::Hold,
        };
        let ghost held = self.held();
        let found = match self.ensure_indicators(symbol.as_str()) {
            Some(i) => i,
            None => {
                assert(self.held() =~= held);
                return TradeAction::Hold;
            },
        };
        let ghost before = found;
        proof {
            use_type_invariant(&*self);
        }
        let (indicators, values) = (self.next)(found, price);
        let ghost stepped = indicators;
        let mut kept: SymbolMap<I> = SymbolMap::new();
        std::mem::swap(&mut kept, &mut self.indicators);
        kept.insert(symbol.as_str(), indicators);
        std::mem::swap(&mut kept, &mut self.indicators);
        let (ema, rsi) = values;
        let a = trend_action(wallet, symbol.as_str(), price, ema, rsi);
        proof {
            assert(self.held() =~= held.insert(symbol@, stepped));
            assert(call_ensures(self.next, (before, price), (stepped, values)));
            assert(is_stepped(
                self.maker(),
                self.stepper(),
                held,
                symbol@,
                price@,
                wallet@,
                a,
                self.held(),
            ));
        }
        a
    }
}

/// Opens a long where there is no position, closes it half a percent above its entry.
#[derive(Clone, Copy, Debug, PartialEq, Eq, Structural)]
pub struct PingPongStrategy;

/// Whether the price is more than half a percent above the entry.
pub open spec fn in_profit(price: Num, entry: Num) -> bool {
    less(product(double_format(), entry, double_ratio(1005, 1000)), price)
}

pub open spec fn is_ping_pong(event: MarketEvent, w: WalletModel, a: TradeAction) -> bool {
    match (event_symbol(event), event_price(event)) {
        (Some(symbol), Some(price)) => {
            let key = uppercase(symbol);
            if less(w.balance, double_int(10)) {
                a == TradeAction::Hold
            } else if !w.positions.contains_key(key) {
                is_small_long(a)
            } else if in_profit(price, w.positions[key].entry) {
                a == TradeAction::ClosePosition
            } else {
                a == TradeAction::Hold
            }
        },
        _ => a == TradeAction::Hold,
    }
}

impl Strategy for PingPongStrategy {
    open spec fn allows(
        &self,
        event: MarketEvent,
        wallet: WalletModel,
        ctx: SymbolContext,
        a: TradeAction,
        after: &Self,
    ) -> bool {
        is_ping_pong(event, wallet, a) && *after == *self
    }

    fn evaluate(
        &mut self,
        market_event: &MarketEvent,
        wallet: &Wallet,
        ctx: &SymbolContext,
    ) -> (a: TradeAction) {
        let symbol = match market_event.symbol() {
            Some(s) => s,
            None => return TradeAction::Hold,
        };
        let price = match market_event.price_f64() {
            Some(p) => p,
            None => return TradeAction::Hold,
        };
        if wallet.usdt_balance.below(Double::from_unsigned(10)) {
            return TradeAction::Hold;
        }
        match wallet.position_entry_price(symbol.as_str()) {
            None => small_long(),
            Some(entry) => if price.above(entry.times(Double::ratio(1005, 1000))) {
                TradeAction::ClosePosition
            } else {
                TradeAction::Hold
            },
        }
    }
}

/// The trend follower opens a long of a hundred at leverage one exactly where there is no position,
/// the price is above the average and the index below 45; it closes exactly where there is a
/// position and the index is above 70; and it never goes short.
pub proof fn law_trends_are_followed(
    wallet: WalletModel,
    symbol: Seq<char>,
    price: Num,
    ema: Num,
    rsi: Num,
    a: TradeAction,
)
    requires
        follows_trend(wallet, symbol, price, (ema, rsi), a),
    ensures
        ({
            let held = wallet.positions.contains_key(uppercase(symbol));
            &&& a is OpenLong <==> !held && less(ema, price) && less(rsi, double_int(45))
            &&& a is ClosePosition <==> held && less(double_int(70), rsi)
            &&& !(a is OpenShort)
            &&& a matches TradeAction::OpenLong { usdt_margin, leverage } ==> usdt_margin@
                == double_int(100) && leverage == 1
        }),
{
}

/// The ping-pong opens a long of a hundred at leverage one where there is no position, closes it
/// where the price is more than half a percent above its entry, and only holds with a balance
/// below ten or a message without symbol or price.
pub proof fn law_ping_pong(event: MarketEvent, w: WalletModel, a: TradeAction)
    requires
        is_ping_pong(event, w, a),
    ensures
        event_symbol(event) is None || event_price(event) is None ==> a == TradeAction::Hold,
        event_symbol(event) is Some && event_price(event) is Some ==> {
            let s = uppercase(event_symbol(event)->Some_0);
            let price = event_price(event)->Some_0;
            let rich = !less(w.balance, double_int(10));
            let held = w.positions.contains_key(s);
            let up = less(
                product(double_format(), w.positions[s].entry, double_ratio(1005, 1000)),
                price,
            );
            &&& a is OpenLong <==> rich && !held
            &&& a is ClosePosition <==> rich && held && up
            &&& !(a is OpenShort)
            &&& a matches TradeAction::OpenLong { usdt_margin, leverage } ==> usdt_margin@
                == double_int(100) && leverage == 1
        },
{
}

/// What is known of a symbol's market is what the wallet knows of it.
pub proof fn law_context_is_the_wallets(wallet: Wallet, symbol: Seq<char>, r: SymbolContext)
    requires
        is_context(wallet, symbol, r),
    ensures
        ({
            let s = uppercase(symbol);
            &&& r.mark_price is Some <==> wallet.mark_prices@.contains_key(s)
            &&& r.mark_price matches Some(x) ==> x == wallet.mark_prices@[s]
            &&& r.open_interest is Some <==> wallet.open_interest@.contains_key(s)
            &&& r.open_interest matches Some(x) ==> x == wallet.open_interest@[s]
            &&& r.funding_rate is Some <==> wallet.funding@.contains_key(s)
            &&& r.funding_rate matches Some(x) ==> x == wallet.funding@[s].funding_rate
            &&& r.next_funding_time matches Some(t) ==> t == wallet.funding@[s].next_funding_time
        }),
{
}

/// A long is a long decision and a short a short one; closing and holding are none.
pub proof fn law_actions_amount_to_decisions(a: TradeAction)
    ensures
        contract_action(a) == Action::Long <==> a is OpenLong,
        contract_action(a) == Action::Short <==> a is OpenShort,
{
}

/// A message with a symbol and a positive price steps the indicators of that symbol once, by that
/// price: those kept for it, or fresh ones over 50 and 14 prices. What comes out is kept for the
/// symbol, the action goes by the values, and the indicators of other symbols stay. Any other
/// message changes nothing, and so does one whose indicators cannot be made.
pub proof fn law_indicators_step_once_per_price<
    I,
    M: Fn(usize, usize) -> Option<I>,
    N: Fn(I, Double) -> (I, (Double, Double)),
>(
    fresh: M,
    next: N,
    held: Map<Seq<char>, I>,
    event: MarketEvent,
    wallet: WalletModel,
    a: TradeAction,
    after: Map<Seq<char>, I>,
    other: Seq<char>,
)
    requires
        is_trend(fresh, next, held, event, wallet, a, after),
    ensures
        ({
            let told = event_symbol(event) is Some && (event_price(event) matches Some(p) && less(
                zero(),
                p,
            ));
            let s = event_symbol(event)->Some_0;
            let price = event_price(event)->Some_0;
            &&& !told ==> a == TradeAction::Hold && after == held
            &&& told && held.contains_key(s) ==> exists|p: Double, j: I, v: (Double, Double)|
                {
                    &&& p@ == price
                    &&& #[trigger] call_ensures(next, (held[s], p), (j, v))
                    &&& after.contains_key(s) && after[s] == j
                    &&& follows_trend(wallet, s, price, (v.0@, v.1@), a)
                }
            &&& told && !held.contains_key(s) && after.contains_key(s) ==> exists|
                i: I,
                p: Double,
                j: I,
                v: (Double, Double),
            |
                {
                    &&& call_ensures(fresh, (50usize, 14usize), Some(i))
                    &&& p@ == price
                    &&& #[trigger] call_ensures(next, (i, p), (j, v))
                    &&& after[s] == j
                    &&& follows_trend(wallet, s, price, (v.0@, v.1@), a)
                }
            &&& told && !held.contains_key(s) && !after.contains_key(s) ==> a == TradeAction::Hold
                && call_ensures(fresh, (50usize, 14usize), None::<I>)
            &&& other != s ==> after.contains_key(other) == held.contains_key(other)
            &&& other != s && held.contains_key(other) ==> after[other] == held[other]
        }),
{
    if event_symbol(event) is Some && (event_price(event) matches Some(p) && less(zero(), p)) {
        let s = event_symbol(event)->Some_0;
        let price = event_price(event)->Some_0;
        if is_stepped(fresh, next, held, s, price, wallet, a, after) {
            let (i, p, j, v) = choose|i: I, p: Double, j: I, v: (Double, Double)|
                {
                    &&& is_held(fresh, held, s, i)
                    &&& p@ == price
                    &&& #[trigger] call_ensures(next, (i, p), (j, v))
                    &&& follows_trend(wallet, s, price, (v.0@, v.1@), a)
                    &&& after == held.insert(s, j)
                };
            assert(call_ensures(next, (i, p), (j, v)));
        }
    }
}

} // verus!
