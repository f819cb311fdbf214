//! Paper broker: fills orders at the best bid and offer, with fees and slippage.

use crate::common::events::texts;
use crate::common::{BboTick, OrderCommand, OrderSide, OrderType};
use crate::num::double::{double_int, double_ratio};
use crate::num::model::{
    at_most, difference, double_format, less, narrowed, product, quotient, smaller, sum, zero, Num,
};
use crate::num::{Double, Single};
use crate::symbols::SymbolMap;
use crate::text::sorted::{insert_sorted, law_sorted_list_is_determined, strictly_sorted};
use crate::text::words::{to_upper, uppercase};
use crate::vars::{double_or, flag_or, read_double, read_flag};
use vstd::prelude::*;

verus! {

/// Paper broker settings; `bps` are hundredths of a percent.
#[derive(Clone, Copy, Debug, PartialEq, Eq, Structural)]
pub struct PaperBrokerConfig {
    pub initial_cash_usdt: Double,
    pub fee_bps: Double,
    pub slippage_bps: Double,
    pub max_position_notional_usdt: Double,
    pub allow_short: bool,
}

/// The values of the environment variables that override the defaults.
#[derive(Clone, Debug)]
pub struct PaperBrokerVars {
    pub initial_cash_usdt: Option<String>,
    pub fee_bps: Option<String>,
    pub slippage_bps: Option<String>,
    pub max_position_notional_usdt: Option<String>,
    pub allow_short: Option<String>,
}

impl Default for PaperBrokerConfig {
    fn default() -> (c: Self)
        ensures
            c.initial_cash_usdt@ == double_int(100),
            c.fee_bps@ == double_ratio(75, 10),
            c.slippage_bps@ == double_int(2),
            c.max_position_notional_usdt@ == double_int(100),
            c.allow_short,
    {
        PaperBrokerConfig {
            initial_cash_usdt: Double::from_unsigned(100),
            fee_bps: Double::ratio(75, 10),
            slippage_bps: Double::from_unsigned(2),
            max_position_notional_usdt: Double::from_unsigned(100),
            allow_short: true,
        }
    }
}

impl PaperBrokerConfig {
    /// The defaults, each overridden by its environment variable where that parses.
    pub fn from_env(vars: &PaperBrokerVars) -> (c: Self)
        ensures
            c.initial_cash_usdt@ == double_or(vars.initial_cash_usdt, double_int(100)),
            c.fee_bps@ == double_or(vars.fee_bps, double_ratio(75, 10)),
            c.slippage_bps@ == double_or(vars.slippage_bps, double_int(2)),
            c.max_position_notional_usdt@ == double_or(
                vars.max_position_notional_usdt,
                double_int(100),
            ),
            c.allow_short == flag_or(vars.allow_short, true),
    {
        PaperBrokerConfig {
            initial_cash_usdt: read_double(&vars.initial_cash_usdt, Double::from_unsigned(100)),
            fee_bps: read_double(&vars.fee_bps, Double::ratio(75, 10)),
            slippage_bps: read_double(&vars.slippage_bps, Double::from_unsigned(2)),
            max_position_notional_usdt: read_double(
                &vars.max_position_notional_usdt,
                Double::from_unsigned(100),
            ),
            allow_short: read_flag(&vars.allow_short, true),
        }
    }
}

/// Side of a paper position.
#[derive(Clone, Copy, Debug, PartialEq, Eq, Structural)]
pub enum PositionSide {
    Flat,
    Long,
    Short,
}

/// The name of a side in account snapshots.
pub open spec fn side_name(s: PositionSide) -> Seq<char> {
    match s {
        PositionSide::Flat => "FLAT"@,
        PositionSide::Long => "LONG"@,
        PositionSide::Short => "SHORT"@,
    }
}

pub fn side_str(s: PositionSide) -> (r: &'static str)
    ensures
        r@ == side_name(s),
{
    match s {
        PositionSide::Flat => "FLAT",
        PositionSide::Long => "LONG",
        PositionSide::Short => "SHORT",
    }
}

/// Position and record of one symbol.
#[derive(Debug)]
pub struct SymbolPortfolio {
    pub symbol: String,
    pub position_side: PositionSide,
    pub position_qty: Double,
    pub entry_price_avg: Double,
    pub realized_pnl_usdt: Double,
    pub fees_paid_usdt: Double,
    pub trades_total: u32,
    pub wins_total: u32,
    pub losses_total: u32,
}

#[verifier::ext_equal]
pub struct PortfolioModel {
    pub symbol: Seq<char>,
    pub side: PositionSide,
    pub qty: Num,
    pub entry: Num,
    pub realized: Num,
    pub fees: Num,
    pub trades: u32,
    pub wins: u32,
    pub losses: u32,
}

impl View for SymbolPortfolio {
    type V = PortfolioModel;

    open spec fn view(&self) -> PortfolioModel {
        PortfolioModel {
            symbol: self.symbol@,
            side: self.position_side,
            qty: self.position_qty@,
            entry: self.entry_price_avg@,
            realized: self.realized_pnl_usdt@,
            fees: self.fees_paid_usdt@,
            trades: self.trades_total,
            wins: self.wins_total,
            losses: self.losses_total,
        }
    }
}

pub open spec fn flat_portfolio(symbol: Seq<char>) -> PortfolioModel {
    PortfolioModel {
        symbol,
        side: PositionSide::Flat,
        qty: zero(),
        entry: zero(),
        realized: zero(),
        fees: zero(),
        trades: 0,
        wins: 0,
        losses: 0,
    }
}

impl Clone for SymbolPortfolio {
    fn clone(&self) -> (r: Self)
        ensures
            r == *self,
    {
        SymbolPortfolio {
            symbol: self.symbol.clone(),
            position_side: self.position_side,
            position_qty: self.position_qty,
            entry_price_avg: self.entry_price_avg,
            realized_pnl_usdt: self.realized_pnl_usdt,
            fees_paid_usdt: self.fees_paid_usdt,
            trades_total: self.trades_total,
            wins_total: self.wins_total,
            losses_total: self.losses_total,
        }
    }
}

impl SymbolPortfolio {
    pub fn new(symbol: String) -> (r: Self)
        ensures
            r@ == flat_portfolio(symbol@),
    {
        SymbolPortfolio {
            symbol,
            position_side: PositionSide::Flat,
            position_qty: Double::zero(),
            entry_price_avg: Double::zero(),
            realized_pnl_usdt: Double::zero(),
            fees_paid_usdt: Double::zero(),
            trades_total: 0,
            wins_total: 0,
            losses_total: 0,
        }
    }

    /// Share of the trades that won; zero without trades.
    pub fn win_rate(&self) -> (r: Double)
        ensures
            r@ == if self.trades_total == 0 {
                zero()
            } else {
                quotient(
                    double_format(),
                    double_int(self.wins_total as int),
                    double_int(self.trades_total as int),
                )
            },
    {
        if self.trades_total == 0 {
            Double::zero()
        } else {
            Double::from_unsigned(self.wins_total as u64).over(
                Double::from_unsigned(self.trades_total as u64),
            )
        }
    }
}

/// Outcome of an order; `reason_code` is empty where it was filled.
#[derive(Debug)]
pub struct Fill {
    pub ts_exchange: i64,
    pub symbol: String,
    pub order_id: String,
    /// `OPEN_LONG`, `CLOSE_LONG`, `OPEN_SHORT`, `CLOSE_SHORT` or `REJECTED`.
    pub action: String,
    pub qty: Double,
    pub fill_price: Double,
    pub notional: Double,
    pub fee: Double,
    pub slippage_bps: Single,
    pub reason_code: String,
}

#[verifier::ext_equal]
pub struct FillModel {
    pub ts_exchange: i64,
    pub symbol: Seq<char>,
    pub order_id: Seq<char>,
    pub action: Seq<char>,
    pub qty: Num,
    pub fill_price: Num,
    pub notional: Num,
    pub fee: Num,
    pub slippage_bps: Num,
    pub reason_code: Seq<char>,
}

impl View for Fill {
    type V = FillModel;

    open spec fn view(&self) -> FillModel {
        FillModel {
            ts_exchange: self.ts_exchange,
            symbol: self.symbol@,
            order_id: self.order_id@,
            action: self.action@,
            qty: self.qty@,
            fill_price: self.fill_price@,
            notional: self.notional@,
            fee: self.fee@,
            slippage_bps: self.slippage_bps@,
            reason_code: self.reason_code@,
        }
    }
}

/// State of the account as one symbol sees it.
#[derive(Debug)]
pub struct AccountSnapshot {
    pub ts_exchange: i64,
    pub symbol: String,
    pub cash_usdt: Double,
    /// `FLAT`, `LONG` or `SHORT`.
    pub position_side: String,
    pub position_qty: Double,
    pub entry_price: Double,
    pub mark_price: Double,
    pub unrealized_pnl: Double,
    pub realized_pnl: Double,
    pub equity_usdt: Double,
    pub fees_paid: Double,
    pub trades_total: u32,
    pub wins_total: u32,
    pub losses_total: u32,
}

#[verifier::ext_equal]
pub struct AccountModel {
    pub ts_exchange: i64,
    pub symbol: Seq<char>,
    pub cash: Num,
    pub side: Seq<char>,
    pub qty: Num,
    pub entry: Num,
    pub mark: Num,
    pub unrealized: Num,
    pub realized: Num,
    pub equity: Num,
    pub fees: Num,
    pub trades: u32,
    pub wins: u32,
    pub losses: u32,
}

impl View for AccountSnapshot {
    type V = AccountModel;

    open spec fn view(&self) -> AccountModel {
        AccountModel {
            ts_exchange: self.ts_exchange,
            symbol: self.symbol@,
            cash: self.cash_usdt@,
            side: self.position_side@,
            qty: self.position_qty@,
            entry: self.entry_price@,
            mark: self.mark_price@,
            unrealized: self.unrealized_pnl@,
            realized: self.realized_pnl@,
            equity: self.equity_usdt@,
            fees: self.fees_paid@,
            trades: self.trades_total,
            wins: self.wins_total,
            losses: self.losses_total,
        }
    }
}

/// The latest best bid and offer of a symbol.
#[derive(Clone, Copy, Debug, PartialEq, Eq, Structural)]
struct Quote {
    bid_price: Double,
    ask_price: Double,
    ts: i64,
}

pub struct QuoteModel {
    pub bid: Num,
    pub ask: Num,
    pub ts: i64,
}

/// Fills orders at the latest best bid and offer.
pub struct PaperBroker {
    config: PaperBrokerConfig,
    cash_usdt: Double,
    portfolios: SymbolMap<SymbolPortfolio>,
    latest_bbo: SymbolMap<Quote>,
}

#[verifier::ext_equal]
pub struct BrokerModel {
    pub config: PaperBrokerConfig,
    pub cash: Num,
    pub portfolios: Map<Seq<char>, PortfolioModel>,
    pub quotes: Map<Seq<char>, QuoteModel>,
}

impl View for PaperBroker {
    type V = BrokerModel;

    closed spec fn view(&self) -> BrokerModel {
        BrokerModel {
            config: self.config,
            cash: self.cash_usdt@,
            portfolios: self.portfolios@.map_values(|p: SymbolPortfolio| p@),
            quotes: self.latest_bbo@.map_values(
                |q: Quote| QuoteModel { bid: q.bid_price@, ask: q.ask_price@, ts: q.ts },
            ),
        }
    }
}

impl BrokerModel {
    /// The portfolio of a symbol; that of a new one is flat.
    pub open spec fn portfolio(self, symbol: Seq<char>) -> PortfolioModel {
        if self.portfolios.contains_key(symbol) {
            self.portfolios[symbol]
        } else {
            flat_portfolio(symbol)
        }
    }

    /// The latest quote of a symbol, where it is not after `ts`.
    pub open spec fn quote_at(self, symbol: Seq<char>, ts: i64) -> Option<QuoteModel> {
        let key = uppercase(symbol);
        if self.quotes.contains_key(key) && self.quotes[key].ts <= ts {
            Some(self.quotes[key])
        } else {
            None
        }
    }

    /// No portfolio counts more than `n` trades, and wins and losses are among them.
    pub open spec fn counts_within(self, n: int) -> bool {
        forall|s: Seq<char>| #[trigger]
            self.portfolios.contains_key(s) ==> self.portfolios[s].trades <= n
                && self.portfolios[s].wins + self.portfolios[s].losses <= self.portfolios[s].trades
    }
}

/// One more trade of this portfolio can be counted.
pub open spec fn has_room(p: PortfolioModel) -> bool {
    p.trades < u32::MAX && p.wins < u32::MAX && p.losses < u32::MAX
}

pub open spec fn one() -> Num {
    double_int(1)
}

/// A number of hundredths of a percent as a fraction.
pub open spec fn fraction(bps: Num) -> Num {
    quotient(double_format(), bps, double_int(10_000))
}

/// What a buyer pays: the ask with slippage on top.
pub open spec fn buy_price(c: PaperBrokerConfig, q: QuoteModel) -> Num {
    product(double_format(), q.ask, sum(double_format(), one(), fraction(c.slippage_bps@)))
}

/// What a seller gets: the bid less slippage.
pub open spec fn sell_price(c: PaperBrokerConfig, q: QuoteModel) -> Num {
    product(double_format(), q.bid, difference(double_format(), one(), fraction(c.slippage_bps@)))
}

pub open spec fn fee_of(c: PaperBrokerConfig, notional: Num) -> Num {
    product(double_format(), notional, fraction(c.fee_bps@))
}

pub open spec fn rejection(
    ts: i64,
    symbol: Seq<char>,
    order_id: Seq<char>,
    reason: Seq<char>,
) -> FillModel {
    FillModel {
        ts_exchange: ts,
        symbol,
        order_id,
        action: "REJECTED"@,
        qty: zero(),
        fill_price: zero(),
        notional: zero(),
        fee: zero(),
        slippage_bps: zero(),
        reason_code: reason,
    }
}

pub open spec fn filled(
    c: PaperBrokerConfig,
    cmd: OrderCommand,
    ts: i64,
    action: Seq<char>,
    qty: Num,
    price: Num,
) -> FillModel {
    let notional = product(double_format(), price, qty);
    FillModel {
        ts_exchange: ts,
        symbol: cmd.symbol@,
        order_id: cmd.client_order_id@,
        action,
        qty,
        fill_price: price,
        notional,
        fee: fee_of(c, notional),
        slippage_bps: narrowed(c.slippage_bps@),
        reason_code: ""@,
    }
}

/// Opening a position: notional and fee leave the cash. Rejected above the notional cap or
/// without the cash.
pub open spec fn opened(
    m: BrokerModel,
    cmd: OrderCommand,
    symbol: Seq<char>,
    ts: i64,
    price: Num,
    side: PositionSide,
    action: Seq<char>,
) -> (BrokerModel, FillModel) {
    let f = double_format();
    let p = m.portfolio(symbol);
    let known = BrokerModel { portfolios: m.portfolios.insert(symbol, p), ..m };
    let notional = product(f, price, cmd.qty@);
    let fee = fee_of(m.config, notional);
    let total = sum(f, notional, fee);
    if less(m.config.max_position_notional_usdt@, notional) {
        (known, rejection(ts, cmd.symbol@, cmd.client_order_id@, "notional_cap"@))
    } else if less(m.cash, total) {
        (known, rejection(ts, cmd.symbol@, cmd.client_order_id@, "insufficient_cash"@))
    } else {
        let q = PortfolioModel {
            side,
            qty: cmd.qty@,
            entry: price,
            fees: sum(f, p.fees, fee),
            ..p
        };
        (
            BrokerModel {
                cash: difference(f, m.cash, total),
                portfolios: m.portfolios.insert(symbol, q),
                ..m
            },
            filled(m.config, cmd, ts, action, cmd.qty@, price),
        )
    }
}

/// The gain of a closed position, its fee deducted.
pub open spec fn realized_gain(p: PortfolioModel, qty: Num, price: Num, fee: Num) -> Num {
    let f = double_format();
    let per_unit = if p.side == PositionSide::Long {
        difference(f, price, p.entry)
    } else {
        difference(f, p.entry, price)
    };
    difference(f, product(f, per_unit, qty), fee)
}

/// Closing a position: notional less fee returns to the cash, and the gain is counted.
pub open spec fn closed(
    m: BrokerModel,
    cmd: OrderCommand,
    symbol: Seq<char>,
    ts: i64,
    price: Num,
    action: Seq<char>,
) -> (BrokerModel, FillModel) {
    let f = double_format();
    let p = m.portfolio(symbol);
    let qty = smaller(p.qty, cmd.qty@);
    let notional = product(f, price, qty);
    let fee = fee_of(m.config, notional);
    let gain = realized_gain(p, qty, price, fee);
    let q = PortfolioModel {
        symbol: p.symbol,
        side: PositionSide::Flat,
        qty: zero(),
        entry: zero(),
        realized: sum(f, p.realized, gain),
        fees: sum(f, p.fees, fee),
        trades: (p.trades + 1) as u32,
        wins: if less(zero(), gain) {
            (p.wins + 1) as u32
        } else {
            p.wins
        },
        losses: if less(gain, zero()) {
            (p.losses + 1) as u32
        } else {
            p.losses
        },
    };
    (
        BrokerModel {
            cash: sum(f, m.cash, difference(f, notional, fee)),
            portfolios: m.portfolios.insert(symbol, q),
            ..m
        },
        filled(m.config, cmd, ts, action, qty, price),
    )
}

/// What an order does at a position.
#[derive(Clone, Copy, Debug, PartialEq, Eq, Structural)]
pub enum OrderEffect {
    OpenLong,
    CloseLong,
    OpenShort,
    CloseShort,
    ShortDisabled,
    PositionConflict,
}

pub open spec fn effect(side: OrderSide, position: PositionSide, allow_short: bool) -> OrderEffect {
    match (side, position) {
        (OrderSide::Buy, PositionSide::Flat) => OrderEffect::OpenLong,
        (OrderSide::Sell, PositionSide::Flat) => if allow_short {
            OrderEffect::OpenShort
        } else {
            OrderEffect::ShortDisabled
        },
        (OrderSide::Sell, PositionSide::Long) => OrderEffect::CloseLong,
        (OrderSide::Buy, PositionSide::Short) => OrderEffect::CloseShort,
        _ => OrderEffect::PositionConflict,
    }
}

/// What an order does at a position.
pub fn determine_action(
    side: OrderSide,
    position: PositionSide,
    allow_short: bool,
) -> (r: OrderEffect)
    ensures
        r == effect(side, position, allow_short),
{
    match (side, position) {
        (OrderSide::Buy, PositionSide::Flat) => OrderEffect::OpenLong,
        (OrderSide::Sell, PositionSide::Flat) => if allow_short {
            OrderEffect::OpenShort
        } else {
            OrderEffect::ShortDisabled
        },
        (OrderSide::Sell, PositionSide::Long) => OrderEffect::CloseLong,
        (OrderSide::Buy, PositionSide::Short) => OrderEffect::CloseShort,
        (OrderSide::Buy, PositionSide::Long) => OrderEffect::PositionConflict,
        (OrderSide::Sell, PositionSide::Short) => OrderEffect::PositionConflict,
    }
}

/// The broker and the fill after an order.
pub open spec fn executed(m: BrokerModel, cmd: OrderCommand, ts: i64) -> (BrokerModel, FillModel) {
    let symbol = uppercase(cmd.symbol@);
    let id = cmd.client_order_id@;
    match m.quote_at(symbol, ts) {
        None => (m, rejection(ts, symbol, id, "no_market_price"@)),
        Some(q) => if cmd.order_type != OrderType::Market {
            (m, rejection(ts, symbol, id, "unsupported_order_type"@))
        } else {
            match effect(cmd.side, m.portfolio(symbol).side, m.config.allow_short) {
                OrderEffect::OpenLong => opened(
                    m,
                    cmd,
                    symbol,
                    ts,
                    buy_price(m.config, q),
                    PositionSide::Long,
                    "OPEN_LONG"@,
                ),
                OrderEffect::OpenShort => opened(
                    m,
                    cmd,
                    symbol,
                    ts,
                    sell_price(m.config, q),
                    PositionSide::Short,
                    "OPEN_SHORT"@,
                ),
                OrderEffect::CloseLong => closed(
                    m,
                    cmd,
                    symbol,
                    ts,
                    sell_price(m.config, q),
                    "CLOSE_LONG"@,
                ),
                OrderEffect::CloseShort => closed(
                    m,
                    cmd,
                    symbol,
                    ts,
                    buy_price(m.config, q),
                    "CLOSE_SHORT"@,
                ),
                OrderEffect::ShortDisabled => (m, rejection(ts, symbol, id, "short_disabled"@)),
                OrderEffect::PositionConflict => (
                    m,
                    rejection(ts, symbol, id, "position_conflict"@),
                ),
            }
        },
    }
}

/// Whether an order is one that closes a position.
pub open spec fn closes(m: BrokerModel, cmd: OrderCommand, ts: i64) -> bool {
    let symbol = uppercase(cmd.symbol@);
    let effect = effect(cmd.side, m.portfolio(symbol).side, m.config.allow_short);
    &&& m.quote_at(symbol, ts) is Some
    &&& cmd.order_type == OrderType::Market
    &&& effect == OrderEffect::CloseLong || effect == OrderEffect::CloseShort
}

fn reject(ts_exchange: i64, symbol: String, order_id: String, reason: &str) -> (r: Fill)
    ensures
        r@ == rejection(ts_exchange, symbol@, order_id@, reason@),
{
    Fill {
        ts_exchange,
        symbol,
        order_id,
        action: "REJECTED".to_string(),
        qty: Double::zero(),
        fill_price: Double::zero(),
        notional: Double::zero(),
        fee: Double::zero(),
        slippage_bps: Single::zero(),
        reason_code: reason.to_string(),
    }
}

impl PaperBroker {
    pub fn new(config: PaperBrokerConfig) -> (r: Self)
        ensures
            r@ == (BrokerModel {
                config,
                cash: config.initial_cash_usdt@,
                portfolios: Map::empty(),
                quotes: Map::empty(),
            }),
    {
        let r = PaperBroker {
            cash_usdt: config.initial_cash_usdt,
            portfolios: SymbolMap::new(),
            latest_bbo: SymbolMap::new(),
            config,
        };
        proof {
            assert(r@.portfolios =~= Map::<Seq<char>, PortfolioModel>::empty());
            assert(r@.quotes =~= Map::<Seq<char>, QuoteModel>::empty());
        }
        r
    }

    /// Notes the best bid and offer of a symbol, unless a later one is known. Before the first
    /// one a symbol stands at time zero with zero prices.
    pub fn update_bbo(&mut self, bbo: &BboTick)
        ensures
            final(self)@ == quoted(old(self)@, *bbo),
    {
        let symbol = to_upper(bbo.symbol.as_str());
        let ghost before = self@;
        let known = match self.latest_bbo.get(symbol.as_str()) {
            Some(q) => *q,
            None => Quote { bid_price: Double::zero(), ask_price: Double::zero(), ts: 0 },
        };
        let next = if bbo.ts_exchange >= known.ts {
            Quote { bid_price: bbo.bid_price, ask_price: bbo.ask_price, ts: bbo.ts_exchange }
        } else {
            known
        };
        self.latest_bbo.insert(symbol.as_str(), next);
        proof {
            assert(self@.quotes =~= quoted(before, *bbo).quotes);
        }
    }

    fn quote(&self, symbol: &str, ts_exchange: i64) -> (r: Option<Quote>)
        ensures
            match r {
                Some(q) => self@.quote_at(symbol@, ts_exchange) == Some(
                    QuoteModel { bid: q.bid_price@, ask: q.ask_price@, ts: q.ts },
                ),
                None => self@.quote_at(symbol@, ts_exchange) is None,
            },
    {
        let key = to_upper(symbol);
        match self.latest_bbo.get(key.as_str()) {
            Some(q) => if q.ts <= ts_exchange {
                Some(*q)
            } else {
                None
            },
            None => None,
        }
    }

    fn portfolio_of(&self, symbol: &str) -> (r: SymbolPortfolio)
        ensures
            r@ == self@.portfolio(symbol@),
    {
        match self.portfolios.get(symbol) {
            Some(p) => p.clone(),
            None => SymbolPortfolio::new(symbol.to_string()),
        }
    }

    fn set_portfolio(&mut self, symbol: &str, p: SymbolPortfolio, cash: Double)
        ensures
            final(self)@ == (BrokerModel {
                cash: cash@,
                portfolios: old(self)@.portfolios.insert(symbol@, p@),
                ..old(self)@
            }),
    {
        let ghost before = self@;
        let ghost view = p@;
        self.portfolios.insert(symbol, p);
        self.cash_usdt = cash;
        proof {
            assert(self@.portfolios =~= before.portfolios.insert(symbol@, view));
        }
    }

    fn fill(
        &self,
        cmd: &OrderCommand,
        ts_exchange: i64,
        action: &str,
        qty: Double,
        fill_price: Double,
        notional: Double,
        fee: Double,
    ) -> (r: Fill)
        requires
            notional@ == product(double_format(), fill_price@, qty@),
            fee@ == fee_of(self@.config, notional@),
        ensures
            r@ == filled(self@.config, *cmd, ts_exchange, action@, qty@, fill_price@),
    {
        Fill {
            ts_exchange,
            symbol: cmd.symbol.clone(),
            order_id: cmd.client_order_id.clone(),
            action: action.to_string(),
            qty,
            fill_price,
            notional,
            fee,
            slippage_bps: self.config.slippage_bps.to_single(),
            reason_code: "".to_string(),
        }
    }

    fn slippage(&self) -> (r: Double)
        ensures
            r@ == fraction(self@.config.slippage_bps@),
    {
        self.config.slippage_bps.over(Double::from_unsigned(10_000))
    }

    fn fee(&self, notional: Double) -> (r: Double)
        ensures
            r@ == fee_of(self@.config, notional@),
    {
        notional.times(self.config.fee_bps.over(Double::from_unsigned(10_000)))
    }

    fn open(
        &mut self,
        cmd: &OrderCommand,
        symbol: &str,
        ts_exchange: i64,
        fill_price: Double,
        side: PositionSide,
        action: &str,
    ) -> (r: Fill)
        ensures
            (final(self)@, r@) == opened(
                old(self)@,
                *cmd,
                symbol@,
                ts_exchange,
                fill_price@,
                side,
                action@,
            ),
    {
        let mut p = self.portfolio_of(symbol);
        let notional = fill_price.times(cmd.qty);
        if notional.above(self.config.max_position_notional_usdt) {
            self.set_portfolio(symbol, p, self.cash_usdt);
            return reject(
                ts_exchange,
                cmd.symbol.clone(),
                cmd.client_order_id.clone(),
                "notional_cap",
            );
        }
        let fee = self.fee(notional);
        let total = notional.plus(fee);
        if self.cash_usdt.below(total) {
            self.set_portfolio(symbol, p, self.cash_usdt);
            return reject(
                ts_exchange,
                cmd.symbol.clone(),
                cmd.client_order_id.clone(),
                "insufficient_cash",
            );
        }
        p.position_side = side;
        p.position_qty = cmd.qty;
        p.entry_price_avg = fill_price;
        p.fees_paid_usdt = p.fees_paid_usdt.plus(fee);
        let cash = self.cash_usdt.minus(total);
        self.set_portfolio(symbol, p, cash);
        self.fill(cmd, ts_exchange, action, cmd.qty, fill_price, notional, fee)
    }

    fn close(
        &mut self,
        cmd: &OrderCommand,
        symbol: &str,
        ts_exchange: i64,
        fill_price: Double,
        action: &str,
    ) -> (r: Fill)
        requires
            old(self)@.portfolios.contains_key(symbol@),
            has_room(old(self)@.portfolio(symbol@)),
        ensures
            (final(self)@, r@) == closed(
                old(self)@,
                *cmd,
                symbol@,
                ts_exchange,
                fill_price@,
                action@,
            ),
    {
        let mut p = self.portfolio_of(symbol);
        let qty = p.position_qty.smallest(cmd.qty);
        let notional = fill_price.times(qty);
        let fee = self.fee(notional);
        let per_unit = if p.position_side == PositionSide::Long {
            fill_price.minus(p.entry_price_avg)
        } else {
            p.entry_price_avg.minus(fill_price)
        };
        let gain = per_unit.times(qty).minus(fee);
        let cash = self.cash_usdt.plus(notional.minus(fee));
        p.realized_pnl_usdt = p.realized_pnl_usdt.plus(gain);
        p.fees_paid_usdt = p.fees_paid_usdt.plus(fee);
        p.trades_total = p.trades_total + 1;
        if gain.above(Double::zero()) {
            p.wins_total = p.wins_total + 1;
        }
        if gain.below(Double::zero()) {
            p.losses_total = p.losses_total + 1;
        }
        p.position_side = PositionSide::Flat;
        p.position_qty = Double::zero();
        p.entry_price_avg = Double::zero();
        self.set_portfolio(symbol, p, cash);
        self.fill(cmd, ts_exchange, action, qty, fill_price, notional, fee)
    }

    /// Executes an order; the fill says why where it was rejected. A trade that is closed must
    /// still fit into the counts of its symbol.
    pub fn execute_order(&mut self, cmd: &OrderCommand, ts_exchange: i64) -> (r: Fill)
        requires
            closes(old(self)@, *cmd, ts_exchange) ==> has_room(
                old(self)@.portfolio(uppercase(cmd.symbol@)),
            ),
        ensures
            (final(self)@, r@) == executed(old(self)@, *cmd, ts_exchange),
    {
        let symbol = to_upper(cmd.symbol.as_str());
        let quote = match self.quote(symbol.as_str(), ts_exchange) {
            Some(q) => q,
            None => {
                return reject(
                    ts_exchange,
                    symbol,
                    cmd.client_order_id.clone(),
                    "no_market_price",
                );
            },
        };
        if cmd.order_type != OrderType::Market {
            return reject(
                ts_exchange,
                symbol,
                cmd.client_order_id.clone(),
                "unsupported_order_type",
            );
        }
        let position = match self.portfolios.get(symbol.as_str()) {
            Some(p) => p.position_side,
            None => PositionSide::Flat,
        };
        let unit = Double::from_unsigned(1);
        let buy = quote.ask_price.times(unit.plus(self.slippage()));
        let sell = quote.bid_price.times(unit.minus(self.slippage()));
        match determine_action(cmd.side, position, self.config.allow_short) {
            OrderEffect::OpenLong => self.open(
                cmd,
                symbol.as_str(),
                ts_exchange,
                buy,
                PositionSide::Long,
                "OPEN_LONG",
            ),
            OrderEffect::OpenShort => self.open(
                cmd,
                symbol.as_str(),
                ts_exchange,
                sell,
                PositionSide::Short,
                "OPEN_SHORT",
            ),
            OrderEffect::CloseLong => self.close(
                cmd,
                symbol.as_str(),
                ts_exchange,
                sell,
                "CLOSE_LONG",
            ),
            OrderEffect::CloseShort => self.close(
                cmd,
                symbol.as_str(),
                ts_exchange,
                buy,
                "CLOSE_SHORT",
            ),
            OrderEffect::ShortDisabled => reject(
                ts_exchange,
                symbol,
                cmd.client_order_id.clone(),
                "short_disabled",
            ),
            OrderEffect::PositionConflict => reject(
                ts_exchange,
                symbol,
                cmd.client_order_id.clone(),
                "position_conflict",
            ),
        }
    }

    /// The account as a symbol with a portfolio and a quote not after `ts_exchange` sees it.
    pub fn account_snapshot(&self, symbol: &str, ts_exchange: i64) -> (r: Option<AccountSnapshot>)
        ensures
            match r {
                Some(a) => account_of(self@, symbol@, ts_exchange) == Some(a@),
                None => account_of(self@, symbol@, ts_exchange) is None,
            },
    {
        let symbol = to_upper(symbol);
        let p = self.portfolios.get(symbol.as_str())?;
        let q = self.quote(symbol.as_str(), ts_exchange)?;
        let mark_price = q.bid_price.plus(q.ask_price).over(Double::from_unsigned(2));
        let unrealized_pnl = match p.position_side {
            PositionSide::Long => mark_price.minus(p.entry_price_avg).times(p.position_qty),
            PositionSide::Short => p.entry_price_avg.minus(mark_price).times(p.position_qty),
            PositionSide::Flat => Double::zero(),
        };
        let position_side = side_str(p.position_side).to_string();
        let snapshot = AccountSnapshot {
            ts_exchange,
            cash_usdt: self.cash_usdt,
            position_side,
            position_qty: p.position_qty,
            entry_price: p.entry_price_avg,
            mark_price,
            unrealized_pnl,
            realized_pnl: p.realized_pnl_usdt,
            equity_usdt: self.cash_usdt.plus(unrealized_pnl),
            fees_paid: p.fees_paid_usdt,
            trades_total: p.trades_total,
            wins_total: p.wins_total,
            losses_total: p.losses_total,
            symbol,
        };
        Some(snapshot)
    }

    /// The symbols with an open position, in alphabetical order.
    pub fn active_symbols(&self) -> (r: Vec<String>)
        ensures
            texts(r@) == active_names(self@),
            is_active_list(self@, texts(r@)),
    {
        let mut r: Vec<String> = Vec::new();
        let ghost keys = self.portfolios.keys();
        let mut i: usize = 0;
        let n: usize = self.portfolios.len();
        proof {
            assert(texts(r@) =~= Seq::<Seq<char>>::empty());
        }
        while i < n
            invariant
                i <= n,
                n == keys.len(),
                self.portfolios.well_formed(),
                keys == self.portfolios.keys(),
                strictly_sorted(texts(r@)),
                forall|s: Seq<char>| #[trigger]
                    texts(r@).contains(s) <==> keys.take(i as int).contains(s)
                        && self@.portfolios[s].side != PositionSide::Flat,
            decreases keys.len() - i,
        {
            let (name, p) = self.portfolios.entry(i);
            let ghost before = texts(r@);
            let ghost seen = keys.take(i as int);
            if p.position_side != PositionSide::Flat {
                insert_sorted(&mut r, name.clone());
            }
            proof {
                let after = texts(r@);
                assert(keys.take(i + 1) =~= seen.push(name@));
                assert(self@.portfolios[name@].side == p.position_side);
                assert forall|s: Seq<char>| #[trigger] after.contains(s) <==> keys.take(
                    i + 1,
                ).contains(s) && self@.portfolios[s].side != PositionSide::Flat by {
                    lemma_push_contains(seen, name@, s);
                    assert(before.contains(s) <==> seen.contains(s)
                        && self@.portfolios[s].side != PositionSide::Flat);
                }
            }
            i = i + 1;
        }
        proof {
            assert(keys.take(keys.len() as int) =~= keys);
            self.portfolios.lemma_keys();
            assert forall|s: Seq<char>| keys.contains(s) <==> self@.portfolios.contains_key(s) by {
                if keys.contains(s) {
                    let j = choose|j: int| 0 <= j < keys.len() && keys[j] == s;
                    assert(self.portfolios@.contains_key(keys[j]));
                }
                if self@.portfolios.contains_key(s) {
                    assert(self.portfolios@.contains_key(s));
                }
            }
            assert(is_active_list(self@, texts(r@)));
            lemma_active_list_unique(self@, texts(r@), active_names(self@));
        }
        r
    }
}

/// The symbols with an open position, in alphabetical order.
pub open spec fn is_active_list(m: BrokerModel, names: Seq<Seq<char>>) -> bool {
    &&& strictly_sorted(names)
    &&& forall|s: Seq<char>| #[trigger]
        names.contains(s) <==> m.portfolios.contains_key(s) && m.portfolios[s].side
            != PositionSide::Flat
}

/// The symbols with an open position, in alphabetical order.
pub open spec fn active_names(m: BrokerModel) -> Seq<Seq<char>> {
    choose|names: Seq<Seq<char>>| is_active_list(m, names)
}

proof fn lemma_active_list_unique(m: BrokerModel, a: Seq<Seq<char>>, b: Seq<Seq<char>>)
    requires
        is_active_list(m, a),
        is_active_list(m, b),
    ensures
        a == b,
{
    assert forall|s: Seq<char>| #[trigger] a.contains(s) <==> b.contains(s) by {
        assert(a.contains(s) <==> m.portfolios.contains_key(s) && m.portfolios[s].side
            != PositionSide::Flat);
        assert(b.contains(s) <==> m.portfolios.contains_key(s) && m.portfolios[s].side
            != PositionSide::Flat);
    }
    law_sorted_list_is_determined(a, b);
}

proof fn lemma_push_contains(s: Seq<Seq<char>>, x: Seq<char>, y: Seq<char>)
    ensures
        s.push(x).contains(y) <==> s.contains(y) || x == y,
{
    if s.contains(y) {
        let i = choose|i: int| 0 <= i < s.len() && s[i] == y;
        assert(s.push(x)[i] == y);
    }
    if x == y {
        assert(s.push(x)[s.len() as int] == y);
    }
    if s.push(x).contains(y) {
        let i = choose|i: int| 0 <= i < s.push(x).len() && s.push(x)[i] == y;
        if i < s.len() {
            assert(s[i] == y);
        }
    }
}

/// The broker after a best bid and offer.
pub open spec fn quoted(m: BrokerModel, bbo: BboTick) -> BrokerModel {
    let key = uppercase(bbo.symbol@);
    let known = if m.quotes.contains_key(key) {
        m.quotes[key]
    } else {
        QuoteModel { bid: zero(), ask: zero(), ts: 0 }
    };
    let next = if bbo.ts_exchange >= known.ts {
        QuoteModel { bid: bbo.bid_price@, ask: bbo.ask_price@, ts: bbo.ts_exchange }
    } else {
        known
    };
    BrokerModel { quotes: m.quotes.insert(key, next), ..m }
}

/// The account as a symbol with a portfolio and a quote not after `ts` sees it.
pub open spec fn account_of(m: BrokerModel, name: Seq<char>, ts: i64) -> Option<AccountModel> {
    let f = double_format();
    let symbol = uppercase(name);
    if !m.portfolios.contains_key(symbol) {
        None
    } else {
        match m.quote_at(symbol, ts) {
            None => None,
            Some(q) => {
                let p = m.portfolios[symbol];
                let mark = quotient(f, sum(f, q.bid, q.ask), double_int(2));
                let pnl = match p.side {
                    PositionSide::Long => product(f, difference(f, mark, p.entry), p.qty),
                    PositionSide::Short => product(f, difference(f, p.entry, mark), p.qty),
                    PositionSide::Flat => zero(),
                };
                Some(
                    AccountModel {
                        ts_exchange: ts,
                        symbol,
                        cash: m.cash,
                        side: side_name(p.side),
                        qty: p.qty,
                        entry: p.entry,
                        mark,
                        unrealized: pnl,
                        realized: p.realized,
                        equity: sum(f, m.cash, pnl),
                        fees: p.fees,
                        trades: p.trades,
                        wins: p.wins,
                        losses: p.losses,
                    },
                )
            },
        }
    }
}

/// A rejected order changes neither the cash nor any position or record, and its fill is one of
/// nothing: no quantity, price, notional or fee.
pub proof fn law_rejection_changes_nothing(m: BrokerModel, cmd: OrderCommand, ts: i64)
    requires
        executed(m, cmd, ts).1.action == "REJECTED"@,
    ensures
        executed(m, cmd, ts).1.qty == zero(),
        executed(m, cmd, ts).1.fill_price == zero(),
        executed(m, cmd, ts).1.notional == zero(),
        executed(m, cmd, ts).1.fee == zero(),
        executed(m, cmd, ts).1.slippage_bps == zero(),
        executed(m, cmd, ts).1.ts_exchange == ts,
        executed(m, cmd, ts).0.cash == m.cash,
        executed(m, cmd, ts).0.quotes == m.quotes,
        forall|s: Seq<char>| #[trigger] executed(m, cmd, ts).0.portfolio(s) == m.portfolio(s),
{
    reveal_strlit("REJECTED");
    reveal_strlit("OPEN_LONG");
    reveal_strlit("OPEN_SHORT");
    reveal_strlit("CLOSE_LONG");
    reveal_strlit("CLOSE_SHORT");
    assert("REJECTED"@[0] == 'R');
    assert("OPEN_LONG"@[0] == 'O');
    assert("OPEN_SHORT"@[0] == 'O');
    assert("CLOSE_LONG"@[0] == 'C');
    assert("CLOSE_SHORT"@[0] == 'C');
}

/// A fill carries the identifier of its order, and a reason exactly when the order is rejected.
pub proof fn law_reason_iff_rejected(m: BrokerModel, cmd: OrderCommand, ts: i64)
    ensures
        executed(m, cmd, ts).1.order_id == cmd.client_order_id@,
        executed(m, cmd, ts).1.action == "REJECTED"@ <==> executed(m, cmd, ts).1.reason_code
            != ""@,
{
    reveal_strlit("REJECTED");
    reveal_strlit("OPEN_LONG");
    reveal_strlit("OPEN_SHORT");
    reveal_strlit("CLOSE_LONG");
    reveal_strlit("CLOSE_SHORT");
    reveal_strlit("");
    reveal_strlit("no_market_price");
    reveal_strlit("unsupported_order_type");
    reveal_strlit("short_disabled");
    reveal_strlit("position_conflict");
    reveal_strlit("notional_cap");
    reveal_strlit("insufficient_cash");
    assert("REJECTED"@[0] == 'R');
    assert("OPEN_LONG"@[0] == 'O');
    assert("OPEN_SHORT"@[0] == 'O');
    assert("CLOSE_LONG"@[0] == 'C');
    assert("CLOSE_SHORT"@[0] == 'C');
    assert(""@.len() == 0);
    assert("no_market_price"@.len() > 0);
    assert("unsupported_order_type"@.len() > 0);
    assert("short_disabled"@.len() > 0);
    assert("position_conflict"@.len() > 0);
    assert("notional_cap"@.len() > 0);
    assert("insufficient_cash"@.len() > 0);
}

/// An order touches only the portfolio of its own symbol.
pub proof fn law_order_is_local(m: BrokerModel, cmd: OrderCommand, ts: i64, other: Seq<char>)
    requires
        other != uppercase(cmd.symbol@),
    ensures
        executed(m, cmd, ts).0.portfolio(other) == m.portfolio(other),
{
}

/// Shorts are never opened where they are not allowed.
pub proof fn law_no_short_when_disallowed(m: BrokerModel, cmd: OrderCommand, ts: i64)
    requires
        !m.config.allow_short,
        m.portfolio(uppercase(cmd.symbol@)).side != PositionSide::Short,
    ensures
        executed(m, cmd, ts).0.portfolio(uppercase(cmd.symbol@)).side != PositionSide::Short,
{
}

/// The counts of trades, wins and losses grow by at most one with an order, and wins and losses
/// stay among the trades.
pub proof fn law_counts_grow_by_one(m: BrokerModel, cmd: OrderCommand, ts: i64, n: int)
    requires
        m.counts_within(n),
        0 <= n < u32::MAX,
    ensures
        executed(m, cmd, ts).0.counts_within(n + 1),
{
    let symbol = uppercase(cmd.symbol@);
    let after = executed(m, cmd, ts).0;
    assert forall|s: Seq<char>| #[trigger] after.portfolios.contains_key(s) implies after.portfolios[s].trades
        <= n + 1 && after.portfolios[s].wins + after.portfolios[s].losses
        <= after.portfolios[s].trades by {
        if m.portfolios.contains_key(s) {
            assert(m.portfolios[s].trades <= n);
        }
    }
}

/// Prices and cash aside, an opened position is closed by the opposite order: after it the
/// symbol is flat.
pub proof fn law_opposite_order_closes(m: BrokerModel, cmd: OrderCommand, ts: i64)
    requires
        cmd.order_type == OrderType::Market,
        m.quote_at(uppercase(cmd.symbol@), ts) is Some,
        m.portfolio(uppercase(cmd.symbol@)).side == if cmd.side == OrderSide::Sell {
            PositionSide::Long
        } else {
            PositionSide::Short
        },
    ensures
        executed(m, cmd, ts).0.portfolio(uppercase(cmd.symbol@)).side == PositionSide::Flat,
        executed(m, cmd, ts).0.portfolio(uppercase(cmd.symbol@)).qty == zero(),
        executed(m, cmd, ts).1.action != "REJECTED"@,
{
    reveal_strlit("REJECTED");
    reveal_strlit("CLOSE_LONG");
    reveal_strlit("CLOSE_SHORT");
    assert("REJECTED"@[0] == 'R');
    assert("CLOSE_LONG"@[0] == 'C');
    assert("CLOSE_SHORT"@[0] == 'C');
}

/// The gain of a position opened by one fill and closed by the other, the closing fee deducted.
pub open spec fn gain_between(side: PositionSide, open: FillModel, close: FillModel) -> Num {
    let f = double_format();
    let per_unit = if side == PositionSide::Long {
        difference(f, close.fill_price, open.fill_price)
    } else {
        difference(f, open.fill_price, close.fill_price)
    };
    difference(f, product(f, per_unit, open.qty), close.fee)
}

/// A position that is opened, and closed by an order of the opposite side for as much or more,
/// whatever quotes come between: the whole quantity is closed and the symbol is flat again. The
/// record grows by the gain between the two prices less the closing fee and by both fees; one
/// trade is counted, as a win where the gain is positive and as a loss where it is negative. Of
/// the cash, the opening notional and fee leave and the closing notional less its fee returns.
pub proof fn law_open_then_close(
    m: BrokerModel,
    open: OrderCommand,
    opened_at: i64,
    later: BrokerModel,
    close: OrderCommand,
    closed_at: i64,
)
    requires
        ({
            let symbol = uppercase(open.symbol@);
            let (between, opening) = executed(m, open, opened_at);
            &&& m.portfolio(symbol).side == PositionSide::Flat
            &&& has_room(m.portfolio(symbol))
            &&& opening.action != "REJECTED"@
            &&& later == (BrokerModel { quotes: later.quotes, ..between })
            &&& uppercase(close.symbol@) == symbol
            &&& close.side != open.side
            &&& executed(later, close, closed_at).1.action != "REJECTED"@
            &&& close.qty@ == open.qty@ || at_most(open.qty@, close.qty@)
        }),
    ensures
        ({
            let f = double_format();
            let symbol = uppercase(open.symbol@);
            let opening = executed(m, open, opened_at).1;
            let (end, closing) = executed(later, close, closed_at);
            let side = if open.side == OrderSide::Buy {
                PositionSide::Long
            } else {
                PositionSide::Short
            };
            let gain = gain_between(side, opening, closing);
            let before = m.portfolio(symbol);
            let after = end.portfolio(symbol);
            &&& opening.qty == open.qty@
            &&& closing.qty == opening.qty
            &&& after.side == PositionSide::Flat
            &&& after.qty == zero()
            &&& after.realized == sum(f, before.realized, gain)
            &&& after.fees == sum(f, sum(f, before.fees, opening.fee), closing.fee)
            &&& after.trades == before.trades + 1
            &&& after.wins == before.wins + if less(zero(), gain) {
                1int
            } else {
                0
            }
            &&& after.losses == before.losses + if less(gain, zero()) {
                1int
            } else {
                0
            }
            &&& end.cash == sum(
                f,
                difference(f, m.cash, sum(f, opening.notional, opening.fee)),
                difference(f, closing.notional, closing.fee),
            )
        }),
{
    let symbol = uppercase(open.symbol@);
    let (between, opening) = executed(m, open, opened_at);
    assert(between.portfolio(symbol) == later.portfolio(symbol));
    assert(smaller(open.qty@, close.qty@) == open.qty@);
}

} // verus!
