//! Messages of the exchange and their normalised form.

use crate::num::decimal::parse_number;
use crate::num::double::seen_double;
use crate::num::model::{double_format, Num};
use crate::num::Double;
use crate::text::words::{to_upper, uppercase};
use vstd::prelude::*;

verus! {

/// 24-hour statistics of a symbol; most numbers come as strings.
#[derive(Clone, Debug)]
pub struct Ticker24hr {
    pub symbol: String,
    pub price_change: Option<String>,
    pub price_change_percent: Option<String>,
    pub weighted_avg_price: Option<String>,
    pub prev_close_price: Option<String>,
    pub last_price: Option<String>,
    pub last_qty: Option<String>,
    pub bid_price: Option<String>,
    pub bid_qty: Option<String>,
    pub ask_price: Option<String>,
    pub ask_qty: Option<String>,
    pub open_price: Option<String>,
    pub high_price: Option<String>,
    pub low_price: Option<String>,
    /// Base asset volume.
    pub volume: String,
    /// Quote asset volume; the ranking goes by it.
    pub quote_volume: String,
    pub open_time: u64,
    pub close_time: u64,
    pub first_id: Option<i64>,
    pub last_id: Option<i64>,
    pub count: Option<i64>,
}

/// Envelope of a combined stream.
#[derive(Clone, Debug)]
#[verifier::reject_recursive_types(T)]
pub struct CombinedStream<T> {
    pub stream: String,
    pub data: T,
}

/// Spot trade.
#[derive(Clone, Debug)]
pub struct TradeEvent {
    pub event_type: String,
    pub event_time: u64,
    pub symbol: String,
    pub trade_id: u64,
    pub price: String,
    pub quantity: String,
    pub buyer_order_id: Option<u64>,
    pub seller_order_id: Option<u64>,
    pub trade_time: u64,
    pub is_buyer_maker: bool,
    pub ignore: bool,
}

/// Price and quantity of a depth level.
pub type Level = (String, String);

/// Spot depth update.
#[derive(Clone, Debug)]
pub struct DepthUpdateEvent {
    pub event_type: String,
    pub event_time: u64,
    pub symbol: String,
    pub first_update_id: u64,
    pub final_update_id: u64,
    pub bids: Vec<Level>,
    pub asks: Vec<Level>,
}

/// Futures mark price.
#[derive(Clone, Debug)]
pub struct FuturesMarkPriceUpdate {
    pub event_type: String,
    pub event_time: i64,
    pub symbol: String,
    pub mark_price: String,
    pub funding_rate: Option<String>,
    pub next_funding_time: Option<i64>,
}

/// Futures open interest.
#[derive(Clone, Debug)]
pub struct FuturesOpenInterestUpdate {
    pub event_type: String,
    pub event_time: i64,
    pub symbol: String,
    pub open_interest: String,
}

/// Normalised futures context.
#[derive(Debug)]
pub struct MarketContextEvent {
    pub ts_exchange: i64,
    pub ts_ingest: i64,
    pub symbol: String,
    pub mark_price: Option<Double>,
    pub funding_rate: Option<Double>,
    pub open_interest: Option<Double>,
    pub next_funding_time: Option<i64>,
    pub source: String,
}

/// The finite number that a string denotes.
pub open spec fn finite_number(s: Seq<char>) -> Option<Num> {
    match parse_number(double_format(), s) {
        Some(x) => if x is Fin {
            Some(x)
        } else {
            None
        },
        None => None,
    }
}

/// The finite number that a string denotes.
pub fn parse_f64(s: &str) -> (r: Option<Double>)
    ensures
        seen_double(r) == finite_number(s@),
{
    match Double::parse(s) {
        Some(x) => if x.is_finite() {
            Some(x)
        } else {
            None
        },
        None => None,
    }
}

impl MarketContextEvent {
    /// The context of a mark price, with the open interest known so far.
    pub fn from_mark(
        update: FuturesMarkPriceUpdate,
        ts_ingest: i64,
        cached_open_interest: Option<Double>,
    ) -> (r: Self)
        ensures
            r.ts_exchange == update.event_time,
            r.ts_ingest == ts_ingest,
            r.symbol@ == update.symbol@,
            seen_double(r.mark_price) == finite_number(update.mark_price@),
            seen_double(r.funding_rate) == (match update.funding_rate {
                Some(s) => finite_number(s@),
                None => None,
            }),
            r.open_interest == cached_open_interest,
            r.next_funding_time == update.next_funding_time,
            r.source@ == "futures"@,
    {
        let funding_rate = match &update.funding_rate {
            Some(s) => parse_f64(s.as_str()),
            None => None,
        };
        MarketContextEvent {
            ts_exchange: update.event_time,
            ts_ingest,
            mark_price: parse_f64(update.mark_price.as_str()),
            funding_rate,
            open_interest: cached_open_interest,
            next_funding_time: update.next_funding_time,
            symbol: update.symbol,
            source: "futures".to_string(),
        }
    }
}

/// Futures depth.
#[derive(Clone, Debug)]
pub struct FuturesDepthEvent {
    pub event_type: String,
    pub event_time: i64,
    pub symbol: String,
    pub bids: Vec<[String; 2]>,
    pub asks: Vec<[String; 2]>,
    pub update_id: Option<i64>,
}

/// Normalised depth snapshot.
#[derive(Debug)]
pub struct DepthSnapshot {
    pub symbol: String,
    pub ts_exchange: i64,
    pub ts_ingest: i64,
    pub bids_price: Vec<Double>,
    pub bids_qty: Vec<Double>,
    pub asks_price: Vec<Double>,
    pub asks_qty: Vec<Double>,
}

/// The levels whose price and quantity are finite numbers, in their order.
pub open spec fn finite_levels(levels: Seq<[String; 2]>) -> Seq<(Num, Num)>
    decreases levels.len(),
{
    if levels.len() == 0 {
        Seq::empty()
    } else {
        let before = finite_levels(levels.drop_last());
        match (finite_number(levels.last()[0]@), finite_number(levels.last()[1]@)) {
            (Some(p), Some(q)) => before.push((p, q)),
            _ => before,
        }
    }
}

/// Two lists hold the prices and the quantities of these levels.
pub open spec fn are_levels(prices: Seq<Double>, qtys: Seq<Double>, levels: Seq<(Num, Num)>) -> bool {
    &&& prices.len() == levels.len()
    &&& qtys.len() == levels.len()
    &&& forall|i: int|
        0 <= i < levels.len() ==> #[trigger] levels[i] == (prices[i]@, qtys[i]@)
}

fn split_levels(levels: &Vec<[String; 2]>) -> (r: (Vec<Double>, Vec<Double>))
    ensures
        are_levels(r.0@, r.1@, finite_levels(levels@)),
{
    let mut prices: Vec<Double> = Vec::new();
    let mut qtys: Vec<Double> = Vec::new();
    let mut i: usize = 0;
    while i < levels.len()
        invariant
            i <= levels@.len(),
            are_levels(prices@, qtys@, finite_levels(levels@.take(i as int))),
        decreases levels@.len() - i,
    {
        proof {
            assert(levels@.take(i + 1).drop_last() =~= levels@.take(i as int));
        }
        let pair = &levels[i];
        if let Some(p) = parse_f64(pair[0].as_str()) {
            if let Some(q) = parse_f64(pair[1].as_str()) {
                prices.push(p);
                qtys.push(q);
            }
        }
        i = i + 1;
    }
    proof {
        assert(levels@.take(levels@.len() as int) =~= levels@);
    }
    (prices, qtys)
}

impl DepthSnapshot {
    /// The snapshot of a depth message; levels that are not finite numbers are left out.
    pub fn from_depth5(raw: FuturesDepthEvent, ts_ingest: i64) -> (r: Self)
        ensures
            r.symbol@ == uppercase(raw.symbol@),
            r.ts_exchange == raw.event_time,
            r.ts_ingest == ts_ingest,
            are_levels(r.bids_price@, r.bids_qty@, finite_levels(raw.bids@)),
            are_levels(r.asks_price@, r.asks_qty@, finite_levels(raw.asks@)),
    {
        let (bids_price, bids_qty) = split_levels(&raw.bids);
        let (asks_price, asks_qty) = split_levels(&raw.asks);
        DepthSnapshot {
            symbol: to_upper(raw.symbol.as_str()),
            ts_exchange: raw.event_time,
            ts_ingest,
            bids_price,
            bids_qty,
            asks_price,
            asks_qty,
        }
    }
}

/// Forced liquidation.
#[derive(Clone, Debug)]
pub struct FuturesForceOrderEvent {
    pub event_type: String,
    pub event_time: i64,
    pub order: ForceOrderBody,
}

/// Order of a forced liquidation.
#[derive(Clone, Debug)]
pub struct ForceOrderBody {
    pub symbol: String,
    pub side: String,
    pub orig_qty: String,
    pub price: String,
    pub avg_price: Option<String>,
    pub last_filled_qty: Option<String>,
    pub trade_time: Option<i64>,
}

/// Normalised liquidation.
#[derive(Debug)]
pub struct LiquidationTick {
    pub symbol: String,
    pub side: String,
    pub price: Double,
    pub orig_qty: Double,
    pub last_filled_qty: Double,
    pub ts_exchange: i64,
    pub ts_ingest: i64,
}

/// The average price where there is one, else the price.
pub open spec fn order_price(o: ForceOrderBody) -> Seq<char> {
    match o.avg_price {
        Some(s) => s@,
        None => o.price@,
    }
}

/// The quantity filled last, zero where it is missing.
pub open spec fn order_filled(o: ForceOrderBody) -> Seq<char> {
    match o.last_filled_qty {
        Some(s) => s@,
        None => "0"@,
    }
}

/// The tick of a liquidation: its price and quantities are finite numbers.
pub open spec fn is_liquidation(
    raw: FuturesForceOrderEvent,
    ts_ingest: i64,
    r: Option<LiquidationTick>,
) -> bool {
    let price = finite_number(order_price(raw.order));
    let qty = finite_number(raw.order.orig_qty@);
    let filled = finite_number(order_filled(raw.order));
    match r {
        Some(t) => {
            &&& t.symbol@ == uppercase(raw.order.symbol@)
            &&& t.side@ == raw.order.side@
            &&& price == Some(t.price@)
            &&& qty == Some(t.orig_qty@)
            &&& filled == Some(t.last_filled_qty@)
            &&& t.ts_exchange == match raw.order.trade_time {
                Some(ts) => ts,
                None => raw.event_time,
            }
            &&& t.ts_ingest == ts_ingest
        },
        None => price is None || qty is None || filled is None,
    }
}

impl LiquidationTick {
    /// The tick of a liquidation message.
    pub fn from_force_order(raw: FuturesForceOrderEvent, ts_ingest: i64) -> (r: Option<Self>)
        ensures
            is_liquidation(raw, ts_ingest, r),
    {
        let price_str = match &raw.order.avg_price {
            Some(s) => s.as_str(),
            None => raw.order.price.as_str(),
        };
        let price = parse_f64(price_str)?;
        let orig_qty = parse_f64(raw.order.orig_qty.as_str())?;
        let filled_str = match &raw.order.last_filled_qty {
            Some(s) => s.as_str(),
            None => "0",
        };
        let last_filled_qty = parse_f64(filled_str)?;
        let ts_exchange: i64 = match raw.order.trade_time {
            Some(ts) => ts,
            None => raw.event_time,
        };
        Some(
            LiquidationTick {
                symbol: to_upper(raw.order.symbol.as_str()),
                side: raw.order.side.clone(),
                price,
                orig_qty,
                last_filled_qty,
                ts_exchange,
                ts_ingest,
            },
        )
    }
}

} // verus!
