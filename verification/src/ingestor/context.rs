//! Futures messages: what each one publishes.

use super::model::{
    are_levels, finite_levels, finite_number, is_liquidation, parse_f64, DepthSnapshot,
    FuturesDepthEvent, FuturesForceOrderEvent, FuturesMarkPriceUpdate, FuturesOpenInterestUpdate,
    LiquidationTick, MarketContextEvent,
};
use crate::num::double::seen_double;
use crate::num::model::Num;
use crate::num::Double;
use crate::symbols::SymbolMap;
use crate::text::words::{to_upper, uppercase};
use vstd::prelude::*;
use vstd::string::*;

verus! {

/// A futures message.
#[derive(Debug)]
pub enum FuturesEvent {
    Depth(FuturesDepthEvent),
    ForceOrder(FuturesForceOrderEvent),
    MarkPrice(FuturesMarkPriceUpdate),
    OpenInterest(FuturesOpenInterestUpdate),
    Unsupported,
}

/// What a futures message publishes.
#[derive(Debug)]
pub enum Publication {
    Depth { subject: String, snapshot: DepthSnapshot },
    Liquidation { subject: String, tick: LiquidationTick },
    /// A liquidation whose numbers are not finite.
    Malformed,
    /// On the publisher's own subject.
    Context(MarketContextEvent),
    Nothing,
}

/// The open interest known of each symbol.
pub struct FuturesContext {
    open_interest: SymbolMap<Double>,
}

/// The open interest after a message.
pub open spec fn interest_after(
    known: Map<Seq<char>, Num>,
    event: FuturesEvent,
) -> Map<Seq<char>, Num> {
    match event {
        FuturesEvent::OpenInterest(u) => match finite_number(u.open_interest@) {
            Some(x) => known.insert(uppercase(u.symbol@), x),
            None => known,
        },
        _ => known,
    }
}

/// The open interest known of a symbol.
pub open spec fn interest_of(known: Map<Seq<char>, Num>, symbol: Seq<char>) -> Option<Num> {
    let key = uppercase(symbol);
    if known.contains_key(key) {
        Some(known[key])
    } else {
        None
    }
}

/// What a message publishes.
pub open spec fn is_publication(
    known: Map<Seq<char>, Num>,
    event: FuturesEvent,
    ts_ingest: i64,
    p: Publication,
) -> bool {
    match event {
        FuturesEvent::Depth(raw) => p matches Publication::Depth { subject, snapshot } && {
            &&& subject@ == "market.depth."@ + uppercase(raw.symbol@)
            &&& snapshot.symbol@ == uppercase(raw.symbol@)
            &&& snapshot.ts_exchange == raw.event_time
            &&& snapshot.ts_ingest == ts_ingest
            &&& are_levels(snapshot.bids_price@, snapshot.bids_qty@, finite_levels(raw.bids@))
            &&& are_levels(snapshot.asks_price@, snapshot.asks_qty@, finite_levels(raw.asks@))
        },
        FuturesEvent::ForceOrder(raw) => match p {
            Publication::Liquidation { subject, tick } => subject@ == "market.liq."@ + uppercase(
                raw.order.symbol@,
            ) && is_liquidation(raw, ts_ingest, Some(tick)),
            Publication::Malformed => is_liquidation(raw, ts_ingest, None),
            _ => false,
        },
        FuturesEvent::MarkPrice(u) => p matches Publication::Context(e) && {
            &&& e.ts_exchange == u.event_time
            &&& e.ts_ingest == ts_ingest
            &&& e.symbol@ == u.symbol@
            &&& seen_double(e.mark_price) == finite_number(u.mark_price@)
            &&& seen_double(e.funding_rate) == match u.funding_rate {
                Some(s) => finite_number(s@),
                None => None,
            }
            &&& seen_double(e.open_interest) == interest_of(known, u.symbol@)
            &&& e.next_funding_time == u.next_funding_time
            &&& e.source@ == "futures"@
        },
        FuturesEvent::OpenInterest(_) => p is Nothing,
        FuturesEvent::Unsupported => p is Nothing,
    }
}

impl FuturesContext {
    pub closed spec fn known(self) -> Map<Seq<char>, Num> {
        self.open_interest@.map_values(|x: Double| x@)
    }

    pub fn new() -> (r: Self)
        ensures
            r.known() == Map::<Seq<char>, Num>::empty(),
    {
        let r = FuturesContext { open_interest: SymbolMap::new() };
        proof {
            assert(r.known() =~= Map::<Seq<char>, Num>::empty());
        }
        r
    }

    /// Notes the open interest of a symbol where its text is a finite number; whether it was.
    pub fn note_open_interest(&mut self, symbol: &str, open_interest: &str) -> (r: bool)
        ensures
            match finite_number(open_interest@) {
                Some(x) => r && final(self).known() == old(self).known().insert(
                    uppercase(symbol@),
                    x,
                ),
                None => !r && final(self).known() == old(self).known(),
            },
    {
        match parse_f64(open_interest) {
            Some(x) => {
                let key = to_upper(symbol);
                let ghost before = self.known();
                self.open_interest.insert(key.as_str(), x);
                proof {
                    assert(self.known() =~= before.insert(uppercase(symbol@), x@));
                }
                true
            },
            None => false,
        }
    }

    /// Takes in a message and says what it publishes.
    pub fn handle(&mut self, event: FuturesEvent, ts_ingest: i64) -> (p: Publication)
        ensures
            final(self).known() == interest_after(old(self).known(), event),
            is_publication(old(self).known(), event, ts_ingest, p),
    {
        match event {
            FuturesEvent::Depth(raw) => {
                let snapshot = DepthSnapshot::from_depth5(raw, ts_ingest);
                let mut subject = "market.depth.".to_string();
                subject.append(snapshot.symbol.as_str());
                Publication::Depth { subject, snapshot }
            },
            FuturesEvent::ForceOrder(raw) => {
                match LiquidationTick::from_force_order(raw, ts_ingest) {
                    Some(tick) => {
                        let mut subject = "market.liq.".to_string();
                        subject.append(tick.symbol.as_str());
                        Publication::Liquidation { subject, tick }
                    },
                    None => Publication::Malformed,
                }
            },
            FuturesEvent::MarkPrice(u) => {
                let key = to_upper(u.symbol.as_str());
                let cached = match self.open_interest.get(key.as_str()) {
                    Some(x) => Some(*x),
                    None => None,
                };
                Publication::Context(MarketContextEvent::from_mark(u, ts_ingest, cached))
            },
            FuturesEvent::OpenInterest(u) => {
                self.note_open_interest(u.symbol.as_str(), u.open_interest.as_str());
                Publication::Nothing
            },
            FuturesEvent::Unsupported => Publication::Nothing,
        }
    }
}

/// Where the open interest of a symbol is asked for.
pub fn open_interest_address(symbol: &str) -> (r: String)
    ensures
        r@ == "https://fapi.binance.com/fapi/v1/openInterest?symbol="@ + uppercase(symbol@),
{
    let mut r = "https://fapi.binance.com/fapi/v1/openInterest?symbol=".to_string();
    r.append(to_upper(symbol).as_str());
    r
}

/// Open interest reaches the next mark price of its symbol, whatever the case of its letters.
pub proof fn law_interest_reaches_mark(
    known: Map<Seq<char>, Num>,
    interest: FuturesOpenInterestUpdate,
    mark: FuturesMarkPriceUpdate,
    x: Num,
)
    requires
        uppercase(interest.symbol@) == uppercase(mark.symbol@),
        finite_number(interest.open_interest@) == Some(x),
    ensures
        interest_of(
            interest_after(known, FuturesEvent::OpenInterest(interest)),
            mark.symbol@,
        ) == Some(x),
{
}

/// Depth and liquidation messages never change what is known of open interest.
pub proof fn law_only_interest_is_noted(known: Map<Seq<char>, Num>, event: FuturesEvent)
    requires
        !(event is OpenInterest),
    ensures
        interest_after(known, event) == known,
{
}

} // verus!
