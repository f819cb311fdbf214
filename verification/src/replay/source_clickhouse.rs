//! Recorded events out of ClickHouse.

use super::source::{sort_events, sorted_events, ReplayEvent};
use super::times::{format_utc, utc_text};
use crate::common::{BboTick, TradeTick};
use crate::text::digits::{decimal_text, unsigned_text};
use crate::text::parts::{double_char, doubled};
use vstd::prelude::*;
use vstd::string::*;

verus! {

/// Where the events are read, and which.
#[derive(Clone, Debug)]
pub struct ClickHouseReplaySource {
    pub url: String,
    pub database: String,
    pub username: Option<String>,
    pub password: Option<String>,
    pub symbol: String,
    pub from_ts_ms: i64,
    pub to_ts_ms: i64,
    pub limit: Option<u64>,
    pub include_trades: bool,
}

/// A bound of the time range that is outside the calendar.
#[derive(Clone, Copy, Debug, PartialEq, Eq, Structural)]
pub enum RangeError {
    From(i64),
    To(i64),
}

/// The queries of a source; trades are read only where they are asked for.
#[derive(Debug)]
pub struct ReplayQueries {
    pub bbos: String,
    pub trades: Option<String>,
}

pub open spec fn limit_clause(limit: Option<u64>) -> Seq<char> {
    match limit {
        Some(n) => "LIMIT "@ + decimal_text(n as int),
        None => ""@,
    }
}

/// Which rows: those of the symbol from one moment to another, both included.
pub open spec fn range_clause(
    symbol: Seq<char>,
    from: Seq<char>,
    to: Seq<char>,
) -> Seq<char> {
    " WHERE symbol = '"@ + doubled(symbol, '\'') + "' AND ts_exchange >= '"@ + from
        + "' AND ts_exchange <= '"@ + to + "'"@
}

pub open spec fn bbo_query(
    symbol: Seq<char>,
    from: Seq<char>,
    to: Seq<char>,
    limit: Option<u64>,
) -> Seq<char> {
    "SELECT ts_exchange, ts_ingest, update_id, symbol, bid_price, bid_qty, ask_price, ask_qty FROM bbo_ticks"@
        + range_clause(symbol, from, to) + " ORDER BY ts_exchange, update_id "@ + limit_clause(limit)
}

pub open spec fn trade_query(
    symbol: Seq<char>,
    from: Seq<char>,
    to: Seq<char>,
    limit: Option<u64>,
) -> Seq<char> {
    "SELECT ts_exchange, ts_ingest, trade_id, symbol, price, quantity, is_buyer_maker FROM trade_ticks"@
        + range_clause(symbol, from, to) + " ORDER BY ts_exchange, trade_id "@ + limit_clause(limit)
}

fn limit_text(limit: Option<u64>) -> (r: String)
    ensures
        r@ == limit_clause(limit),
{
    match limit {
        Some(n) => {
            let mut s = "LIMIT ".to_string();
            s.append(unsigned_text(n).as_str());
            s
        },
        None => "".to_string(),
    }
}

fn append_range(s: &mut String, symbol: &str, from: &str, to: &str)
    ensures
        final(s)@ == old(s)@ + range_clause(symbol@, from@, to@),
{
    let ghost start = s@;
    s.append(" WHERE symbol = '");
    s.append(double_char(symbol, '\'').as_str());
    s.append("' AND ts_exchange >= '");
    s.append(from);
    s.append("' AND ts_exchange <= '");
    s.append(to);
    s.append("'");
    proof {
        assert(s@ =~= start + range_clause(symbol@, from@, to@));
    }
}

/// The query of the quotes of a symbol between two moments.
pub fn bbo_sql(symbol: &str, from: &str, to: &str, limit: Option<u64>) -> (r: String)
    ensures
        r@ == bbo_query(symbol@, from@, to@, limit),
{
    let mut s =
        "SELECT ts_exchange, ts_ingest, update_id, symbol, bid_price, bid_qty, ask_price, ask_qty FROM bbo_ticks".to_string();
    append_range(&mut s, symbol, from, to);
    s.append(" ORDER BY ts_exchange, update_id ");
    s.append(limit_text(limit).as_str());
    s
}

/// The query of the trades of a symbol between two moments.
pub fn trade_sql(symbol: &str, from: &str, to: &str, limit: Option<u64>) -> (r: String)
    ensures
        r@ == trade_query(symbol@, from@, to@, limit),
{
    let mut s =
        "SELECT ts_exchange, ts_ingest, trade_id, symbol, price, quantity, is_buyer_maker FROM trade_ticks".to_string();
    append_range(&mut s, symbol, from, to);
    s.append(" ORDER BY ts_exchange, trade_id ");
    s.append(limit_text(limit).as_str());
    s
}

pub open spec fn events_read(bbos: Seq<BboTick>, trades: Seq<TradeTick>) -> Seq<ReplayEvent> {
    bbos.map_values(|t: BboTick| ReplayEvent::Bbo(t)) + trades.map_values(
        |t: TradeTick| ReplayEvent::Trade(t),
    )
}

impl ClickHouseReplaySource {
    /// The queries, or the bound that is outside the calendar.
    pub fn queries(&self) -> (r: Result<ReplayQueries, RangeError>)
        ensures
            match (utc_text(self.from_ts_ms), utc_text(self.to_ts_ms)) {
                (Some(from), Some(to)) => {
                    &&& r matches Ok(q)
                    &&& q.bbos@ == bbo_query(self.symbol@, from, to, self.limit)
                    &&& q.trades is Some == self.include_trades
                    &&& q.trades matches Some(t) ==> t@ == trade_query(
                        self.symbol@,
                        from,
                        to,
                        self.limit,
                    )
                },
                (None, _) => r matches Err(e) && e == RangeError::From(self.from_ts_ms),
                (Some(_), None) => r matches Err(e) && e == RangeError::To(self.to_ts_ms),
            },
    {
        let from = match format_utc(self.from_ts_ms) {
            Some(s) => s,
            None => return Err(RangeError::From(self.from_ts_ms)),
        };
        let to = match format_utc(self.to_ts_ms) {
            Some(s) => s,
            None => return Err(RangeError::To(self.to_ts_ms)),
        };
        let bbos = bbo_sql(self.symbol.as_str(), from.as_str(), to.as_str(), self.limit);
        let trades = if self.include_trades {
            Some(trade_sql(self.symbol.as_str(), from.as_str(), to.as_str(), self.limit))
        } else {
            None
        };
        Ok(ReplayQueries { bbos, trades })
    }

    /// The events of the rows that were read: the quotes as they came, or quotes and trades
    /// sorted together.
    pub fn events(&self, bbos: Vec<BboTick>, trades: Vec<TradeTick>) -> (r: Vec<ReplayEvent>)
        ensures
            r@ == if self.include_trades {
                sorted_events(events_read(bbos@, trades@))
            } else {
                events_read(bbos@, Seq::empty())
            },
    {
        let mut events: Vec<ReplayEvent> = Vec::new();
        let mut i: usize = 0;
        let ghost none = Seq::<TradeTick>::empty();
        while i < bbos.len()
            invariant
                i <= bbos@.len(),
                none == Seq::<TradeTick>::empty(),
                events@ == events_read(bbos@.take(i as int), none),
            decreases bbos@.len() - i,
        {
            events.push(ReplayEvent::Bbo(bbos[i].clone()));
            i = i + 1;
            proof {
                assert(events@ =~= events_read(bbos@.take(i as int), none));
            }
        }
        proof {
            assert(bbos@.take(bbos@.len() as int) =~= bbos@);
        }
        if !self.include_trades {
            return events;
        }
        let mut j: usize = 0;
        while j < trades.len()
            invariant
                j <= trades@.len(),
                events@ == events_read(bbos@, trades@.take(j as int)),
            decreases trades@.len() - j,
        {
            events.push(ReplayEvent::Trade(trades[j].clone()));
            j = j + 1;
            proof {
                assert(events@ =~= events_read(bbos@, trades@.take(j as int)));
            }
        }
        proof {
            assert(trades@.take(trades@.len() as int) =~= trades@);
        }
        sort_events(&events)
    }
}

} // verus!
