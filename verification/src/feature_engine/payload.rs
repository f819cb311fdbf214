//! Best-bid-and-offer ticks out of raw market messages.

use crate::common::BboTick;
use crate::json::{json_document, parse_json, Json};
use crate::num::model::Num;
use crate::num::Double;
use crate::text::words::{to_upper, uppercase};
use vstd::prelude::*;

verus! {

/// The price and quantity of the first level under one of the two keys.
pub open spec fn first_level(data: Json, key: Seq<char>, other: Seq<char>) -> Option<(Num, Num)> {
    match data.field_or(key, other) {
        Some(side) => match side.list() {
            Some(levels) => if levels.len() == 0 {
                None
            } else {
                match levels[0].list() {
                    Some(pair) => if pair.len() < 2 {
                        None
                    } else {
                        match (pair[0].loose_double(), pair[1].loose_double()) {
                            (Some(p), Some(q)) => Some((p, q)),
                            _ => None,
                        }
                    },
                    None => None,
                }
            },
            None => None,
        },
        None => None,
    }
}

/// An integer under one of the two keys.
pub open spec fn loose_time(data: Json, key: Seq<char>, other: Seq<char>) -> Option<i64> {
    let first = match data.field(key) {
        Some(v) => v.loose_i64(),
        None => None,
    };
    match (first, data.field(other)) {
        (Some(t), _) => Some(t),
        (None, Some(v)) => v.loose_i64(),
        (None, None) => None,
    }
}

pub open spec fn loose_id(data: Json, key: Seq<char>) -> Option<u64> {
    match data.field(key) {
        Some(v) => v.loose_u64(),
        None => None,
    }
}

pub open spec fn upper_symbol(data: Json) -> Option<Seq<char>> {
    match data.field_or("s"@, "symbol"@) {
        Some(v) => match v.text() {
            Some(s) => Some(uppercase(s)),
            None => None,
        },
        None => None,
    }
}

/// The tick that a message holds: it has the best levels of both sides, a time, an update
/// identifier and a symbol.
pub open spec fn is_tick(data: Json, ts_ingest: i64, r: Option<BboTick>) -> bool {
    let bid = first_level(data, "b"@, "bids"@);
    let ask = first_level(data, "a"@, "asks"@);
    let ts = loose_time(data, "T"@, "E"@);
    let id = loose_id(data, "u"@);
    let symbol = upper_symbol(data);
    match r {
        Some(t) => {
            &&& bid == Some((t.bid_price@, t.bid_qty@))
            &&& ask == Some((t.ask_price@, t.ask_qty@))
            &&& ts == Some(t.ts_exchange)
            &&& id == Some(t.update_id)
            &&& symbol == Some(t.symbol@)
            &&& t.ts_ingest == ts_ingest
        },
        None => bid is None || ask is None || ts is None || id is None || symbol is None,
    }
}

fn read_level(data: &Json, key: &str, other: &str) -> (r: Option<(Double, Double)>)
    ensures
        match r {
            Some((p, q)) => first_level(*data, key@, other@) == Some((p@, q@)),
            None => first_level(*data, key@, other@) is None,
        },
{
    let side = data.get_or(key, other)?;
    let levels = side.as_list()?;
    if levels.len() == 0 {
        return None;
    }
    let pair = levels[0].as_list()?;
    if pair.len() < 2 {
        return None;
    }
    let p = pair[0].as_double()?;
    let q = pair[1].as_double()?;
    Some((p, q))
}

fn read_time(data: &Json, key: &str, other: &str) -> (r: Option<i64>)
    ensures
        r == loose_time(*data, key@, other@),
{
    let first = match data.get(key) {
        Some(v) => v.as_i64(),
        None => None,
    };
    match first {
        Some(t) => Some(t),
        None => match data.get(other) {
            Some(v) => v.as_i64(),
            None => None,
        },
    }
}

/// The tick of a message body.
pub fn tick_from_data(data: &Json, ts_ingest: i64) -> (r: Option<BboTick>)
    ensures
        is_tick(*data, ts_ingest, r),
{
    let (bid_price, bid_qty) = read_level(data, "b", "bids")?;
    let (ask_price, ask_qty) = read_level(data, "a", "asks")?;
    let ts_exchange = read_time(data, "T", "E")?;
    let id = data.get("u")?;
    let update_id = id.as_u64()?;
    let name = data.get_or("s", "symbol")?;
    let symbol = to_upper(name.as_str()?);
    Some(
        BboTick {
            ts_exchange,
            ts_ingest,
            update_id,
            symbol,
            bid_price,
            bid_qty,
            ask_price,
            ask_qty,
        },
    )
}

/// The tick of a message: its body stands under `data` or `d`.
pub fn parse_bbo_from_payload(payload: &[u8], ts_ingest: i64) -> (r: Option<BboTick>)
    ensures
        match json_document(payload@) {
            Some(root) => match root.field_or("data"@, "d"@) {
                Some(data) => is_tick(data, ts_ingest, r),
                None => r is None,
            },
            None => r is None,
        },
{
    let root = parse_json(payload)?;
    let data = root.get_or("data", "d")?;
    tick_from_data(data, ts_ingest)
}

/// A tick is read exactly where both sides have a first level of two numbers, there is a time
/// under `T` or else `E`, an update number under `u`, and a symbol under `s` or else `symbol`. It
/// tells the first bid and the first ask, and its symbol is in upper case.
pub proof fn law_ticks_tell_the_first_levels(data: Json, ts_ingest: i64, r: Option<BboTick>)
    requires
        is_tick(data, ts_ingest, r),
    ensures
        r matches Some(t) ==> {
            let bids = if data.field("b"@) is Some {
                data.field("b"@)
            } else {
                data.field("bids"@)
            };
            let asks = if data.field("a"@) is Some {
                data.field("a"@)
            } else {
                data.field("asks"@)
            };
            let name = if data.field("s"@) is Some {
                data.field("s"@)
            } else {
                data.field("symbol"@)
            };
            let time = data.field("T"@);
            &&& t.ts_ingest == ts_ingest
            &&& has_first_level(bids, t.bid_price@, t.bid_qty@)
            &&& has_first_level(asks, t.ask_price@, t.ask_qty@)
            &&& name matches Some(v) && (v.text() matches Some(s) && t.symbol@ == uppercase(s))
            &&& data.field("u"@) matches Some(v) && v.loose_u64() == Some(t.update_id)
            &&& (time matches Some(v) && v.loose_i64() is Some) ==> time->Some_0.loose_i64()
                == Some(t.ts_exchange)
            &&& !(time matches Some(v) && v.loose_i64() is Some) ==> (data.field(
                "E"@,
            ) matches Some(v) && v.loose_i64() == Some(t.ts_exchange))
        },
{
}

/// The first level of a side is this price and quantity.
pub open spec fn has_first_level(side: Option<Json>, price: Num, qty: Num) -> bool {
    side matches Some(v) && (v.list() matches Some(levels) && levels.len() > 0 && (
    levels[0].list() matches Some(level) && level.len() >= 2 && level[0].loose_double() == Some(
        price,
    ) && level[1].loose_double() == Some(qty)))
}

/// Where a tick has all its parts it is read.
pub proof fn law_complete_ticks_are_read(
    data: Json,
    ts_ingest: i64,
    r: Option<BboTick>,
    bid: (Num, Num),
    ask: (Num, Num),
)
    requires
        is_tick(data, ts_ingest, r),
        has_first_level(data.field("b"@), bid.0, bid.1),
        has_first_level(data.field("a"@), ask.0, ask.1),
        data.field("T"@) matches Some(v) && v.loose_i64() is Some,
        data.field("u"@) matches Some(v) && v.loose_u64() is Some,
        data.field("s"@) matches Some(v) && v.text() is Some,
    ensures
        r is Some,
{
}

} // verus!
