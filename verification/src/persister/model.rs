//! Market messages and the rows made of them.

use crate::json::{json_document, parse_json, Json};
use crate::num::model::{less, Num};
use crate::num::Double;
use crate::text::digits::chars_of;
use crate::text::words::{before_char, same_text, spells, spells_at, split_first, text_of};
use vstd::prelude::*;

verus! {

/// Message of the raw market feed.
#[derive(Debug)]
pub struct MarketEvent {
    pub stream: Option<String>,
    pub event_type: Option<String>,
    pub ts_ingest: Option<String>,
    pub data: Json,
}

/// Row of `trade_ticks`.
#[derive(Debug)]
pub struct TradeTickRow {
    pub ts_exchange: i64,
    pub ts_ingest: i64,
    pub trade_id: u64,
    pub symbol: String,
    pub price: Double,
    pub quantity: Double,
    /// The buyer was the maker, so the seller was the aggressor.
    pub is_buyer_maker: bool,
}

/// Normalised futures context.
#[derive(Debug)]
pub struct MarketContextEvent {
    pub ts_exchange: i64,
    pub ts_ingest: i64,
    pub symbol: String,
    pub mark_price: Option<Double>,
    pub funding_rate: Option<Double>,
    pub open_interest: Option<Double>,
    pub next_funding_time: Option<i64>,
    pub source: Option<String>,
}

/// Row of `market_context`.
#[derive(Debug)]
pub struct MarketContextRow {
    pub ts: i64,
    pub ts_ingest: i64,
    pub symbol: String,
    pub mark_price: Option<Double>,
    pub funding_rate: Option<Double>,
    pub open_interest: Option<Double>,
    pub next_funding_time: Option<i64>,
}

impl MarketContextEvent {
    pub fn to_row(&self) -> (r: MarketContextRow)
        ensures
            r == (MarketContextRow {
                ts: self.ts_exchange,
                ts_ingest: self.ts_ingest,
                symbol: self.symbol,
                mark_price: self.mark_price,
                funding_rate: self.funding_rate,
                open_interest: self.open_interest,
                next_funding_time: self.next_funding_time,
            }),
    {
        MarketContextRow {
            ts: self.ts_exchange,
            ts_ingest: self.ts_ingest,
            symbol: self.symbol.clone(),
            mark_price: self.mark_price,
            funding_rate: self.funding_rate,
            open_interest: self.open_interest,
            next_funding_time: self.next_funding_time,
        }
    }
}

/// Row of `bbo_ticks`.
#[derive(Debug)]
pub struct BBOTickRow {
    pub ts_exchange: i64,
    pub ts_ingest: i64,
    pub update_id: u64,
    pub symbol: String,
    pub bid_price: Double,
    pub bid_qty: Double,
    pub ask_price: Double,
    pub ask_qty: Double,
}

/// Order book snapshot.
#[derive(Debug)]
pub struct DepthSnapshot {
    pub symbol: String,
    pub ts_exchange: i64,
    pub ts_ingest: i64,
    pub bids_price: Vec<Double>,
    pub bids_qty: Vec<Double>,
    pub asks_price: Vec<Double>,
    pub asks_qty: Vec<Double>,
}

/// Row of `depth_snapshots`.
#[derive(Debug)]
pub struct DepthSnapshotRow {
    pub symbol: String,
    pub ts_exchange: i64,
    pub ts_ingest: i64,
    pub bids_price: Vec<Double>,
    pub bids_qty: Vec<Double>,
    pub asks_price: Vec<Double>,
    pub asks_qty: Vec<Double>,
}

fn clone_doubles(v: &Vec<Double>) -> (r: Vec<Double>)
    ensures
        r@ == v@,
{
    let r = v.clone();
    proof {
        assert(r@ =~= v@);
    }
    r
}

impl DepthSnapshot {
    pub fn to_row(&self) -> (r: DepthSnapshotRow)
        ensures
            r.symbol@ == self.symbol@,
            r.ts_exchange == self.ts_exchange,
            r.ts_ingest == self.ts_ingest,
            r.bids_price@ == self.bids_price@,
            r.bids_qty@ == self.bids_qty@,
            r.asks_price@ == self.asks_price@,
            r.asks_qty@ == self.asks_qty@,
    {
        DepthSnapshotRow {
            symbol: self.symbol.clone(),
            ts_exchange: self.ts_exchange,
            ts_ingest: self.ts_ingest,
            bids_price: clone_doubles(&self.bids_price),
            bids_qty: clone_doubles(&self.bids_qty),
            asks_price: clone_doubles(&self.asks_price),
            asks_qty: clone_doubles(&self.asks_qty),
        }
    }
}

/// Forced liquidation.
#[derive(Debug)]
pub struct LiquidationTick {
    pub symbol: String,
    pub side: String,
    pub price: Double,
    pub orig_qty: Double,
    pub last_filled_qty: Double,
    pub ts_exchange: i64,
    pub ts_ingest: i64,
}

/// Row of `liquidation_ticks`.
#[derive(Debug)]
pub struct LiquidationTickRow {
    pub symbol: String,
    pub side: String,
    pub price: Double,
    pub orig_qty: Double,
    pub last_filled_qty: Double,
    pub ts_exchange: i64,
    pub ts_ingest: i64,
}

impl LiquidationTick {
    pub fn to_row(&self) -> (r: LiquidationTickRow)
        ensures
            r == (LiquidationTickRow {
                symbol: self.symbol,
                side: self.side,
                price: self.price,
                orig_qty: self.orig_qty,
                last_filled_qty: self.last_filled_qty,
                ts_exchange: self.ts_exchange,
                ts_ingest: self.ts_ingest,
            }),
    {
        LiquidationTickRow {
            symbol: self.symbol.clone(),
            side: self.side.clone(),
            price: self.price,
            orig_qty: self.orig_qty,
            last_filled_qty: self.last_filled_qty,
            ts_exchange: self.ts_exchange,
            ts_ingest: self.ts_ingest,
        }
    }
}

/// The exchange time: under `T`, or else under `E`.
pub open spec fn event_time(data: Json) -> Option<i64> {
    let first = match data.field("T"@) {
        Some(v) => v.loose_i64(),
        None => None,
    };
    match (first, data.field("E"@)) {
        (Some(t), _) => Some(t),
        (None, Some(v)) => v.loose_i64(),
        (None, None) => None,
    }
}

pub fn extract_ts_ms(data: &Json) -> (r: Option<i64>)
    ensures
        r == event_time(*data),
{
    let first = match data.get("T") {
        Some(v) => v.as_i64(),
        None => None,
    };
    match first {
        Some(t) => Some(t),
        None => match data.get("E") {
            Some(v) => v.as_i64(),
            None => None,
        },
    }
}

pub open spec fn double_under(data: Json, key: Seq<char>) -> Option<Num> {
    match data.field(key) {
        Some(v) => v.loose_double(),
        None => None,
    }
}

/// The number under the first of two keys that holds one.
pub open spec fn double_under_either(data: Json, key: Seq<char>, other: Seq<char>) -> Option<Num> {
    match double_under(data, key) {
        Some(x) => Some(x),
        None => double_under(data, other),
    }
}

fn read_double(data: &Json, key: &str) -> (r: Option<Double>)
    ensures
        match r {
            Some(x) => double_under(*data, key@) == Some(x@),
            None => double_under(*data, key@) is None,
        },
{
    match data.get(key) {
        Some(v) => v.as_double(),
        None => None,
    }
}

pub fn extract_f64(data: &Json, key: &str, other: &str) -> (r: Option<Double>)
    ensures
        match r {
            Some(x) => double_under_either(*data, key@, other@) == Some(x@),
            None => double_under_either(*data, key@, other@) is None,
        },
{
    match read_double(data, key) {
        Some(x) => Some(x),
        None => read_double(data, other),
    }
}

pub open spec fn id_under(data: Json, key: Seq<char>) -> Option<u64> {
    match data.field(key) {
        Some(v) => v.loose_u64(),
        None => None,
    }
}

pub fn extract_u64(data: &Json, key: &str) -> (r: Option<u64>)
    ensures
        r == id_under(*data, key@),
{
    match data.get(key) {
        Some(v) => v.as_u64(),
        None => None,
    }
}

/// A truth value, an unsigned number that is not zero, or one of the words for it.
pub open spec fn loose_bool(v: Json) -> Option<bool> {
    match v {
        Json::Bool(b) => Some(b),
        Json::Number(n) => match n.unsigned {
            Some(u) => Some(u != 0),
            None => None,
        },
        Json::Text(s) => Some(s@ == "1"@ || spells(s@, "true"@)),
        _ => None,
    }
}

pub open spec fn flag_under(data: Json, key: Seq<char>) -> Option<bool> {
    match data.field(key) {
        Some(v) => loose_bool(v),
        None => None,
    }
}

pub fn extract_bool(data: &Json, key: &str) -> (r: Option<bool>)
    ensures
        r == flag_under(*data, key@),
{
    let v = data.get(key)?;
    match v {
        Json::Bool(b) => Some(*b),
        Json::Number(n) => match n.unsigned {
            Some(u) => Some(u != 0),
            None => None,
        },
        Json::Text(s) => {
            let c = chars_of(s.as_str());
            proof {
                assert(c@.skip(0) =~= c@);
            }
            Some(same_text(s.as_str(), "1") || spells_at(&c, 0, "true"))
        },
        _ => None,
    }
}

pub open spec fn data_symbol(data: Json) -> Option<Seq<char>> {
    match data.text_at("s"@) {
        Some(s) => Some(s),
        None => data.text_at("symbol"@),
    }
}

pub fn extract_symbol(data: &Json) -> (r: Option<String>)
    ensures
        match r {
            Some(s) => data_symbol(*data) == Some(s@),
            None => data_symbol(*data) is None,
        },
{
    match data.get_text("s") {
        Some(s) => Some(s),
        None => data.get_text("symbol"),
    }
}

/// The symbol in a stream name: what stands before the first `@`, unless that is empty.
pub open spec fn stream_symbol(stream: Seq<char>) -> Option<Seq<char>> {
    let s = before_char(stream, '@');
    if s.len() > 0 {
        Some(s)
    } else {
        None
    }
}

pub fn parse_symbol_from_stream(stream: &str) -> (r: Option<String>)
    ensures
        match r {
            Some(s) => stream_symbol(stream@) == Some(s@),
            None => stream_symbol(stream@) is None,
        },
{
    let s = split_first(stream, '@');
    if chars_of(s.as_str()).len() > 0 {
        Some(s)
    } else {
        None
    }
}

/// The symbol of a message: in its data, or else in its stream name, or else unknown.
pub open spec fn event_symbol(e: MarketEvent) -> Seq<char> {
    let from_stream = match e.stream {
        Some(s) => stream_symbol(s@),
        None => None,
    };
    match (data_symbol(e.data), from_stream) {
        (Some(s), _) => s,
        (None, Some(s)) => s,
        (None, None) => "UNKNOWN"@,
    }
}

/// One entry of a list of levels.
pub enum LevelRead {
    /// Not a level: the whole list is refused.
    Bad,
    /// Too short, or a number that is not finite: left out.
    Skip,
    Level(Num, Num),
}

pub open spec fn level_read(item: Json) -> LevelRead {
    match item.list() {
        Some(level) => if level.len() < 2 {
            LevelRead::Skip
        } else {
            match (level[0].loose_double(), level[1].loose_double()) {
                (Some(p), Some(q)) => if p is Fin && q is Fin {
                    LevelRead::Level(p, q)
                } else {
                    LevelRead::Skip
                },
                _ => LevelRead::Bad,
            }
        },
        None => LevelRead::Bad,
    }
}

/// The levels of a list, or `None` where an entry is none.
pub open spec fn levels_of(items: Seq<Json>) -> Option<Seq<(Num, Num)>>
    decreases items.len(),
{
    if items.len() == 0 {
        Some(Seq::empty())
    } else {
        match (levels_of(items.drop_last()), level_read(items.last())) {
            (Some(s), LevelRead::Level(p, q)) => Some(s.push((p, q))),
            (Some(s), LevelRead::Skip) => Some(s),
            _ => None,
        }
    }
}

/// The levels under a key, where there is at least one.
pub open spec fn levels_under(data: Json, key: Seq<char>) -> Option<Seq<(Num, Num)>> {
    match data.field(key) {
        Some(v) => match v.list() {
            Some(items) => match levels_of(items) {
                Some(s) => if s.len() > 0 {
                    Some(s)
                } else {
                    None
                },
                None => None,
            },
            None => None,
        },
        None => None,
    }
}

pub open spec fn levels_under_either(data: Json, key: Seq<char>, other: Seq<char>) -> Option<
    Seq<(Num, Num)>,
> {
    match levels_under(data, key) {
        Some(s) => Some(s),
        None => levels_under(data, other),
    }
}

/// The view of a list of levels.
pub open spec fn seen_levels(v: Seq<(Double, Double)>) -> Seq<(Num, Num)> {
    v.map_values(|p: (Double, Double)| (p.0@, p.1@))
}

proof fn lemma_levels_prefix(items: Seq<Json>, i: int)
    requires
        0 <= i <= items.len(),
        levels_of(items.take(i)) is None,
    ensures
        levels_of(items) is None,
    decreases items.len() - i,
{
    if i < items.len() {
        assert(items.take(i + 1).drop_last() =~= items.take(i));
        lemma_levels_prefix(items, i + 1);
    } else {
        assert(items.take(i) =~= items);
    }
}

pub fn parse_levels(data: &Json, key: &str) -> (r: Option<Vec<(Double, Double)>>)
    ensures
        match r {
            Some(v) => levels_under(*data, key@) == Some(seen_levels(v@)),
            None => levels_under(*data, key@) is None,
        },
{
    let items = data.get(key)?.as_list()?;
    let mut out: Vec<(Double, Double)> = Vec::new();
    let mut i: usize = 0;
    proof {
        assert(seen_levels(out@) =~= Seq::<(Num, Num)>::empty());
        assert(items@.take(0) =~= Seq::<Json>::empty());
    }
    while i < items.len()
        invariant
            i <= items@.len(),
            levels_under(*data, key@) == (match levels_of(items@) {
                Some(s) => if s.len() > 0 {
                    Some(s)
                } else {
                    None
                },
                None => None,
            }),
            levels_of(items@.take(i as int)) == Some(seen_levels(out@)),
        decreases items@.len() - i,
    {
        proof {
            assert(items@.take(i + 1).drop_last() =~= items@.take(i as int));
            assert(items@.take(i + 1).last() == items@[i as int]);
            if level_read(items@[i as int]) is Bad {
                lemma_levels_prefix(items@, i + 1);
            }
        }
        let level = items[i].as_list()?;
        if level.len() >= 2 {
            let p = level[0].as_double()?;
            let q = level[1].as_double()?;
            if p.is_finite() && q.is_finite() {
                let ghost before = out@;
                out.push((p, q));
                proof {
                    assert(seen_levels(out@) =~= seen_levels(before).push((p@, q@)));
                }
            }
        }
        i = i + 1;
    }
    proof {
        assert(items@.take(items@.len() as int) =~= items@);
        assert(seen_levels(out@).len() == out@.len());
    }
    if out.len() == 0 {
        None
    } else {
        Some(out)
    }
}

/// The place of the highest price; the last one where several are equal.
pub open spec fn best_bid_at(levels: Seq<(Num, Num)>) -> int
    decreases levels.len(),
{
    if levels.len() <= 1 {
        0
    } else {
        let before = best_bid_at(levels.drop_last());
        if less(levels.last().0, levels[before].0) {
            before
        } else {
            levels.len() - 1
        }
    }
}

/// The place of the lowest price; the first one where several are equal.
pub open spec fn best_ask_at(levels: Seq<(Num, Num)>) -> int
    decreases levels.len(),
{
    if levels.len() <= 1 {
        0
    } else {
        let before = best_ask_at(levels.drop_last());
        if less(levels.last().0, levels[before].0) {
            levels.len() - 1
        } else {
            before
        }
    }
}

/// Among finite prices the best bid is a highest one and the best ask a lowest one.
pub proof fn law_best_levels(levels: Seq<(Num, Num)>)
    requires
        levels.len() > 0,
        forall|i: int| 0 <= i < levels.len() ==> (#[trigger] levels[i]).0 is Fin,
    ensures
        0 <= best_bid_at(levels) < levels.len(),
        0 <= best_ask_at(levels) < levels.len(),
        forall|i: int|
            0 <= i < levels.len() ==> !less(
                levels[best_bid_at(levels)].0,
                (#[trigger] levels[i]).0,
            ),
        forall|i: int|
            0 <= i < levels.len() ==> !less(
                (#[trigger] levels[i]).0,
                levels[best_ask_at(levels)].0,
            ),
    decreases levels.len(),
{
    if levels.len() > 1 {
        let before = levels.drop_last();
        assert forall|i: int| 0 <= i < before.len() implies (#[trigger] before[i]).0 is Fin by {
            assert(before[i] == levels[i]);
        }
        law_best_levels(before);
        assert forall|i: int| 0 <= i < levels.len() implies !less(
            levels[best_bid_at(levels)].0,
            (#[trigger] levels[i]).0,
        ) by {
            if i < before.len() {
                assert(before[i] == levels[i]);
            }
        }
        assert forall|i: int| 0 <= i < levels.len() implies !less(
            (#[trigger] levels[i]).0,
            levels[best_ask_at(levels)].0,
        ) by {
            if i < before.len() {
                assert(before[i] == levels[i]);
            }
        }
    }
}

proof fn lemma_best_range(levels: Seq<(Num, Num)>)
    requires
        levels.len() > 0,
    ensures
        0 <= best_bid_at(levels) < levels.len(),
        0 <= best_ask_at(levels) < levels.len(),
    decreases levels.len(),
{
    if levels.len() > 1 {
        lemma_best_range(levels.drop_last());
    }
}

pub fn best_bid(levels: &Vec<(Double, Double)>) -> (r: Option<(Double, Double)>)
    ensures
        match r {
            Some(l) => levels@.len() > 0 && l == levels@[best_bid_at(seen_levels(levels@))],
            None => levels@.len() == 0,
        },
{
    if levels.len() == 0 {
        return None;
    }
    let ghost seen = seen_levels(levels@);
    let mut best: usize = 0;
    let mut i: usize = 1;
    while i < levels.len()
        invariant
            1 <= i <= levels@.len(),
            best < i,
            seen == seen_levels(levels@),
            best == best_bid_at(seen.take(i as int)),
        decreases levels@.len() - i,
    {
        proof {
            assert(seen.take(i + 1).drop_last() =~= seen.take(i as int));
        }
        if !levels[i].0.below(levels[best].0) {
            best = i;
        }
        i = i + 1;
    }
    proof {
        assert(seen.take(seen.len() as int) =~= seen);
    }
    Some(levels[best])
}

pub fn best_ask(levels: &Vec<(Double, Double)>) -> (r: Option<(Double, Double)>)
    ensures
        match r {
            Some(l) => levels@.len() > 0 && l == levels@[best_ask_at(seen_levels(levels@))],
            None => levels@.len() == 0,
        },
{
    if levels.len() == 0 {
        return None;
    }
    let ghost seen = seen_levels(levels@);
    let mut best: usize = 0;
    let mut i: usize = 1;
    while i < levels.len()
        invariant
            1 <= i <= levels@.len(),
            best < i,
            seen == seen_levels(levels@),
            best == best_ask_at(seen.take(i as int)),
        decreases levels@.len() - i,
    {
        proof {
            assert(seen.take(i + 1).drop_last() =~= seen.take(i as int));
        }
        if levels[i].0.below(levels[best].0) {
            best = i;
        }
        i = i + 1;
    }
    proof {
        assert(seen.take(seen.len() as int) =~= seen);
    }
    Some(levels[best])
}

/// The trade row of a message: it has a time, a trade identifier, and a finite price and
/// quantity.
pub open spec fn is_trade_row(e: MarketEvent, ts_ingest: i64, r: Option<TradeTickRow>) -> bool {
    let ts = event_time(e.data);
    let id = id_under(e.data, "t"@);
    let price = double_under_either(e.data, "p"@, "price"@);
    let qty = double_under_either(e.data, "q"@, "quantity"@);
    match r {
        Some(row) => {
            &&& ts == Some(row.ts_exchange)
            &&& row.ts_ingest == ts_ingest
            &&& id == Some(row.trade_id)
            &&& price == Some(row.price@)
            &&& row.price@ is Fin
            &&& qty == Some(row.quantity@)
            &&& row.quantity@ is Fin
            &&& row.symbol@ == event_symbol(e)
            &&& row.is_buyer_maker == match flag_under(e.data, "m"@) {
                Some(b) => b,
                None => false,
            }
        },
        None => {
            ||| ts is None
            ||| id is None
            ||| !(price matches Some(p) && p is Fin)
            ||| !(qty matches Some(q) && q is Fin)
        },
    }
}

/// The best levels of both sides of a message.
pub open spec fn best_levels(data: Json) -> Option<((Num, Num), (Num, Num))> {
    match (
        levels_under_either(data, "b"@, "bids"@),
        levels_under_either(data, "a"@, "asks"@),
    ) {
        (Some(b), Some(a)) => Some((b[best_bid_at(b)], a[best_ask_at(a)])),
        _ => None,
    }
}

/// The best-bid-and-offer row of a message: it has a time, an update identifier and levels on
/// both sides.
pub open spec fn is_bbo_row(e: MarketEvent, ts_ingest: i64, r: Option<BBOTickRow>) -> bool {
    let ts = event_time(e.data);
    let id = id_under(e.data, "u"@);
    let best = best_levels(e.data);
    match r {
        Some(row) => {
            &&& ts == Some(row.ts_exchange)
            &&& row.ts_ingest == ts_ingest
            &&& id == Some(row.update_id)
            &&& best == Some(
                ((row.bid_price@, row.bid_qty@), (row.ask_price@, row.ask_qty@)),
            )
            &&& row.symbol@ == event_symbol(e)
        },
        None => ts is None || id is None || best is None,
    }
}

proof fn lemma_levels_finite(items: Seq<Json>)
    ensures
        levels_of(items) matches Some(s) ==> forall|i: int|
            0 <= i < s.len() ==> (#[trigger] s[i]).0 is Fin && s[i].1 is Fin,
    decreases items.len(),
{
    if items.len() > 0 {
        lemma_levels_finite(items.drop_last());
    }
}

fn read_levels(data: &Json, key: &str, other: &str) -> (r: Option<Vec<(Double, Double)>>)
    ensures
        match r {
            Some(v) => levels_under_either(*data, key@, other@) == Some(seen_levels(v@))
                && v@.len() > 0 && forall|i: int|
                0 <= i < v@.len() ==> (#[trigger] v@[i]).0@ is Fin,
            None => levels_under_either(*data, key@, other@) is None,
        },
{
    let r = match parse_levels(data, key) {
        Some(v) => Some(v),
        None => parse_levels(data, other),
    };
    proof {
        if r is Some {
            let v = r->Some_0;
            let used = if levels_under(*data, key@) is Some {
                key@
            } else {
                other@
            };
            let items = data.field(used)->Some_0.list()->Some_0;
            lemma_levels_finite(items);
            let s = seen_levels(v@);
            assert(levels_of(items) == Some(s));
            assert forall|i: int| 0 <= i < v@.len() implies (#[trigger] v@[i]).0@ is Fin by {
                assert(s[i] == (v@[i].0@, v@[i].1@));
            }
        }
    }
    r
}

/// The message in a document, an object or a list: a body, and three texts that may be null, or
/// missing from an object.
pub open spec fn is_message(doc: Option<Json>, r: Option<MarketEvent>) -> bool {
    match (doc, r) {
        (Some(d), Some(e)) => {
            &&& d.optional_part("stream"@, 0, 4) == Some(text_of(e.stream))
            &&& d.optional_part("event_type"@, 1, 4) == Some(text_of(e.event_type))
            &&& d.optional_part("ts_ingest"@, 2, 4) == Some(text_of(e.ts_ingest))
            &&& d.part("data"@, 3, 4) == Some(e.data)
        },
        (Some(d), None) => {
            ||| d.optional_part("stream"@, 0, 4) is None
            ||| d.optional_part("event_type"@, 1, 4) is None
            ||| d.optional_part("ts_ingest"@, 2, 4) is None
            ||| d.part("data"@, 3, 4) is None
        },
        (None, Some(_)) => false,
        (None, None) => true,
    }
}

impl MarketEvent {
    /// The message in a document.
    pub fn from_document(doc: Option<Json>) -> (r: Option<Self>)
        ensures
            is_message(doc, r),
    {
        let d = doc?;
        let stream = d.get_optional_part("stream", 0, 4)?;
        let event_type = d.get_optional_part("event_type", 1, 4)?;
        let ts_ingest = d.get_optional_part("ts_ingest", 2, 4)?;
        let data = d.into_part("data", 3, 4)?;
        Some(MarketEvent { stream, event_type, ts_ingest, data })
    }

    /// Reads a message of the raw feed; `None` where the bytes are none.
    pub fn read(bytes: &[u8]) -> (r: Option<Self>)
        ensures
            is_message(json_document(bytes@), r),
    {
        Self::from_document(parse_json(bytes))
    }

    /// The symbol of the message.
    pub fn symbol(&self) -> (r: String)
        ensures
            r@ == event_symbol(*self),
    {
        match extract_symbol(&self.data) {
            Some(s) => s,
            None => {
                let from_stream = match &self.stream {
                    Some(s) => parse_symbol_from_stream(s.as_str()),
                    None => None,
                };
                match from_stream {
                    Some(s) => s,
                    None => "UNKNOWN".to_string(),
                }
            },
        }
    }

    /// The row of a trade message.
    pub fn to_trade_row(&self, ts_ingest_ms: i64) -> (r: Option<TradeTickRow>)
        ensures
            is_trade_row(*self, ts_ingest_ms, r),
    {
        let ts_exchange = extract_ts_ms(&self.data)?;
        let trade_id = extract_u64(&self.data, "t")?;
        let price = extract_f64(&self.data, "p", "price")?;
        let quantity = extract_f64(&self.data, "q", "quantity")?;
        if !price.is_finite() || !quantity.is_finite() {
            return None;
        }
        let is_buyer_maker = match extract_bool(&self.data, "m") {
            Some(b) => b,
            None => false,
        };
        Some(
            TradeTickRow {
                ts_exchange,
                ts_ingest: ts_ingest_ms,
                trade_id,
                symbol: self.symbol(),
                price,
                quantity,
                is_buyer_maker,
            },
        )
    }

    /// The row of a depth message.
    pub fn to_bbo_row(&self, ts_ingest_ms: i64) -> (r: Option<BBOTickRow>)
        ensures
            is_bbo_row(*self, ts_ingest_ms, r),
    {
        let ts_exchange = extract_ts_ms(&self.data)?;
        let update_id = extract_u64(&self.data, "u")?;
        let bids = read_levels(&self.data, "b", "bids")?;
        let asks = read_levels(&self.data, "a", "asks")?;
        let (bid_price, bid_qty) = best_bid(&bids)?;
        let (ask_price, ask_qty) = best_ask(&asks)?;
        proof {
            lemma_best_range(seen_levels(bids@));
            lemma_best_range(seen_levels(asks@));
        }
        if !bid_price.is_finite() || !ask_price.is_finite() {
            return None;
        }
        Some(
            BBOTickRow {
                ts_exchange,
                ts_ingest: ts_ingest_ms,
                update_id,
                symbol: self.symbol(),
                bid_price,
                bid_qty,
                ask_price,
                ask_qty,
            },
        )
    }
}

} // verus!
