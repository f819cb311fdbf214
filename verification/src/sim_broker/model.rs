//! Messages that the simulation listens to.

use crate::json::{json_document, parse_json, Json};
use crate::num::decimal::parse_number;
use crate::num::model::{double_format, Num};
use crate::num::Double;
use crate::text::words::{to_upper, uppercase};
use vstd::prelude::*;

verus! {

/// The form of a symbol under which it is looked up.
pub fn norm_symbol(sym: &str) -> (r: String)
    ensures
        r@ == uppercase(sym@),
{
    to_upper(sym)
}

/// Message of the raw market feed.
#[derive(Debug)]
pub struct MarketEvent {
    pub stream: String,
    pub event_type: String,
    pub ts_ingest: String,
    pub data: Json,
}

/// The text under the first of two keys that holds one.
pub open spec fn text_under_either(data: Json, key: Seq<char>, other: Seq<char>) -> Option<
    Seq<char>,
> {
    match data.text_at(key) {
        Some(s) => Some(s),
        None => data.text_at(other),
    }
}

fn read_text<'a>(data: &'a Json, key: &str, other: &str) -> (r: Option<&'a str>)
    ensures
        match r {
            Some(s) => text_under_either(*data, key@, other@) == Some(s@),
            None => text_under_either(*data, key@, other@) is None,
        },
{
    let first = match data.get(key) {
        Some(v) => v.as_str(),
        None => None,
    };
    match first {
        Some(s) => Some(s),
        None => match data.get(other) {
            Some(v) => v.as_str(),
            None => None,
        },
    }
}

/// The symbol of a message, upper case.
pub open spec fn event_symbol(e: MarketEvent) -> Option<Seq<char>> {
    match text_under_either(e.data, "symbol"@, "s"@) {
        Some(s) => Some(uppercase(s)),
        None => None,
    }
}

/// The price of a message.
pub open spec fn event_price(e: MarketEvent) -> Option<Num> {
    match text_under_either(e.data, "price"@, "p"@) {
        Some(s) => parse_number(double_format(), s),
        None => None,
    }
}

/// The message in a document: three texts and a body, as an object or as a list.
pub open spec fn is_message(doc: Option<Json>, r: Option<MarketEvent>) -> bool {
    match (doc, r) {
        (Some(d), Some(e)) => {
            &&& d.text_part("stream"@, 0, 4) == Some(e.stream@)
            &&& d.text_part("event_type"@, 1, 4) == Some(e.event_type@)
            &&& d.text_part("ts_ingest"@, 2, 4) == Some(e.ts_ingest@)
            &&& d.part("data"@, 3, 4) == Some(e.data)
        },
        (Some(d), None) => {
            ||| d.text_part("stream"@, 0, 4) is None
            ||| d.text_part("event_type"@, 1, 4) is None
            ||| d.text_part("ts_ingest"@, 2, 4) is None
            ||| d.part("data"@, 3, 4) is None
        },
        (None, Some(_)) => false,
        (None, None) => true,
    }
}

impl MarketEvent {
    /// The message in a document.
    pub fn from_document(doc: Option<Json>) -> (r: Option<Self>)
        ensures
            is_message(doc, r),
    {
        let d = doc?;
        let stream = d.get_text_part("stream", 0, 4)?;
        let event_type = d.get_text_part("event_type", 1, 4)?;
        let ts_ingest = d.get_text_part("ts_ingest", 2, 4)?;
        let data = d.into_part("data", 3, 4)?;
        Some(MarketEvent { stream, event_type, ts_ingest, data })
    }

    /// Reads a message of the raw feed; `None` where the bytes are none.
    pub fn read(bytes: &[u8]) -> (r: Option<Self>)
        ensures
            is_message(json_document(bytes@), r),
    {
        Self::from_document(parse_json(bytes))
    }

    /// The symbol of the message, upper case.
    pub fn symbol(&self) -> (r: Option<String>)
        ensures
            match r {
                Some(s) => event_symbol(*self) == Some(s@),
                None => event_symbol(*self) is None,
            },
    {
        match read_text(&self.data, "symbol", "s") {
            Some(s) => Some(norm_symbol(s)),
            None => None,
        }
    }

    /// The price of the message.
    pub fn price_f64(&self) -> (r: Option<Double>)
        ensures
            match r {
                Some(x) => event_price(*self) == Some(x@),
                None => event_price(*self) is None,
            },
    {
        match read_text(&self.data, "price", "p") {
            Some(s) => Double::parse(s),
            None => None,
        }
    }
}

/// Futures context message.
#[derive(Debug)]
pub struct MarketContextEvent {
    pub ts_exchange: i64,
    pub ts_ingest: i64,
    pub symbol: String,
    pub mark_price: Option<Double>,
    pub funding_rate: Option<Double>,
    pub open_interest: Option<Double>,
    pub next_funding_time: Option<i64>,
    pub source: Option<String>,
}

/// The symbol of a message is the text under `symbol`, else under `s`, in upper case; its price is
/// the number in the text under `price`, else under `p`.
pub proof fn law_messages_tell_symbol_and_price(e: MarketEvent)
    ensures
        e.data.text_at("symbol"@) matches Some(s) ==> event_symbol(e) == Some(uppercase(s)),
        e.data.text_at("symbol"@) is None ==> match e.data.text_at("s"@) {
            Some(s) => event_symbol(e) == Some(uppercase(s)),
            None => event_symbol(e) is None,
        },
        e.data.text_at("price"@) matches Some(s) ==> event_price(e) == parse_number(
            double_format(),
            s,
        ),
        e.data.text_at("price"@) is None ==> match e.data.text_at("p"@) {
            Some(s) => event_price(e) == parse_number(double_format(), s),
            None => event_price(e) is None,
        },
{
}

} // verus!
