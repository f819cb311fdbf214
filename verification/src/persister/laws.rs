//! What the persister promises of the rows that it makes of messages.

use super::model::{
    best_ask_at, best_bid_at, event_symbol, flag_under, is_bbo_row, is_trade_row,
    law_best_levels, levels_of, levels_under, levels_under_either, loose_bool, stream_symbol,
    BBOTickRow, DepthSnapshot, DepthSnapshotRow, LiquidationTick, LiquidationTickRow,
    MarketContextEvent, MarketContextRow, MarketEvent, TradeTickRow,
};
use super::settings::{WriterSettings, WriterVars};
use crate::json::Json;
use crate::num::model::{less, Num};
use crate::text::words::before_char;
use vstd::prelude::*;

verus! {

/// The number under the first key where there is one, else under the second.
pub open spec fn number_under(data: Json, key: Seq<char>, other: Seq<char>) -> Option<Num> {
    match data.field(key) {
        Some(v) => match v.loose_double() {
            Some(x) => Some(x),
            None => match data.field(other) {
                Some(w) => w.loose_double(),
                None => None,
            },
        },
        None => match data.field(other) {
            Some(w) => w.loose_double(),
            None => None,
        },
    }
}

/// The time under `T` where there is one, else under `E`.
pub open spec fn time_under(data: Json) -> Option<i64> {
    match data.field("T"@) {
        Some(v) => match v.loose_i64() {
            Some(t) => Some(t),
            None => match data.field("E"@) {
                Some(w) => w.loose_i64(),
                None => None,
            },
        },
        None => match data.field("E"@) {
            Some(w) => w.loose_i64(),
            None => None,
        },
    }
}

/// The number of a message under a key.
pub open spec fn number_id(data: Json, key: Seq<char>) -> Option<u64> {
    match data.field(key) {
        Some(v) => v.loose_u64(),
        None => None,
    }
}

/// A trade row is made exactly where the message has a time, a trade number under `t`, and finite
/// numbers for price and quantity; it tells those, the symbol, and the maker flag under `m`, which
/// is false where there is none.
pub proof fn law_trade_rows_tell_the_trade(e: MarketEvent, ts_ingest: i64, r: Option<TradeTickRow>)
    requires
        is_trade_row(e, ts_ingest, r),
    ensures
        ({
            let price = number_under(e.data, "p"@, "price"@);
            let qty = number_under(e.data, "q"@, "quantity"@);
            &&& r is Some <==> time_under(e.data) is Some && number_id(e.data, "t"@) is Some && (
            price matches Some(p) && p is Fin) && (qty matches Some(q) && q is Fin)
            &&& r matches Some(row) ==> {
                &&& time_under(e.data) == Some(row.ts_exchange)
                &&& row.ts_ingest == ts_ingest
                &&& number_id(e.data, "t"@) == Some(row.trade_id)
                &&& price == Some(row.price@)
                &&& qty == Some(row.quantity@)
                &&& row.symbol@ == event_symbol(e)
                &&& flag_under(e.data, "m"@) matches Some(b) ==> row.is_buyer_maker == b
                &&& flag_under(e.data, "m"@) is None ==> !row.is_buyer_maker
            }
        }),
{
}

proof fn lemma_levels_are_finite(items: Seq<Json>)
    requires
        levels_of(items) is Some,
    ensures
        forall|i: int|
            0 <= i < levels_of(items)->Some_0.len() ==> (#[trigger] levels_of(
                items,
            )->Some_0[i]).0 is Fin,
    decreases items.len(),
{
    if items.len() > 0 {
        lemma_levels_are_finite(items.drop_last());
    }
}

proof fn lemma_either_is_finite(data: Json, key: Seq<char>, other: Seq<char>)
    ensures
        levels_under_either(data, key, other) matches Some(s) ==> s.len() > 0 && forall|i: int|
            0 <= i < s.len() ==> (#[trigger] s[i]).0 is Fin,
{
    if let Some(v) = data.field(key) {
        if let Some(items) = v.list() {
            if levels_of(items) is Some {
                lemma_levels_are_finite(items);
            }
        }
    }
    if let Some(v) = data.field(other) {
        if let Some(items) = v.list() {
            if levels_of(items) is Some {
                lemma_levels_are_finite(items);
            }
        }
    }
}

/// A row of a best bid and offer is made exactly where the message has a time, an update number
/// under `u`, and levels on both sides. Its bid is one of the bids, and none is higher; its ask is
/// one of the asks, and none is lower; each comes with its own quantity.
pub proof fn law_quote_rows_tell_the_best_levels(
    e: MarketEvent,
    ts_ingest: i64,
    r: Option<BBOTickRow>,
)
    requires
        is_bbo_row(e, ts_ingest, r),
    ensures
        ({
            let bids = levels_under_either(e.data, "b"@, "bids"@);
            let asks = levels_under_either(e.data, "a"@, "asks"@);
            &&& r is Some <==> time_under(e.data) is Some && number_id(e.data, "u"@) is Some
                && bids is Some && asks is Some
            &&& r matches Some(row) ==> {
                &&& time_under(e.data) == Some(row.ts_exchange)
                &&& row.ts_ingest == ts_ingest
                &&& number_id(e.data, "u"@) == Some(row.update_id)
                &&& row.symbol@ == event_symbol(e)
                &&& bids->Some_0.contains((row.bid_price@, row.bid_qty@))
                &&& asks->Some_0.contains((row.ask_price@, row.ask_qty@))
                &&& forall|i: int|
                    0 <= i < bids->Some_0.len() ==> !less(
                        row.bid_price@,
                        (#[trigger] bids->Some_0[i]).0,
                    )
                &&& forall|i: int|
                    0 <= i < asks->Some_0.len() ==> !less(
                        (#[trigger] asks->Some_0[i]).0,
                        row.ask_price@,
                    )
            }
        }),
{
    lemma_either_is_finite(e.data, "b"@, "bids"@);
    lemma_either_is_finite(e.data, "a"@, "asks"@);
    if let Some(row) = r {
        let bids = levels_under_either(e.data, "b"@, "bids"@)->Some_0;
        let asks = levels_under_either(e.data, "a"@, "asks"@)->Some_0;
        law_best_levels(bids);
        law_best_levels(asks);
        assert(bids[best_bid_at(bids)] == (row.bid_price@, row.bid_qty@));
        assert(asks[best_ask_at(asks)] == (row.ask_price@, row.ask_qty@));
    }
}

/// Levels stand under the first key where it holds any, else under the second. Each is a list of a
/// price and a quantity; one with less, or with a number that is not finite, is left out, and one
/// that is no list or no numbers spoils them all.
pub proof fn law_levels_are_read_in_order(items: Seq<Json>, item: Json)
    ensures
        levels_of(Seq::empty()) == Some(Seq::<(Num, Num)>::empty()),
        item.list() is None ==> levels_of(items.push(item)) is None,
        item.list() matches Some(l) ==> {
            &&& l.len() < 2 ==> levels_of(items.push(item)) == levels_of(items)
            &&& l.len() >= 2 ==> match (l[0].loose_double(), l[1].loose_double()) {
                (Some(p), Some(q)) => if p is Fin && q is Fin {
                    levels_of(items.push(item)) == match levels_of(items) {
                        Some(s) => Some(s.push((p, q))),
                        None => None,
                    }
                } else {
                    levels_of(items.push(item)) == levels_of(items)
                },
                _ => levels_of(items.push(item)) is None,
            }
        },
{
    assert(items.push(item).drop_last() =~= items);
}

/// The levels under a key are those of its list, unless there are none.
pub proof fn law_levels_stand_under_their_key(data: Json, key: Seq<char>, other: Seq<char>)
    ensures
        levels_under(data, key) is Some ==> levels_under_either(data, key, other) == levels_under(
            data,
            key,
        ),
        levels_under(data, key) is None ==> levels_under_either(data, key, other) == levels_under(
            data,
            other,
        ),
        match data.field(key) {
            Some(v) => match v.list() {
                Some(items) => match levels_of(items) {
                    Some(s) => s.len() > 0 ==> levels_under(data, key) == Some(s),
                    None => levels_under(data, key) is None,
                },
                None => levels_under(data, key) is None,
            },
            None => levels_under(data, key) is None,
        },
{
}

/// The symbol of a message is the text under `s`, else under `symbol`, else what its stream is
/// called up to the `@`, else unknown.
pub proof fn law_symbols_come_from_data_or_stream(e: MarketEvent)
    ensures
        ({
            let s = e.data.text_at("s"@);
            let t = e.data.text_at("symbol"@);
            &&& s is Some ==> Some(event_symbol(e)) == s
            &&& s is None && t is Some ==> Some(event_symbol(e)) == t
            &&& s is None && t is None ==> match e.stream {
                Some(stream) => if before_char(stream@, '@').len() > 0 {
                    event_symbol(e) == before_char(stream@, '@')
                } else {
                    event_symbol(e) == "UNKNOWN"@
                },
                None => event_symbol(e) == "UNKNOWN"@,
            }
        }),
{
}

/// A stream named after a symbol tells that symbol.
pub proof fn law_streams_are_named_after_their_symbol(symbol: Seq<char>, rest: Seq<char>)
    requires
        symbol.len() > 0,
        forall|i: int| 0 <= i < symbol.len() ==> #[trigger] symbol[i] != '@',
    ensures
        stream_symbol(symbol + seq!['@'] + rest) == Some(symbol),
{
    lemma_before(symbol, rest);
}

proof fn lemma_before(symbol: Seq<char>, rest: Seq<char>)
    requires
        forall|i: int| 0 <= i < symbol.len() ==> #[trigger] symbol[i] != '@',
    ensures
        before_char(symbol + seq!['@'] + rest, '@') == symbol,
    decreases symbol.len(),
{
    let s = symbol + seq!['@'] + rest;
    if symbol.len() > 0 {
        let tail = symbol.drop_first();
        assert(s[0] == symbol[0]);
        assert(s.drop_first() =~= tail + seq!['@'] + rest);
        assert forall|i: int| 0 <= i < tail.len() implies #[trigger] tail[i] != '@' by {
            assert(tail[i] == symbol[i + 1]);
        }
        lemma_before(tail, rest);
        assert(seq![symbol[0]] + tail =~= symbol);
    } else {
        assert(s[0] == '@');
        assert(symbol =~= Seq::<char>::empty());
    }
}

/// A truth value is itself, a number is true unless it is zero, and a text is true where it is `1`
/// or spells `true`.
pub proof fn law_flags_are_read_loosely(v: Json)
    ensures
        v matches Json::Bool(b) ==> loose_bool(v) == Some(b),
        v matches Json::Number(n) ==> (n.unsigned matches Some(u) ==> loose_bool(v) == Some(
            u != 0,
        )),
        v matches Json::Text(s) ==> (s@ == "1"@ ==> loose_bool(v) == Some(true)),
        v is Null || v is List || v is Object ==> loose_bool(v) is None,
{
}

/// Rows tell what their messages say.
pub proof fn law_rows_tell_their_messages(
    c: MarketContextEvent,
    row: MarketContextRow,
    d: DepthSnapshot,
    depth: DepthSnapshotRow,
    l: LiquidationTick,
    liq: LiquidationTickRow,
)
    requires
        call_ensures(MarketContextEvent::to_row, (&c,), row),
        call_ensures(DepthSnapshot::to_row, (&d,), depth),
        call_ensures(LiquidationTick::to_row, (&l,), liq),
    ensures
        row.ts == c.ts_exchange && row.ts_ingest == c.ts_ingest && row.symbol@ == c.symbol@,
        row.mark_price == c.mark_price && row.funding_rate == c.funding_rate,
        row.open_interest == c.open_interest && row.next_funding_time == c.next_funding_time,
        depth.symbol@ == d.symbol@ && depth.ts_exchange == d.ts_exchange && depth.ts_ingest
            == d.ts_ingest,
        depth.bids_price@ == d.bids_price@ && depth.bids_qty@ == d.bids_qty@,
        depth.asks_price@ == d.asks_price@ && depth.asks_qty@ == d.asks_qty@,
        liq.symbol@ == l.symbol@ && liq.side@ == l.side@ && liq.price == l.price,
        liq.orig_qty == l.orig_qty && liq.last_filled_qty == l.last_filled_qty,
        liq.ts_exchange == l.ts_exchange && liq.ts_ingest == l.ts_ingest,
{
}

/// Without variables the database is the local one of the project; an older variable for its name
/// counts where the newer one is not set.
pub proof fn law_database_settings(vars: WriterVars, s: WriterSettings)
    requires
        call_ensures(WriterSettings::from_vars, (&vars,), s),
    ensures
        vars.url is None ==> s.url@ == "http://127.0.0.1:8123"@,
        vars.url matches Some(t) ==> s.url@ == t@,
        vars.db matches Some(t) ==> s.database@ == t@,
        vars.db is None ==> (vars.database matches Some(t) ==> s.database@ == t@),
        vars.db is None && vars.database is None ==> s.database@ == "quantum"@,
        vars.user is None ==> s.user@ == "qs_user"@,
        vars.user matches Some(t) ==> s.user@ == t@,
        vars.password matches Some(t) ==> s.password@ == t@,
{
}

} // verus!
