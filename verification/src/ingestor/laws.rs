//! What the ingestor promises of streams, messages and the symbols that it follows.

use super::clock::{clock_offset, exchange_time, initial_retry};
use super::context::{interest_of, is_publication, FuturesEvent, Publication};
use super::loose::{bool_number_or_bool, BoolOrNum};
use super::model::{
    finite_levels, finite_number, is_liquidation, FuturesDepthEvent, FuturesForceOrderEvent,
    FuturesMarkPriceUpdate, LiquidationTick, Ticker24hr,
};
use super::stream::{
    event_type, frame_action, futures_address, is_begin, is_futures_route, is_spot_route,
    spot_address, stream_path, url_text, BeginAction, Frame, FrameAction, FuturesRoute, SpotRoute,
};
use super::universe::{
    candidates, chosen, comparable, holds_best, is_ranking, is_universe, UNIVERSE_SIZE,
};
use crate::json::Json;
use crate::num::decimal::parse_number;
use crate::num::double::seen_double;
use crate::num::model::{double_format, less, Num};
use crate::rank::{is_arrangement, lemma_arrangement_is_complete};
use crate::text::words::{lowercase, uppercase};
use vstd::prelude::*;

verus! {

/// The streams of a spot symbol: its trades, and its depth every tenth of a second.
pub open spec fn spot_pair(s: Seq<char>) -> Seq<char> {
    s + "@trade/"@ + s + "@depth@100ms"@
}

/// The streams of a futures symbol, in lower case: mark price, open interest, five levels of
/// depth, and liquidations.
pub open spec fn futures_four(symbol: Seq<char>) -> Seq<char> {
    let s = lowercase(symbol);
    s + "@markPrice@1s/"@ + s + "@openInterest@1s/"@ + s + "@depth5@100ms/"@ + s + "@forceOrder"@
}

/// The address of the spot streams names the streams of every symbol, in their order: a further
/// symbol adds its streams behind a slash.
pub proof fn law_spot_address_names_every_symbol(symbols: Seq<String>, s: String)
    ensures
        spot_address(seq![s]) == "wss://stream.binance.com:9443/stream?streams="@ + spot_pair(s@),
        symbols.len() > 0 ==> spot_address(symbols.push(s)) == spot_address(symbols) + "/"@
            + spot_pair(s@),
{
    let more = symbols.push(s);
    assert(more.drop_last() =~= symbols);
    assert(seq![s][0] == s);
    let streams = |x: Seq<char>| super::stream::spot_streams(x);
    if symbols.len() > 0 {
        assert(stream_path(more, streams) == stream_path(symbols, streams) + "/"@ + streams(s@));
        assert(spot_address(more) =~= spot_address(symbols) + "/"@ + spot_pair(s@));
    }
}

/// The address of the futures streams names the streams of every symbol, in their order.
pub proof fn law_futures_address_names_every_symbol(symbols: Seq<String>, s: String)
    ensures
        futures_address(seq![s]) == "wss://fstream.binance.com/stream?streams="@ + futures_four(
            s@,
        ),
        symbols.len() > 0 ==> futures_address(symbols.push(s)) == futures_address(symbols) + "/"@
            + futures_four(s@),
{
    let more = symbols.push(s);
    assert(more.drop_last() =~= symbols);
    assert(seq![s][0] == s);
    let streams = |x: Seq<char>| super::stream::futures_streams(x);
    if symbols.len() > 0 {
        assert(stream_path(more, streams) == stream_path(symbols, streams) + "/"@ + streams(s@));
        assert(futures_address(more) =~= futures_address(symbols) + "/"@ + futures_four(s@));
    }
}

/// Without symbols there is nothing to connect to; with symbols a connection goes to the address,
/// or fails where it is none.
pub proof fn law_connections_need_symbols(symbols: Seq<String>, text: Seq<char>, r: BeginAction)
    requires
        is_begin(symbols, text, r),
    ensures
        r is AwaitUniverse <==> symbols.len() == 0,
        r matches BeginAction::Connect(u) ==> url_text(text) == Some(u@),
        symbols.len() > 0 && url_text(text) is Some ==> r is Connect,
{
}

/// Text is handled, a ping answered, the end of a connection leads to a new one, and nothing else
/// does anything.
pub proof fn law_frames(f: Frame)
    ensures
        frame_action(f) == FrameAction::Handle <==> f == Frame::Text,
        frame_action(f) == FrameAction::SendPong <==> f == Frame::Ping,
        frame_action(f) == FrameAction::Reconnect <==> f == Frame::Ended,
{
}

/// A message is routed by the text under `e` of its body.
pub proof fn law_messages_are_routed_by_type(data: Json, kind: String, spot: SpotRoute)
    requires
        data.field("e"@) == Some(Json::Text(kind)),
        is_spot_route(data, spot),
    ensures
        spot is Trade <==> kind@ == "trade"@,
        spot is DepthUpdate <==> kind@ == "depthUpdate"@,
        spot matches SpotRoute::Other(s) ==> s@ == kind@,
        event_type(data) == kind@,
{
}

/// A futures message is routed by the text under `e` of its body.
pub proof fn law_futures_messages_are_routed_by_type(
    data: Json,
    kind: String,
    route: FuturesRoute,
)
    requires
        data.field("e"@) == Some(Json::Text(kind)),
        is_futures_route(data, route),
    ensures
        route is Depth <==> kind@ == "depthUpdate"@,
        route is ForceOrder <==> kind@ == "forceOrder"@,
        route is MarkPrice <==> kind@ == "markPriceUpdate"@,
        route is OpenInterest <==> kind@ == "openInterest"@,
        route matches FuturesRoute::Other(s) ==> s@ == kind@,
{
}

/// A number is taken exactly where its text denotes one and it is finite.
pub proof fn law_finite_numbers_are_taken(s: Seq<char>)
    ensures
        match parse_number(double_format(), s) {
            Some(x) => if x is Fin {
                finite_number(s) == Some(x)
            } else {
                finite_number(s) is None
            },
            None => finite_number(s) is None,
        },
{
}

/// A level is kept exactly where price and quantity are finite numbers; those kept stay in order.
pub proof fn law_levels_are_kept_in_order(levels: Seq<[String; 2]>, level: [String; 2])
    ensures
        finite_levels(Seq::empty()) == Seq::<(Num, Num)>::empty(),
        ({
            let price = parse_number(double_format(), level[0]@);
            let qty = parse_number(double_format(), level[1]@);
            let more = finite_levels(levels.push(level));
            if (price matches Some(p) && p is Fin) && (qty matches Some(q) && q is Fin) {
                more == finite_levels(levels).push((price->Some_0, qty->Some_0))
            } else {
                more == finite_levels(levels)
            }
        }),
{
    assert(levels.push(level).drop_last() =~= levels);
}

/// What a depth message publishes: under the subject of its symbol in upper case, the bids as bids
/// and the asks as asks.
pub proof fn law_depth_is_published_per_symbol(
    known: Map<Seq<char>, Num>,
    raw: FuturesDepthEvent,
    ts_ingest: i64,
    p: Publication,
)
    requires
        is_publication(known, FuturesEvent::Depth(raw), ts_ingest, p),
    ensures
        p matches Publication::Depth { subject, snapshot } && {
            &&& subject@ == "market.depth."@ + uppercase(raw.symbol@)
            &&& snapshot.symbol@ == uppercase(raw.symbol@)
            &&& snapshot.ts_exchange == raw.event_time
            &&& snapshot.ts_ingest == ts_ingest
            &&& snapshot.bids_price@.len() == finite_levels(raw.bids@).len()
            &&& snapshot.asks_price@.len() == finite_levels(raw.asks@).len()
            &&& forall|i: int|
                0 <= i < snapshot.bids_price@.len() ==> (#[trigger] snapshot.bids_price@[i])@
                    == finite_levels(raw.bids@)[i].0 && snapshot.bids_qty@[i]@ == finite_levels(
                    raw.bids@,
                )[i].1
            &&& forall|i: int|
                0 <= i < snapshot.asks_price@.len() ==> (#[trigger] snapshot.asks_price@[i])@
                    == finite_levels(raw.asks@)[i].0 && snapshot.asks_qty@[i]@ == finite_levels(
                    raw.asks@,
                )[i].1
        },
{
    if let Publication::Depth { subject, snapshot } = p {
        let b = finite_levels(raw.bids@);
        let a = finite_levels(raw.asks@);
        assert forall|i: int| 0 <= i < snapshot.bids_price@.len() implies (
        #[trigger] snapshot.bids_price@[i])@ == b[i].0 && snapshot.bids_qty@[i]@ == b[i].1 by {
            assert(b[i] == (snapshot.bids_price@[i]@, snapshot.bids_qty@[i]@));
        }
        assert forall|i: int| 0 <= i < snapshot.asks_price@.len() implies (
        #[trigger] snapshot.asks_price@[i])@ == a[i].0 && snapshot.asks_qty@[i]@ == a[i].1 by {
            assert(a[i] == (snapshot.asks_price@[i]@, snapshot.asks_qty@[i]@));
        }
    }
}

/// What a mark price publishes: its own numbers where they are finite, and the open interest known
/// of its symbol.
pub proof fn law_mark_prices_carry_the_open_interest(
    known: Map<Seq<char>, Num>,
    u: FuturesMarkPriceUpdate,
    ts_ingest: i64,
    p: Publication,
)
    requires
        is_publication(known, FuturesEvent::MarkPrice(u), ts_ingest, p),
    ensures
        p matches Publication::Context(e) && {
            &&& e.ts_exchange == u.event_time
            &&& e.ts_ingest == ts_ingest
            &&& e.symbol@ == u.symbol@
            &&& seen_double(e.mark_price) == finite_number(u.mark_price@)
            &&& u.funding_rate is None ==> e.funding_rate is None
            &&& u.funding_rate matches Some(s) ==> seen_double(e.funding_rate) == finite_number(s@)
            &&& e.next_funding_time == u.next_funding_time
            &&& known.contains_key(uppercase(u.symbol@)) ==> seen_double(e.open_interest) == Some(
                known[uppercase(u.symbol@)],
            )
            &&& !known.contains_key(uppercase(u.symbol@)) ==> e.open_interest is None
        },
{
}

/// A liquidation is told where price and quantities are finite numbers: at the average price where
/// there is one, else at the price of the order, and at the time of the trade where there is one,
/// else at that of the message.
pub proof fn law_liquidations_tell_price_and_time(
    raw: FuturesForceOrderEvent,
    ts_ingest: i64,
    r: Option<LiquidationTick>,
)
    requires
        is_liquidation(raw, ts_ingest, r),
    ensures
        ({
            let price = finite_number(
                match raw.order.avg_price {
                    Some(s) => s@,
                    None => raw.order.price@,
                },
            );
            let qty = finite_number(raw.order.orig_qty@);
            let filled = finite_number(
                match raw.order.last_filled_qty {
                    Some(s) => s@,
                    None => "0"@,
                },
            );
            &&& r is Some <==> price is Some && qty is Some && filled is Some
            &&& r matches Some(t) ==> {
                &&& t.symbol@ == uppercase(raw.order.symbol@)
                &&& t.side@ == raw.order.side@
                &&& t.price@ == price->Some_0
                &&& t.orig_qty@ == qty->Some_0
                &&& t.last_filled_qty@ == filled->Some_0
                &&& t.ts_ingest == ts_ingest
                &&& raw.order.trade_time matches Some(ts) ==> t.ts_exchange == ts
                &&& raw.order.trade_time is None ==> t.ts_exchange == raw.event_time
            }
        }),
{
}

/// A ticker is a candidate exactly where its symbol ends in `USDT`; candidates come in their
/// order, each with its quote volume.
pub proof fn law_candidates_are_quoted_in_usdt(
    tickers: Seq<Ticker24hr>,
    t: Ticker24hr,
    stem: Seq<char>,
)
    requires
        t.symbol@ == stem + "USDT"@,
    ensures
        candidates(tickers.push(t)) == match (
            candidates(tickers),
            parse_number(double_format(), t.quote_volume@),
        ) {
            (Some(v), Some(x)) => Some(v.push((x, t.symbol@))),
            _ => None,
        },
{
    assert(tickers.push(t).drop_last() =~= tickers);
    let s = t.symbol@;
    assert(s.skip(s.len() - "USDT"@.len()) =~= "USDT"@);
}

/// A ticker of another currency is no candidate.
pub proof fn law_other_currencies_are_no_candidates(tickers: Seq<Ticker24hr>, t: Ticker24hr)
    requires
        forall|stem: Seq<char>| t.symbol@ != #[trigger] (stem + "USDT"@),
    ensures
        candidates(tickers.push(t)) == candidates(tickers),
{
    assert(tickers.push(t).drop_last() =~= tickers);
    let s = t.symbol@;
    let n = s.len() - "USDT"@.len();
    if super::universe::is_candidate(t) {
        assert(s =~= s.take(n) + "USDT"@);
    }
}

/// Where a candidate is not followed, fifty others are, and none of them has a smaller volume.
pub proof fn law_the_largest_volumes_are_followed(
    v: Seq<(Num, Seq<char>)>,
    list: Seq<Seq<char>>,
    i: int,
) -> (order: Seq<int>)
    requires
        is_universe(v, list),
        comparable(v),
        0 <= i < v.len(),
        !list.contains(lowercase(v[i].1)),
    ensures
        is_arrangement(v.len(), order),
        v.len() > 50,
        forall|a: int|
            0 <= a < 50 ==> list.contains(lowercase(v[#[trigger] order[a]].1)) && !less(
                v[order[a]].0,
                v[i].0,
            ) && order[a] != i,
{
    let order = choose|order: Seq<int>|
        {
            &&& is_arrangement(v.len(), order)
            &&& comparable(v) ==> is_ranking(v, order)
            &&& #[trigger] holds_best(v, order, UNIVERSE_SIZE as int, list)
        };
    lemma_arrangement_is_complete(v.len(), order, i);
    let b = choose|b: int| 0 <= b < order.len() && #[trigger] order[b] == i;
    if b < UNIVERSE_SIZE {
        assert(chosen(order, UNIVERSE_SIZE as int, i));
        assert(list.contains(lowercase(v[i].1)));
    }
    assert forall|a: int| 0 <= a < 50 implies list.contains(lowercase(v[#[trigger] order[a]].1))
        && !less(v[order[a]].0, v[i].0) && order[a] != i by {
        let k = order[a];
        assert(chosen(order, UNIVERSE_SIZE as int, k));
        assert(list.contains(lowercase(v[k].1)));
        assert(super::universe::precedes(v, order[a], order[b]));
        assert(!(v[k].0 is Nan) && !(v[i].0 is Nan));
    }
    order
}

/// The offset of the clock is how far the middle of the request, rounded toward its start, is
/// ahead of the server; the exchange's time is the local time less the offset. The first
/// synchronisation is tried five times with two seconds in between.
pub proof fn law_clock(
    before: i64,
    after: i64,
    server: i64,
    offset: Option<i64>,
    now: i64,
    offset_ms: i64,
    time: Option<i64>,
    attempt: u32,
    pause: Option<u64>,
)
    requires
        call_ensures(clock_offset, (before, after, server), offset),
        call_ensures(exchange_time, (now, offset_ms), time),
        call_ensures(initial_retry, (attempt,), pause),
    ensures
        before <= after ==> (offset matches Some(o) ==> 2 * (o + server - before) <= after - before
            <= 2 * (o + server - before) + 1),
        before <= after && i64::MIN <= before - server && after - server <= i64::MAX
            ==> offset is Some,
        time matches Some(t) ==> t + offset_ms == now,
        i64::MIN <= now - offset_ms <= i64::MAX ==> time is Some,
        attempt < 5 ==> pause == Some(2000u64),
        attempt >= 5 ==> pause is None,
{
}

/// A flag is a truth value, or a zero or one.
pub proof fn law_flags(v: BoolOrNum, r: Result<bool, u8>)
    requires
        call_ensures(bool_number_or_bool, (v,), r),
    ensures
        v matches BoolOrNum::Bool(b) ==> r == Ok::<bool, u8>(b),
        v matches BoolOrNum::Num(n) ==> (r is Ok <==> n <= 1) && (n == 0 ==> r == Ok::<bool, u8>(
            false,
        )) && (n == 1 ==> r == Ok::<bool, u8>(true)) && (n > 1 ==> r == Err::<bool, u8>(n)),
{
}

/// What is known of a symbol's open interest is found whatever the case of its letters.
pub proof fn law_interest_is_found(known: Map<Seq<char>, Num>, symbol: Seq<char>)
    ensures
        known.contains_key(uppercase(symbol)) ==> interest_of(known, symbol) == Some(
            known[uppercase(symbol)],
        ),
        !known.contains_key(uppercase(symbol)) ==> interest_of(known, symbol) is None,
{
}

/// Pauses between connections: half a second at first and half a minute at most for the streams,
/// a quarter of a second at first and ten seconds at most for the publisher, and a fifth of a
/// second before a stream is connected anew. Fifty symbols are followed.
pub proof fn law_pauses()
    ensures
        super::stream::FIRST_PAUSE_MS == 500,
        super::stream::LONGEST_PAUSE_MS == 30_000,
        super::stream::RECONNECT_PAUSE_MS == 200,
        super::publisher::FIRST_PAUSE_MS == 250,
        super::publisher::LONGEST_PAUSE_MS == 10_000,
        UNIVERSE_SIZE == 50,
{
}

} // verus!
