use quantum_sentry::backoff::Backoff;
use quantum_sentry::ingestor::clock::{
    clock_offset, exchange_time, initial_retry, now_ms, timestamp_of,
};
use quantum_sentry::ingestor::context::open_interest_address;
use quantum_sentry::ingestor::loose::{
    bool_number_or_bool, i64_loose, option_i64_loose, option_u64_number_or_string,
    u64_number_or_string, BoolOrNum, NumOrStr, SignedOrStr,
};
use quantum_sentry::ingestor::model::parse_f64;
use quantum_sentry::ingestor::stream::{
    event_type_of, on_frame, read_futures, read_spot, BeginAction, Frame, FrameAction,
    FuturesRoute, SpotRoute, UrlError,
};
use quantum_sentry::ingestor::universe::top_coins;
use quantum_sentry::ingestor::{
    DepthSnapshot, ForceOrderBody, FuturesContext, FuturesContextStreamManager,
    FuturesDepthEvent, FuturesEvent, FuturesForceOrderEvent, FuturesMarkPriceUpdate,
    FuturesOpenInterestUpdate, LiquidationTick, MarketContextEvent, NatsPublisher, Publication,
    StreamManager, Ticker24hr,
};
use quantum_sentry::json::{Json, JsonNumber};
use quantum_sentry::num::Double;

fn wide(x: Double) -> f64 {
    f64::from_bits(x.to_bits())
}

fn text(s: &str) -> String {
    s.to_string()
}

fn ticker(symbol: &str, quote_volume: &str) -> Ticker24hr {
    Ticker24hr {
        symbol: text(symbol),
        price_change: None,
        price_change_percent: None,
        weighted_avg_price: None,
        prev_close_price: None,
        last_price: None,
        last_qty: None,
        bid_price: None,
        bid_qty: None,
        ask_price: None,
        ask_qty: None,
        open_price: None,
        high_price: None,
        low_price: None,
        volume: text("0"),
        quote_volume: text(quote_volume),
        open_time: 0,
        close_time: 0,
        first_id: None,
        last_id: None,
        count: None,
    }
}

fn mark(symbol: &str) -> FuturesMarkPriceUpdate {
    FuturesMarkPriceUpdate {
        event_type: text("markPriceUpdate"),
        event_time: 11,
        symbol: text(symbol),
        mark_price: text("100.5"),
        funding_rate: Some(text("0.0001")),
        next_funding_time: Some(99),
    }
}

fn force_order(avg_price: Option<&str>, filled: Option<&str>) -> FuturesForceOrderEvent {
    FuturesForceOrderEvent {
        event_type: text("forceOrder"),
        event_time: 5,
        order: ForceOrderBody {
            symbol: text("btcusdt"),
            side: text("SELL"),
            orig_qty: text("0.5"),
            price: text("101"),
            avg_price: avg_price.map(text),
            last_filled_qty: filled.map(text),
            trade_time: Some(6),
        },
    }
}

#[test]
fn build_url_contains_streams() {
    let symbols = vec!["btcusdt".to_string(), "ethusdt".to_string()];
    let url = StreamManager::build_url(&symbols).expect("url should build in test");
    let s = url.as_str();
    assert!(s.contains("btcusdt@trade"));
    assert!(s.contains("btcusdt@depth@100ms"));
    assert!(s.contains("ethusdt@trade"));
    assert!(s.contains("ethusdt@depth@100ms"));
}

#[test]
fn usdt_filtering_and_sorting_is_reasonable() {
    let ranked = vec![
        ticker("BTCUSDT", "10.0"),
        ticker("ETHUSDT", "5.0"),
        ticker("FOOUSD", "999.0"),
        ticker("BNBUSDT", "7.0"),
    ];
    let symbols = top_coins(&ranked).unwrap();
    assert_eq!(symbols, vec!["bnbusdt", "btcusdt", "ethusdt"]);
}

#[test]
fn the_universe_is_the_fifty_largest_in_alphabetical_order() {
    let mut tickers = Vec::new();
    for i in 0..60 {
        tickers.push(ticker(&format!("C{:02}USDT", i), &format!("{}", i)));
    }
    let symbols = top_coins(&tickers).unwrap();
    assert_eq!(symbols.len(), 50);
    assert_eq!(symbols[0], "c10usdt");
    assert_eq!(symbols[49], "c59usdt");
    tickers.reverse();
    assert_eq!(top_coins(&tickers).unwrap(), symbols);
}

#[test]
fn a_volume_that_is_no_number_is_an_error() {
    let e = top_coins(&[ticker("AUSDT", "1"), ticker("BUSDT", "one")]).unwrap_err();
    assert_eq!(e.symbol, "BUSDT");
    assert_eq!(e.quote_volume, "one");
    assert!(top_coins(&[ticker("BUSD", "one")]).unwrap().is_empty());
}

#[test]
fn addresses_are_urls() {
    let one = vec![text("btcusdt")];
    assert_eq!(
        StreamManager::build_url(&one).unwrap(),
        "wss://stream.binance.com:9443/stream?streams=btcusdt@trade/btcusdt@depth@100ms"
    );
    let upper = vec![text("BTCUSDT")];
    assert_eq!(
        FuturesContextStreamManager::build_ws_url(&upper).unwrap(),
        "wss://fstream.binance.com/stream?streams=btcusdt@markPrice@1s/btcusdt@openInterest@1s/btcusdt@depth5@100ms/btcusdt@forceOrder"
    );
    assert!(matches!(StreamManager::build_url(&[]), Err(UrlError::Empty)));
    assert!(matches!(FuturesContextStreamManager::build_ws_url(&[]), Err(UrlError::Empty)));
    let spaced = vec![text("a b")];
    assert!(StreamManager::build_url(&spaced).unwrap().contains("a%20b@trade"));
}

#[test]
fn a_manager_waits_connects_and_reconnects() {
    let mut m = StreamManager::new();
    assert!(matches!(m.begin(vec![]), BeginAction::AwaitUniverse));
    let symbols = vec![text("btcusdt")];
    assert!(matches!(m.begin(symbols.clone()), BeginAction::Connect(_)));
    assert!(!m.must_reconnect(&symbols));
    assert!(m.must_reconnect(&vec![text("ethusdt")]));
    assert_eq!(m.connect_done(false), Some(500));
    assert_eq!(m.connect_done(false), Some(1000));
    assert_eq!(m.connect_done(true), None);
    assert_eq!(m.connect_done(false), Some(500));
    let mut f = FuturesContextStreamManager::new();
    assert!(matches!(f.begin(symbols.clone()), BeginAction::Connect(_)));
    assert!(!f.must_reconnect(&symbols));
    for _ in 0..10 {
        f.connect_done(false);
    }
    assert_eq!(f.connect_done(false), Some(30_000));
}

#[test]
fn frames_have_their_actions() {
    assert_eq!(on_frame(Frame::Text), FrameAction::Handle);
    assert_eq!(on_frame(Frame::Ping), FrameAction::SendPong);
    assert_eq!(on_frame(Frame::Binary), FrameAction::Ignore);
    assert_eq!(on_frame(Frame::Pong), FrameAction::Ignore);
    assert_eq!(on_frame(Frame::Ended), FrameAction::Reconnect);
}

#[test]
fn spot_messages_are_routed_by_type() {
    let (stream, route) =
        read_spot(br#"{"stream":"btcusdt@trade","data":{"e":"trade","p":"1"}}"#).unwrap();
    assert_eq!(stream, "btcusdt@trade");
    assert!(matches!(route, SpotRoute::Trade));
    let (_, depth) = read_spot(br#"{"stream":"x","data":{"e":"depthUpdate"}}"#).unwrap();
    assert_eq!(depth.label(), "depthUpdate");
    let (_, other) = read_spot(br#"{"stream":"x","data":{"e":"kline"}}"#).unwrap();
    assert_eq!(other.label(), "kline");
    let (_, unknown) = read_spot(br#"{"stream":"x","data":{}}"#).unwrap();
    assert_eq!(unknown.label(), "unknown");
    assert!(read_spot(br#"{"data":{"e":"trade"}}"#).is_none());
    assert!(read_spot(br#"{"stream":1,"data":{"e":"trade"}}"#).is_none());
    assert!(read_spot(b"{").is_none());
}

#[test]
fn futures_messages_are_routed_by_type() {
    let kinds = [
        ("depthUpdate", "Depth"),
        ("forceOrder", "ForceOrder"),
        ("markPriceUpdate", "MarkPrice"),
        ("openInterest", "OpenInterest"),
    ];
    for (kind, name) in kinds {
        let bytes = format!("{{\"stream\":\"s\",\"data\":{{\"e\":\"{}\"}}}}", kind);
        let route = read_futures(bytes.as_bytes()).unwrap();
        assert_eq!(format!("{:?}", route), name);
    }
    assert!(matches!(
        read_futures(br#"{"stream":"s","data":{"e":"x"}}"#),
        Some(FuturesRoute::Other(s)) if s == "x"
    ));
    assert!(read_futures(b"[]").is_none());
    assert_eq!(event_type_of(&Json::Null), "unknown");
}

#[test]
fn numbers_in_messages_are_finite() {
    assert_eq!(parse_f64("1.5").map(wide), Some(1.5));
    assert_eq!(parse_f64("inf"), None);
    assert_eq!(parse_f64("NaN"), None);
    assert_eq!(parse_f64("1e400"), None);
    assert_eq!(parse_f64(""), None);
}

#[test]
fn depth_keeps_only_finite_levels() {
    let raw = FuturesDepthEvent {
        event_type: text("depthUpdate"),
        event_time: 3,
        symbol: text("btcusdt"),
        bids: vec![[text("1"), text("2")], [text("x"), text("2")], [text("3"), text("4")]],
        asks: vec![[text("5"), text("inf")]],
        update_id: None,
    };
    let s = DepthSnapshot::from_depth5(raw, 9);
    assert_eq!(s.symbol, "BTCUSDT");
    assert_eq!((s.ts_exchange, s.ts_ingest), (3, 9));
    assert_eq!(s.bids_price.iter().map(|x| wide(*x)).collect::<Vec<f64>>(), vec![1.0, 3.0]);
    assert_eq!(s.bids_qty.iter().map(|x| wide(*x)).collect::<Vec<f64>>(), vec![2.0, 4.0]);
    assert!(s.asks_price.is_empty() && s.asks_qty.is_empty());
}

#[test]
fn liquidations_prefer_the_average_price() {
    let t = LiquidationTick::from_force_order(force_order(Some("102.5"), None), 8).unwrap();
    assert_eq!(wide(t.price), 102.5);
    assert_eq!(wide(t.last_filled_qty), 0.0);
    assert_eq!((t.ts_exchange, t.ts_ingest), (6, 8));
    assert_eq!((t.symbol.as_str(), t.side.as_str()), ("BTCUSDT", "SELL"));
    let u = LiquidationTick::from_force_order(force_order(None, Some("0.25")), 8).unwrap();
    assert_eq!((wide(u.price), wide(u.last_filled_qty)), (101.0, 0.25));
    assert!(LiquidationTick::from_force_order(force_order(Some("?"), None), 8).is_none());
}

#[test]
fn open_interest_reaches_the_next_mark_price() {
    let mut ctx = FuturesContext::new();
    let before = ctx.handle(FuturesEvent::MarkPrice(mark("BTCUSDT")), 1);
    assert!(matches!(before, Publication::Context(e) if e.open_interest.is_none()));
    let oi = FuturesOpenInterestUpdate {
        event_type: text("openInterest"),
        event_time: 1,
        symbol: text("btcusdt"),
        open_interest: text("42.5"),
    };
    assert!(matches!(ctx.handle(FuturesEvent::OpenInterest(oi), 1), Publication::Nothing));
    match ctx.handle(FuturesEvent::MarkPrice(mark("BTCUSDT")), 12) {
        Publication::Context(e) => {
            assert_eq!(e.open_interest.map(wide), Some(42.5));
            assert_eq!(e.mark_price.map(wide), Some(100.5));
            assert_eq!(e.funding_rate.map(wide), Some(0.0001));
            assert_eq!((e.ts_exchange, e.ts_ingest, e.next_funding_time), (11, 12, Some(99)));
            assert_eq!(e.source, "futures");
        }
        _ => panic!("a mark price is a context"),
    }
    assert!(!ctx.note_open_interest("btcusdt", "nan"));
    assert!(ctx.note_open_interest("ethusdt", "7"));
    let direct = MarketContextEvent::from_mark(mark("x"), 2, None);
    assert!(direct.open_interest.is_none());
}

#[test]
fn publications_have_their_subjects() {
    let mut ctx = FuturesContext::new();
    let depth = FuturesDepthEvent {
        event_type: text("depthUpdate"),
        event_time: 3,
        symbol: text("ethusdt"),
        bids: vec![],
        asks: vec![],
        update_id: Some(4),
    };
    assert!(matches!(
        ctx.handle(FuturesEvent::Depth(depth), 1),
        Publication::Depth { subject, .. } if subject == "market.depth.ETHUSDT"
    ));
    assert!(matches!(
        ctx.handle(FuturesEvent::ForceOrder(force_order(None, None)), 1),
        Publication::Liquidation { subject, .. } if subject == "market.liq.BTCUSDT"
    ));
    assert!(matches!(
        ctx.handle(FuturesEvent::ForceOrder(force_order(None, Some("x"))), 1),
        Publication::Malformed
    ));
    assert!(matches!(ctx.handle(FuturesEvent::Unsupported, 1), Publication::Nothing));
    assert_eq!(
        open_interest_address("btcusdt"),
        "https://fapi.binance.com/fapi/v1/openInterest?symbol=BTCUSDT"
    );
}

#[test]
fn the_publisher_backs_off_and_recovers() {
    let mut p = NatsPublisher::new(text("nats://a"), text("market.raw"));
    assert_eq!((p.server(), p.subject()), ("nats://a", "market.raw"));
    assert!(p.must_connect());
    assert_eq!(p.connect_done(false), Some(250));
    assert_eq!(p.connect_done(false), Some(500));
    assert_eq!(p.connect_done(true), None);
    assert!(!p.must_connect());
    p.publish_done(true);
    assert!(!p.must_connect());
    p.publish_done(false);
    assert!(p.must_connect());
    assert_eq!(p.connect_done(false), Some(500));
    for _ in 0..10 {
        p.connect_done(false);
    }
    assert_eq!(p.connect_done(false), Some(10_000));
}

#[test]
fn pauses_double_up_to_the_longest() {
    let mut b = Backoff::new(3, 10);
    assert_eq!((b.failed(), b.failed(), b.failed(), b.failed()), (3, 6, 10, 10));
    b.succeeded();
    assert_eq!(b.current_ms(), 3);
}

#[test]
fn the_clock_offset_takes_the_middle_of_the_request() {
    assert_eq!(clock_offset(1000, 1100, 1040), Some(10));
    assert_eq!(clock_offset(1000, 1001, 1000), Some(0));
    assert_eq!(clock_offset(1000, 997, 1000), Some(-1));
    assert_eq!(clock_offset(i64::MIN, i64::MIN, 1), None);
    assert_eq!(exchange_time(1050, 10), Some(1040));
    assert_eq!(exchange_time(i64::MIN, 1), None);
    assert_eq!(initial_retry(1), Some(2000));
    assert_eq!(initial_retry(4), Some(2000));
    assert_eq!(initial_retry(5), None);
}

#[test]
fn the_time_is_past_the_year_2020() {
    assert!(now_ms() > 1_577_836_800_000);
    assert_eq!(timestamp_of(None), 0);
    assert_eq!(timestamp_of(Some(12)), 12);
}

#[test]
fn loose_fields_are_read() {
    assert_eq!(u64_number_or_string(&NumOrStr::Num(3)), Some(3));
    assert_eq!(u64_number_or_string(&NumOrStr::Str(text("18446744073709551615"))), Some(u64::MAX));
    assert_eq!(u64_number_or_string(&NumOrStr::Str(text("18446744073709551616"))), None);
    assert_eq!(option_u64_number_or_string(&None), Some(None));
    assert_eq!(option_u64_number_or_string(&Some(NumOrStr::Str(text("7")))), Some(Some(7)));
    assert_eq!(option_u64_number_or_string(&Some(NumOrStr::Str(text("x")))), None);
    assert_eq!(bool_number_or_bool(BoolOrNum::Bool(true)), Ok(true));
    assert_eq!(bool_number_or_bool(BoolOrNum::Num(0)), Ok(false));
    assert_eq!(bool_number_or_bool(BoolOrNum::Num(1)), Ok(true));
    assert_eq!(bool_number_or_bool(BoolOrNum::Num(2)), Err(2));
    assert_eq!(i64_loose(&SignedOrStr::Signed(-3)), Some(-3));
    assert_eq!(i64_loose(&SignedOrStr::Unsigned(u64::MAX)), None);
    assert_eq!(i64_loose(&SignedOrStr::Str(text("-9223372036854775808"))), Some(i64::MIN));
    assert_eq!(option_i64_loose(&Some(Json::Null)), Some(None));
    assert_eq!(option_i64_loose(&Some(Json::Text(text("12")))), Some(Some(12)));
    assert_eq!(option_i64_loose(&Some(Json::Bool(true))), None);
    let n = JsonNumber { unsigned: Some(4), signed: Some(4), double: None };
    assert_eq!(option_i64_loose(&Some(Json::Number(n))), Some(Some(4)));
}

#[test]
fn envelopes_come_as_lists_too() {
    let (stream, route) = read_spot(br#"["x@trade",{"e":"trade"}]"#).unwrap();
    assert_eq!(stream, "x@trade");
    assert!(matches!(route, SpotRoute::Trade));
    assert!(read_spot(br#"["x@trade"]"#).is_none());
    assert!(read_spot(br#"["x@trade",{},1]"#).is_none());
    assert!(matches!(read_futures(br#"["x",{"e":"forceOrder"}]"#), Some(FuturesRoute::ForceOrder)));
}
