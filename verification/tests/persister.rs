use quantum_sentry::json::{Json, JsonNumber};
use quantum_sentry::num::Double;
use quantum_sentry::persister::model::{
    best_ask, best_bid, extract_bool, extract_f64, extract_symbol, extract_ts_ms, extract_u64,
    parse_levels, parse_symbol_from_stream,
};
use quantum_sentry::persister::writer::{row_of, Due, MARKET_BATCH_SIZE};
use quantum_sentry::persister::{
    DepthSnapshot, LiquidationTick, MarketContextEvent, MarketEvent, MarketRow, RowBuffer,
    WriterBuffers, WriterSettings, WriterVars,
};

fn d(x: f64) -> Double {
    Double::from_bits(x.to_bits())
}

fn wide(x: Double) -> f64 {
    f64::from_bits(x.to_bits())
}

fn text(s: &str) -> Json {
    Json::Text(s.to_string())
}

fn number(x: i64) -> Json {
    Json::Number(JsonNumber {
        unsigned: u64::try_from(x).ok(),
        signed: Some(x),
        double: Some(d(x as f64)),
    })
}

fn object(fields: Vec<(&str, Json)>) -> Json {
    Json::Object(fields.into_iter().map(|(k, v)| (k.to_string(), v)).collect())
}

#[test]
fn a_trade_message_is_a_trade_row() {
    let bytes = br#"{"stream":"btcusdt@trade","event_type":"trade","data":{"T":12,"t":"5","p":"100.5","q":2,"m":true}}"#;
    let e = MarketEvent::read(bytes).unwrap();
    assert_eq!(e.ts_ingest, None);
    let row = e.to_trade_row(20).unwrap();
    assert_eq!((row.ts_exchange, row.ts_ingest, row.trade_id), (12, 20, 5));
    assert_eq!((wide(row.price), wide(row.quantity)), (100.5, 2.0));
    assert_eq!(row.symbol, "btcusdt");
    assert!(row.is_buyer_maker);
    assert!(matches!(row_of(&e, 20), Some(MarketRow::Trade(_))));
    assert!(e.to_bbo_row(20).is_none());
}

#[test]
fn a_depth_message_is_a_quote_row() {
    let bytes = br#"{"data":{"E":"13","u":6,"s":"ETH","b":[["1","2"],["3","4"],["3","5"]],"asks":[["8","1"],["7","2"],["7","3"]]}}"#;
    let e = MarketEvent::read(bytes).unwrap();
    let row = e.to_bbo_row(21).unwrap();
    assert_eq!((row.ts_exchange, row.update_id), (13, 6));
    assert_eq!((wide(row.bid_price), wide(row.bid_qty)), (3.0, 5.0));
    assert_eq!((wide(row.ask_price), wide(row.ask_qty)), (7.0, 2.0));
    assert_eq!(row.symbol, "ETH");
    assert!(matches!(row_of(&e, 21), Some(MarketRow::BBO(_))));
}

#[test]
fn messages_of_neither_kind_have_no_row() {
    let e = MarketEvent::read(br#"{"data":{"T":12}}"#).unwrap();
    assert!(row_of(&e, 1).is_none());
    assert!(MarketEvent::read(br#"{"stream":"x"}"#).is_none());
    assert!(MarketEvent::read(br#"{"stream":5,"data":{}}"#).is_none());
    assert!(MarketEvent::read(br#"{"stream":null,"data":{}}"#).unwrap().stream.is_none());
    assert!(MarketEvent::read(b"").is_none());
    let infinite = MarketEvent::read(br#"{"data":{"T":1,"t":1,"p":"inf","q":"1"}}"#).unwrap();
    assert!(infinite.to_trade_row(1).is_none());
}

#[test]
fn the_symbol_comes_from_body_stream_or_is_unknown() {
    let body = |stream: Option<&str>, data: Json| MarketEvent {
        stream: stream.map(|s| s.to_string()),
        event_type: None,
        ts_ingest: None,
        data,
    };
    assert_eq!(body(Some("a@b"), object(vec![("symbol", text("X"))])).symbol(), "X");
    assert_eq!(body(Some("a@b"), object(vec![("s", number(1))])).symbol(), "a");
    assert_eq!(body(Some("@b"), object(vec![])).symbol(), "UNKNOWN");
    assert_eq!(body(None, Json::Null).symbol(), "UNKNOWN");
    assert_eq!(parse_symbol_from_stream("noat"), Some("noat".to_string()));
    assert_eq!(parse_symbol_from_stream(""), None);
}

#[test]
fn fields_are_read_loosely() {
    let data = object(vec![
        ("T", text("x")),
        ("E", number(7)),
        ("p", Json::Bool(true)),
        ("price", text("1.25")),
        ("t", number(-1)),
        ("m", text("TRUE")),
        ("n", number(2)),
        ("z", text("yes")),
    ]);
    assert_eq!(extract_ts_ms(&data), Some(7));
    assert_eq!(extract_f64(&data, "p", "price").map(wide), Some(1.25));
    assert_eq!(extract_u64(&data, "t"), None);
    assert_eq!(extract_u64(&data, "E"), Some(7));
    assert_eq!(extract_bool(&data, "m"), Some(true));
    assert_eq!(extract_bool(&data, "n"), Some(true));
    assert_eq!(extract_bool(&data, "z"), Some(false));
    assert_eq!(extract_bool(&data, "q"), None);
    assert_eq!(extract_symbol(&data), None);
}

#[test]
fn levels_skip_short_and_infinite_ones() {
    let level = |p: &str, q: &str| Json::List(vec![text(p), text(q)]);
    let data = object(vec![
        ("b", Json::List(vec![Json::List(vec![text("1")]), level("inf", "1"), level("2", "3")])),
        ("a", Json::List(vec![level("2", "x")])),
        ("c", Json::List(vec![Json::Null])),
        ("d", Json::List(vec![])),
    ]);
    let levels = parse_levels(&data, "b").unwrap();
    assert_eq!(levels.len(), 1);
    assert_eq!((wide(levels[0].0), wide(levels[0].1)), (2.0, 3.0));
    assert!(parse_levels(&data, "a").is_none());
    assert!(parse_levels(&data, "c").is_none());
    assert!(parse_levels(&data, "d").is_none());
}

#[test]
fn among_equal_prices_the_last_bid_and_the_first_ask_win() {
    let levels = vec![(d(1.0), d(1.0)), (d(2.0), d(2.0)), (d(2.0), d(3.0)), (d(1.0), d(4.0))];
    assert_eq!(best_bid(&levels), Some((d(2.0), d(3.0))));
    assert_eq!(best_ask(&levels), Some((d(1.0), d(1.0))));
    assert_eq!(best_bid(&vec![]), None);
    assert_eq!(best_ask(&vec![]), None);
}

#[test]
fn rows_carry_their_events() {
    let ctx = MarketContextEvent {
        ts_exchange: 1,
        ts_ingest: 2,
        symbol: "S".to_string(),
        mark_price: Some(d(3.0)),
        funding_rate: None,
        open_interest: Some(d(4.0)),
        next_funding_time: Some(5),
        source: None,
    };
    let row = ctx.to_row();
    assert_eq!((row.ts, row.ts_ingest, row.next_funding_time), (1, 2, Some(5)));
    assert_eq!((row.mark_price, row.funding_rate), (Some(d(3.0)), None));
    let depth = DepthSnapshot {
        symbol: "S".to_string(),
        ts_exchange: 1,
        ts_ingest: 2,
        bids_price: vec![d(1.0)],
        bids_qty: vec![d(2.0)],
        asks_price: vec![],
        asks_qty: vec![],
    };
    assert_eq!(depth.to_row().bids_qty, vec![d(2.0)]);
    let liq = LiquidationTick {
        symbol: "S".to_string(),
        side: "BUY".to_string(),
        price: d(1.0),
        orig_qty: d(2.0),
        last_filled_qty: d(3.0),
        ts_exchange: 4,
        ts_ingest: 5,
    };
    assert_eq!(liq.to_row().side, "BUY");
}

#[test]
fn only_a_successful_write_empties_a_buffer() {
    let mut b: RowBuffer<u8> = RowBuffer::new(2);
    assert!(!b.due());
    assert!(!b.push(1));
    assert!(b.push(2));
    b.written(false);
    assert_eq!(b.rows(), &vec![1, 2]);
    assert!(b.due());
    b.written(true);
    assert!(b.rows().is_empty());
}

#[test]
fn the_feed_is_flushed_at_its_limit() {
    let mut w = WriterBuffers::new();
    let trade = MarketEvent::read(br#"{"data":{"T":1,"t":1,"p":"1","q":"1"}}"#).unwrap();
    for i in 1..=MARKET_BATCH_SIZE {
        let due = w.push(row_of(&trade, 1).unwrap());
        assert_eq!(due == Due::Trades, i == MARKET_BATCH_SIZE);
    }
    assert_eq!(w.trades.rows().len(), 1000);
    assert!(!w.quotes.due());
}

#[test]
fn the_database_settings_have_defaults() {
    let unset = WriterVars { url: None, db: None, database: None, user: None, password: None };
    let s = WriterSettings::from_vars(&unset);
    assert_eq!(s.url, "http://127.0.0.1:8123");
    assert_eq!(s.database, "quantum");
    assert_eq!(s.user, "qs_user");
    assert_eq!(s.password, "qs_pass");
    let set = WriterVars { database: Some("other".to_string()), ..unset };
    assert_eq!(WriterSettings::from_vars(&set).database, "other");
}

#[test]
fn stored_messages_come_as_lists_too() {
    let e = MarketEvent::read(br#"[null,"trade",null,{"s":"X"}]"#).unwrap();
    assert_eq!(e.stream, None);
    assert_eq!(e.event_type, Some("trade".to_string()));
    assert_eq!(e.symbol(), "X");
    assert!(MarketEvent::read(br#"["s","trade",{"s":"X"}]"#).is_none());
}

#[test]
fn every_row_is_written_once() {
    let mut buffer: RowBuffer<u32> = RowBuffer::new(3);
    let mut table: Vec<u32> = Vec::new();
    let mut sizes: Vec<usize> = Vec::new();
    for (i, ok) in [true, true, false, true, true, true, true].into_iter().enumerate() {
        if buffer.push(i as u32) {
            if ok {
                table.extend(buffer.rows());
                sizes.push(buffer.rows().len());
            }
            buffer.written(ok);
        }
    }
    if buffer.due() {
        table.extend(buffer.rows());
        sizes.push(buffer.rows().len());
        buffer.written(true);
    }
    assert!(!buffer.due());
    assert_eq!(table, vec![0, 1, 2, 3, 4, 5, 6]);
    assert_eq!(sizes, vec![4, 3]);
}
