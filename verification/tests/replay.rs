use quantum_sentry::common::{
    Action, BboTick, Decision, FeatureEntry, FeatureSnapshot, FeaturesConfig, OrderCommand,
    OrderSide, OrderType, TradeTick,
};
use quantum_sentry::executor::{
    BoxedInferenceEngine, ExecutorConfig, ExecutorVars, MockInferenceEngine,
};
use quantum_sentry::num::{Double, Single};
use quantum_sentry::replay::engine::{OrderWithDecision, Replay};
use quantum_sentry::replay::export::{
    action_text, build_summary, decision_header, decision_row, export_plan, feature_header,
    feature_row, named_format, reason_histogram, Cell, ExportFile, ParquetUnsupported,
};
use quantum_sentry::replay::paper_export::{
    account_header, account_row, build_paper_summary, fill_header, fill_row, paper_plan, PaperFile,
};
use quantum_sentry::replay::settings::{
    check_engine, check_limits, override_limits, pack_window, resolve_window,
};
use quantum_sentry::replay::source::sort_events;
use quantum_sentry::replay::source_clickhouse::{bbo_sql, trade_sql, RangeError};
use quantum_sentry::replay::source_jsonl::SourceLine;
use quantum_sentry::replay::times::{millis_or, parse_ts};
use quantum_sentry::replay::{
    run_paper_trading, run_replay, ClickHouseReplaySource, ExportFormat, JsonlReplaySource,
    PaperResult, ReplayEvent, ReplayResult, RunExport,
};
use quantum_sentry::sim_broker::PaperBrokerConfig;

fn d(x: f64) -> Double {
    Double::from_bits(x.to_bits())
}

fn f(x: f32) -> Single {
    Single::from_bits(x.to_bits())
}

fn wide(x: Double) -> f64 {
    f64::from_bits(x.to_bits())
}

fn value(x: Single) -> f32 {
    f32::from_bits(x.to_bits())
}

fn ln(x: Double) -> Double {
    d(wide(x).ln())
}

fn bbo(ts_ex: i64, ts_ing: i64, update_id: u64, bid: f64, ask: f64) -> BboTick {
    BboTick {
        ts_exchange: ts_ex,
        ts_ingest: ts_ing,
        update_id,
        symbol: "BTCUSDT".to_string(),
        bid_price: d(bid),
        bid_qty: d(1.0),
        ask_price: d(ask),
        ask_qty: d(1.0),
    }
}

fn trade(ts: i64, id: u64) -> TradeTick {
    TradeTick {
        ts_exchange: ts,
        ts_ingest: ts,
        exchange_id: id,
        symbol: "BTCUSDT".to_string(),
        price: d(1.0),
        qty: d(1.0),
        is_buyer_maker: false,
    }
}

fn lines(ticks: Vec<BboTick>) -> Vec<SourceLine> {
    ticks.into_iter().map(|t| SourceLine::Event(ReplayEvent::Bbo(t))).collect()
}

fn three_ticks() -> Vec<BboTick> {
    vec![
        bbo(1000, 1005, 1, 50000.0, 50001.0),
        bbo(1001, 1006, 2, 50000.0, 50001.0),
        bbo(1002, 1007, 3, 50000.5, 50001.5),
    ]
}

fn defaults() -> ExecutorConfig {
    ExecutorConfig::from_env_or_default(&ExecutorVars::unset())
}

fn boxed() -> BoxedInferenceEngine {
    BoxedInferenceEngine(Box::new(MockInferenceEngine::long_bias()))
}

fn replay(ticks: Vec<BboTick>, config: ExecutorConfig, gap: u64) -> ReplayResult {
    let events = JsonlReplaySource::events(&lines(ticks)).unwrap();
    run_replay(&events, 2, config, boxed(), false, gap, &ln)
}

#[test]
fn jsonl_source_sorts_by_ts_exchange() {
    let read = lines(vec![
        bbo(1000, 1005, 2, 50000.0, 50001.0),
        bbo(999, 1004, 1, 49999.0, 50000.0),
    ]);
    let events = JsonlReplaySource::events(&read).unwrap();
    assert_eq!(events.len(), 2);
    assert_eq!(events[0].ts_exchange(), 999);
    assert_eq!(events[1].ts_exchange(), 1000);
}

#[test]
fn deterministic_same_input_same_decisions() {
    let config = defaults();
    let r1 = replay(three_ticks(), config, 0);
    let r2 = replay(three_ticks(), config, 0);
    assert_eq!(r1.decisions.len(), r2.decisions.len(), "same number of decisions");
    for (a, b) in r1.decisions.iter().zip(r2.decisions.iter()) {
        assert_eq!(a.ts_exchange, b.ts_exchange);
        assert_eq!(a.action, b.action);
        assert_eq!(a.confidence, b.confidence);
        assert_eq!(a.reason_codes, b.reason_codes);
    }
}

#[test]
fn exporter_writes_expected_files_and_columns() {
    let result = replay(three_ticks(), defaults(), 0);
    let opts = RunExport {
        export_dir: "out".to_string(),
        export_format: ExportFormat::Csv,
        write_decisions: true,
        log_raw_ticks: false,
    };
    let summary = build_summary(&result);
    assert!(summary.num_snapshots > 0);
    assert!(summary.num_decisions > 0);
    let plan = export_plan(&result, &opts, false, false).unwrap();
    assert_eq!(
        plan,
        vec![
            ExportFile::Features,
            ExportFile::Decisions,
            ExportFile::DecisionReasons,
            ExportFile::Summary
        ]
    );
    let header = feature_header(&result.snapshots);
    assert!(header.contains(&"ts_exchange".to_string()));
    assert!(header.contains(&"symbol".to_string()));
    assert!(header.contains(&"spread_pct".to_string()));
    assert!(header.contains(&"data_latency_ms".to_string()));
    assert!(header.contains(&"f0".to_string()));
    let dheader = decision_header();
    assert!(dheader.contains(&"ts_exchange".to_string()));
    assert!(dheader.contains(&"action".to_string()));
    assert!(dheader.contains(&"confidence".to_string()));
    assert!(dheader.contains(&"reason_codes".to_string()));
}

#[test]
fn aggressive_tuning_produces_some_trades_in_replay() {
    let ticks = vec![
        bbo(1_700_000_000_000, 1_700_000_001_000, 1, 50000.0, 50001.0),
        bbo(1_700_000_000_100, 1_700_000_001_100, 2, 50000.0, 50001.0),
        bbo(1_700_000_000_200, 1_700_000_001_200, 3, 50000.5, 50001.5),
    ];
    let mut config = defaults();
    config.latency_max_ms = 5_000;
    config.spread_max_pct = f(1.0);
    config.confidence_min = f(0.40);
    config.cooldown_ms = 0;
    config.hysteresis_enter = f(0.50);
    config.hysteresis_exit = f(0.45);
    config.allow_short = true;
    let result = replay(ticks, config, 0);
    assert!(
        result.decisions.iter().any(|d| d.action != Action::NoTrade),
        "expected at least one non-no_trade decision under aggressive tuning"
    );
}

#[test]
fn min_gap_ms_filters_events() {
    let ticks = vec![
        bbo(1000, 1005, 1, 50000.0, 50001.0),
        bbo(1001, 1006, 2, 50000.0, 50001.0),
        bbo(1003, 1008, 3, 50000.5, 50001.5),
        bbo(1006, 1011, 4, 50001.0, 50002.0),
    ];
    let result = replay(ticks, defaults(), 2);
    assert!(result.bbo_ticks.len() >= 3);
    assert_eq!(result.bbo_ticks[0].ts_exchange, 1000);
    let processed_ts: Vec<i64> = result.bbo_ticks.iter().map(|t| t.ts_exchange).collect();
    assert!(!processed_ts.contains(&1001), "min_gap_ms=2 should skip 1001 (1ms gap)");
}

#[test]
fn a_replay_counts_what_it_produces() {
    let r = replay(three_ticks(), defaults(), 0);
    assert_eq!((r.bbo_ticks.len(), r.snapshots.len(), r.decisions.len()), (3, 2, 2));
    assert!(r.orders.is_empty() && r.orders_with_decisions.is_empty());
    let events: Vec<ReplayEvent> = three_ticks().into_iter().map(ReplayEvent::Bbo).collect();
    let mut config = defaults();
    config.execution_enabled = true;
    config.cooldown_ms = 0;
    let e = run_replay(&events, 2, config, boxed(), true, 0, &ln);
    assert_eq!((e.orders.len(), e.orders_with_decisions.len()), (2, 2));
    assert_eq!(e.orders_with_decisions[1].decision.ts_exchange, 1002);
    let shadow = run_replay(&events, 2, config, boxed(), false, 0, &ln);
    assert!(shadow.orders_with_decisions.is_empty());
}

#[test]
fn a_replay_can_be_stepped_and_paced() {
    let mut r = Replay::new(2, defaults(), boxed(), false, 0);
    let first = ReplayEvent::Bbo(bbo(1000, 1000, 1, 1.0, 2.0));
    assert_eq!(r.pause_ms(&first, d(1.0)), 0);
    r.step(&first, &ln);
    let second = ReplayEvent::Bbo(bbo(1100, 1100, 2, 1.0, 2.0));
    assert_eq!(r.pause_ms(&second, d(1.0)), 100);
    assert_eq!(r.pause_ms(&second, d(4.0)), 25);
    assert_eq!(r.pause_ms(&second, d(0.0)), 0);
    r.step(&ReplayEvent::Trade(trade(1050, 1)), &ln);
    r.step(&second, &ln);
    let done = r.finish(&ln);
    assert_eq!((done.bbo_ticks.len(), done.snapshots.len()), (2, 1));
    assert!(ReplayResult::empty().bbo_ticks.is_empty());
}

#[test]
fn events_are_sorted_by_time_and_number() {
    let events = vec![
        ReplayEvent::Trade(trade(5, 9)),
        ReplayEvent::Bbo(bbo(5, 5, 3, 1.0, 2.0)),
        ReplayEvent::Bbo(bbo(4, 4, 8, 1.0, 2.0)),
        ReplayEvent::Bbo(bbo(5, 6, 3, 1.0, 2.0)),
    ];
    let sorted = sort_events(&events);
    let keys: Vec<(i64, u64)> = sorted.iter().map(|e| (e.ts_exchange(), e.order_key())).collect();
    assert_eq!(keys, vec![(4, 8), (5, 3), (5, 3), (5, 9)]);
    assert!(matches!(&sorted[1], ReplayEvent::Bbo(b) if b.ts_ingest == 5));
    assert_eq!(sorted[3].symbol(), "BTCUSDT");
    assert!(events[1] == events[3]);
    assert!(events[0] != events[1]);
    assert!(sort_events(&Vec::new()).is_empty());
}

#[test]
fn broken_lines_are_reported() {
    let read = vec![
        SourceLine::Blank,
        SourceLine::Tick(bbo(2, 2, 1, 1.0, 2.0)),
        SourceLine::Broken,
        SourceLine::Broken,
    ];
    assert_eq!(JsonlReplaySource::events(&read).unwrap_err(), 2);
    assert_eq!(JsonlReplaySource::events(&read[..2].iter().map(|l| match l {
        SourceLine::Tick(t) => SourceLine::Tick(bbo(t.ts_exchange, 2, 1, 1.0, 2.0)),
        _ => SourceLine::Blank,
    }).collect()).unwrap().len(), 1);
    assert_eq!(JsonlReplaySource::new("a/b.jsonl").path, "a/b.jsonl");
}

#[test]
fn queries_select_a_range_of_a_symbol() {
    let source = ClickHouseReplaySource {
        url: "u".to_string(),
        database: "d".to_string(),
        username: None,
        password: None,
        symbol: "O'X".to_string(),
        from_ts_ms: 0,
        to_ts_ms: 1_700_000_000_123,
        limit: Some(10),
        include_trades: false,
    };
    let q = source.queries().unwrap();
    assert_eq!(
        q.bbos,
        "SELECT ts_exchange, ts_ingest, update_id, symbol, bid_price, bid_qty, ask_price, ask_qty FROM bbo_ticks WHERE symbol = 'O''X' AND ts_exchange >= '1970-01-01 00:00:00.000' AND ts_exchange <= '2023-11-14 22:13:20.123' ORDER BY ts_exchange, update_id LIMIT 10"
    );
    assert!(q.trades.is_none());
    let with_trades = ClickHouseReplaySource { include_trades: true, limit: None, ..source.clone() };
    let t = with_trades.queries().unwrap().trades.unwrap();
    assert!(t.contains("FROM trade_ticks") && t.ends_with("ORDER BY ts_exchange, trade_id "));
    let early = ClickHouseReplaySource { from_ts_ms: i64::MIN, ..source.clone() };
    assert_eq!(early.queries().unwrap_err(), RangeError::From(i64::MIN));
    let late = ClickHouseReplaySource { to_ts_ms: i64::MAX, ..source.clone() };
    assert_eq!(late.queries().unwrap_err(), RangeError::To(i64::MAX));
    assert!(bbo_sql("A", "x", "y", None).contains("'A'"));
    assert!(trade_sql("A", "x", "y", Some(3)).ends_with("LIMIT 3"));
    let merged = with_trades.events(vec![bbo(5, 5, 1, 1.0, 2.0)], vec![trade(4, 1)]);
    assert_eq!(merged[0].ts_exchange(), 4);
}

#[test]
fn moments_are_numbers_or_dates() {
    assert_eq!(parse_ts("1700000000123"), Some(1_700_000_000_123));
    assert_eq!(parse_ts("-5"), Some(-5));
    assert_eq!(parse_ts("1970-01-01T00:00:01Z"), Some(1000));
    assert_eq!(parse_ts("1970-01-01T01:00:00.250+01:00"), Some(250));
    assert_eq!(parse_ts("yesterday"), None);
    assert_eq!(millis_or("x", Some(3)), Some(3));
    assert_eq!(millis_or("9223372036854775808", None), None);
}

#[test]
fn the_window_is_found_in_order_of_precedence() {
    let config = |window: &str| FeaturesConfig {
        version: 1,
        features: vec![FeatureEntry {
            name: "a".to_string(),
            dtype: "f32".to_string(),
            window: window.to_string(),
            missing_policy: "drop".to_string(),
        }],
    };
    let none = FeaturesConfig { version: 1, features: vec![] };
    assert_eq!(resolve_window(&Some("7".to_string()), &config("30s")), 7);
    assert_eq!(resolve_window(&Some("x".to_string()), &config("30s")), 30);
    assert_eq!(resolve_window(&None, &config("30m")), 60);
    assert_eq!(resolve_window(&None, &none), 60);
    let name = Some("test_1hour_w45_b".to_string());
    assert_eq!(pack_window(&name, &Some("7".to_string()), &None), 45);
    assert_eq!(pack_window(&Some("new".to_string()), &Some("7".to_string()), &None), 7);
    assert_eq!(pack_window(&None, &None, &Some(config("12s"))), 12);
    assert_eq!(pack_window(&None, &None, &None), 60);
}

#[test]
fn limits_and_engines_can_be_overridden() {
    let c = override_limits(defaults(), Some(true), Some(9));
    assert!(c.execution_enabled);
    assert_eq!(c.latency_max_ms, 9);
    assert_eq!(override_limits(c, None, None), c);
    assert!(!check_limits(c, None).execution_enabled);
    assert!(check_limits(c, Some(true)).execution_enabled);
    assert!(check_engine(&None).is_some());
    assert!(check_engine(&Some("mock".to_string())).is_some());
    assert!(check_engine(&Some("onnx".to_string())).is_some());
    assert!(check_engine(&Some("other".to_string())).is_none());
}

#[test]
fn formats_are_named_in_any_case() {
    assert_eq!(ExportFormat::from_str("CSV"), Ok(ExportFormat::Csv));
    assert_eq!(ExportFormat::from_str("JsonL"), Ok(ExportFormat::Jsonl));
    assert_eq!(ExportFormat::from_str("Xml"), Err("Xml".to_string()));
    assert_eq!(named_format("CSV"), None);
    assert_eq!(ExportFormat::default(), ExportFormat::Csv);
    assert_eq!(ExportFormat::Parquet.extension(), "parquet");
}

#[test]
fn parquet_is_refused_where_there_is_something_to_write() {
    let opts = RunExport {
        export_dir: "o".to_string(),
        export_format: ExportFormat::Parquet,
        write_decisions: true,
        log_raw_ticks: true,
    };
    let full = replay(three_ticks(), defaults(), 0);
    assert_eq!(export_plan(&full, &opts, true, true), Err(ParquetUnsupported));
    let empty = export_plan(&ReplayResult::empty(), &opts, true, true).unwrap();
    assert_eq!(
        empty,
        vec![
            ExportFile::GoldenRawBbos,
            ExportFile::GoldenFeatures,
            ExportFile::GoldenDecisions,
            ExportFile::GoldenMeta,
            ExportFile::DecisionReasons,
            ExportFile::Summary
        ]
    );
}

#[test]
fn golden_capture_writes_expected_files() {
    let result = replay(three_ticks(), defaults(), 0);
    let opts = RunExport {
        export_dir: "out".to_string(),
        export_format: ExportFormat::Jsonl,
        write_decisions: true,
        log_raw_ticks: false,
    };
    let plan = export_plan(&result, &opts, true, false).unwrap();
    assert!(plan.contains(&ExportFile::GoldenRawBbos));
    assert!(plan.contains(&ExportFile::GoldenFeatures));
    assert!(plan.contains(&ExportFile::GoldenDecisions));
    let raw = quantum_sentry::replay::golden::golden_bbos(&result.bbo_ticks);
    assert_eq!(raw.len(), result.bbo_ticks.len());
}

fn decision(reasons: Vec<&str>) -> Decision {
    Decision {
        ts_exchange: 4,
        symbol: "S".to_string(),
        action: Action::NoTrade,
        confidence: f(0.5),
        reason_codes: reasons.into_iter().map(|s| s.to_string()).collect(),
        model_version: "m".to_string(),
    }
}

#[test]
fn rows_match_their_headers() {
    let snap = FeatureSnapshot {
        ts_exchange: 3,
        symbol: "S".to_string(),
        features: vec![f(1.5), f(-2.0)],
        ready: true,
        data_latency_ms: 8,
        spread_pct: f(0.25),
        feature_version: 1,
    };
    let row = feature_row(&snap);
    assert_eq!(
        feature_header(&vec![snap]),
        vec!["ts_exchange", "symbol", "feature_version", "spread_pct", "data_latency_ms", "f0", "f1"]
    );
    assert_eq!(row.len(), 7);
    assert!(matches!(&row[3], Cell::Single(x) if value(*x) == 0.25));
    assert!(matches!(&row[4], Cell::Unsigned(8)));
    assert!(matches!(&row[6], Cell::Single(x) if value(*x) == -2.0));
    let d = decision_row(&decision(vec!["a", "b\"c"]));
    assert_eq!(d.len(), decision_header().len());
    assert!(matches!(&d[0], Cell::Signed(4)));
    assert!(matches!(&d[2], Cell::Text(s) if s == "no_trade"));
    assert!(matches!(&d[5], Cell::Text(s) if s == "[\"a\",\"b\\\"c\"]"));
    assert_eq!((action_text(Action::Long), action_text(Action::Short)), ("long", "short"));
}

#[test]
fn reasons_are_counted() {
    let h = reason_histogram(&vec![decision(vec!["a", "b"]), decision(vec!["b"]), decision(vec![])]);
    assert_eq!(h.len(), 2);
    assert_eq!(h.get("a"), Some(&1));
    assert_eq!(h.get("b"), Some(&2));
    assert_eq!(h.get("c"), None);
}

#[test]
fn the_summary_holds_latencies_and_spreads() {
    let ticks = vec![
        bbo(1000, 1005, 1, 99.0, 101.0),
        bbo(1001, 1011, 2, 99.0, 101.0),
        bbo(1002, 1007, 3, 98.0, 102.0),
    ];
    let r = replay(ticks, defaults(), 0);
    let s = build_summary(&r);
    assert_eq!((s.num_events, s.num_snapshots, s.num_decisions, s.num_orders), (3, 2, 2, 0));
    assert_eq!((s.min_latency_ms, s.max_latency_ms), (Some(5), Some(10)));
    assert_eq!(s.avg_latency_ms.map(wide), Some(7.5));
    let (a, b) = (0.02f64 as f32, 0.04f64 as f32);
    assert_eq!(s.min_spread_pct.map(value), Some(a));
    assert_eq!(s.max_spread_pct.map(value), Some(b));
    assert_eq!(s.avg_spread_pct.map(value), Some(((a as f64 + b as f64) / 2.0) as f32));
    let none = build_summary(&ReplayResult::empty());
    assert_eq!((none.min_latency_ms, none.avg_spread_pct), (None, None));
}

fn with_order(ts: i64, side: OrderSide, qty: f64) -> OrderWithDecision {
    let mut dec = decision(vec![]);
    dec.ts_exchange = ts;
    OrderWithDecision {
        order: OrderCommand {
            client_order_id: format!("o{}", ts),
            symbol: "btcusdt".to_string(),
            side,
            order_type: OrderType::Market,
            qty: d(qty),
            price: None,
            reduce_only: None,
            leverage: None,
            sl: None,
            tp: None,
        },
        decision: dec,
    }
}

#[test]
fn paper_trading_fills_every_order_once() {
    let ticks = vec![bbo(1000, 1, 1, 9.9, 10.1), bbo(2500, 1, 2, 10.9, 11.1), bbo(2600, 1, 3, 10.9, 11.1)];
    let orders = vec![with_order(1000, OrderSide::Buy, 1.0), with_order(900, OrderSide::Buy, 1.0)];
    let r = run_paper_trading(&ticks, &orders, PaperBrokerConfig::default());
    assert_eq!(wide(r.initial_cash_usdt), 100.0);
    assert_eq!(r.fills.len(), 2);
    assert_eq!(r.fills[0].reason_code, "no_market_price");
    assert_eq!(r.fills[1].action, "OPEN_LONG");
    let times: Vec<i64> = r.account_snapshots.iter().map(|a| a.ts_exchange).collect();
    assert_eq!(times, vec![1000, 2500, 2600]);
    let again = run_paper_trading(&ticks, &orders, PaperBrokerConfig::default());
    assert_eq!(again.account_snapshots[2].equity_usdt, r.account_snapshots[2].equity_usdt);
    assert_eq!(fill_header().len(), fill_row(&r.fills[0]).len());
    assert_eq!(account_header().len(), account_row(&r.account_snapshots[0]).len());
    assert!(matches!(&fill_row(&r.fills[1])[3], Cell::Text(s) if s == "OPEN_LONG"));
    assert!(matches!(&account_row(&r.account_snapshots[0])[3], Cell::Text(s) if s == "LONG"));
    assert_eq!(
        paper_plan(&r, ExportFormat::Csv).unwrap(),
        vec![PaperFile::Fills, PaperFile::Accounts, PaperFile::Summary]
    );
    assert_eq!(paper_plan(&r, ExportFormat::Parquet), Err(ParquetUnsupported));
}

#[test]
fn the_paper_summary_has_gain_and_drawdown() {
    let ticks = vec![
        bbo(1000, 1, 1, 10.0, 10.0),
        bbo(2500, 1, 2, 12.0, 12.0),
        bbo(4000, 1, 3, 9.0, 9.0),
        bbo(5500, 1, 4, 11.0, 11.0),
    ];
    let orders = vec![with_order(1000, OrderSide::Buy, 5.0), with_order(5500, OrderSide::Sell, 5.0)];
    let r = run_paper_trading(&ticks, &orders, PaperBrokerConfig::default());
    let s = build_paper_summary(&r);
    assert_eq!((s.num_fills, s.total_trades, s.total_wins, s.total_losses), (2, 1, 1, 0));
    assert_eq!(wide(s.win_rate), 1.0);
    assert_eq!(wide(s.initial_cash), 100.0);
    let last = r.account_snapshots.last().unwrap();
    assert_eq!(s.final_equity, last.equity_usdt);
    assert_eq!(wide(s.total_pnl), wide(last.equity_usdt) - 100.0);
    let mut peak = f64::NEG_INFINITY;
    let mut fall = 0.0f64;
    for a in &r.account_snapshots {
        peak = peak.max(wide(a.equity_usdt));
        fall = fall.max((peak - wide(a.equity_usdt)) / peak);
    }
    assert!(fall > 0.0);
    assert_eq!(wide(s.max_drawdown_pct), fall * 100.0);
    let nothing = PaperResult {
        initial_cash_usdt: d(7.0),
        fills: vec![],
        account_snapshots: vec![],
    };
    let none = build_paper_summary(&nothing);
    assert_eq!((wide(none.final_equity), wide(none.total_pnl), wide(none.win_rate)), (7.0, 0.0, 0.0));
}

#[test]
fn fills_come_in_the_order_of_the_orders() {
    let ticks = vec![bbo(1000, 1, 1, 9.9, 10.1), bbo(2000, 1, 2, 19.9, 20.1)];
    let mut second = with_order(1000, OrderSide::Sell, 1.0);
    second.order.client_order_id = "second".to_string();
    let orders = vec![
        with_order(2000, OrderSide::Buy, 1.0),
        with_order(1000, OrderSide::Buy, 1.0),
        second,
    ];
    let r = run_paper_trading(&ticks, &orders, PaperBrokerConfig::default());
    let ids: Vec<&str> = r.fills.iter().map(|f| f.order_id.as_str()).collect();
    assert_eq!(ids, vec!["o1000", "second", "o2000"]);
    let actions: Vec<&str> = r.fills.iter().map(|f| f.action.as_str()).collect();
    assert_eq!(actions, vec!["OPEN_LONG", "CLOSE_LONG", "OPEN_LONG"]);
    assert_eq!(wide(r.fills[2].fill_price), 20.1 * (1.0 + 2.0 / 10_000.0));
}
