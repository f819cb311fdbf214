use quantum_sentry::common::{
    Action, BboTick, Decision, FeatureSnapshot, LogEvent, OrderCommand, OrderSide, OrderType,
    TradeTick,
};
use quantum_sentry::logger::batch::{
    after_failure, after_send, send_effect, write_counted, SendEffect, SendOutcome,
};
use quantum_sentry::logger::rows::{action_str, rows_of, side_str};
use quantum_sentry::logger::{
    ClickHouseConfig, Counter, FailureStep, LoggerBatch, LoggerConfig, LoggerCounters,
    LoggerInput, LoggerStep, LoggerVars,
};
use quantum_sentry::num::{Double, Single};
use std::sync::atomic::Ordering;

fn d(x: f64) -> Double {
    Double::from_bits(x.to_bits())
}

fn f(x: f32) -> Single {
    Single::from_bits(x.to_bits())
}

fn config(max_batch_size: usize) -> LoggerConfig {
    LoggerConfig {
        enabled: true,
        flush_interval_ms: 10_000,
        max_batch_size,
        drop_on_full: true,
        log_raw_ticks: true,
        clickhouse: None,
    }
}

fn snapshot_event(i: i64) -> LogEvent {
    LogEvent::FeatureSnapshot {
        ts_ingest: 2000,
        snap: FeatureSnapshot {
            ts_exchange: 1000 + i,
            symbol: "BTCUSDT".to_string(),
            features: vec![f(0.1), f(0.0)],
            ready: true,
            data_latency_ms: 50,
            spread_pct: f(0.01),
            feature_version: 1,
        },
    }
}

fn decision_event(reasons: Vec<String>) -> LogEvent {
    LogEvent::Decision {
        ts_ingest: 2000,
        dec: Decision {
            ts_exchange: 1000,
            symbol: "BTCUSDT".to_string(),
            action: Action::Long,
            confidence: f(0.7),
            reason_codes: reasons,
            model_version: "v1-mock".to_string(),
        },
    }
}

#[test]
fn flush_triggers_by_size() {
    let mut batch = LoggerBatch::new(&config(5));
    let mut batches: Vec<Vec<LogEvent>> = Vec::new();
    for i in 0..5 {
        if let LoggerStep::Flush(b) = batch.step(LoggerInput::Event(snapshot_event(i))) {
            batches.push(b);
        }
    }
    assert!(matches!(batch.step(LoggerInput::Closed), LoggerStep::Stop));
    assert!(!batches.is_empty(), "at least one batch flushed by size");
    assert!(batches[0].len() == 5);
}

#[test]
fn drop_on_full_increments_dropped() {
    let counters = LoggerCounters::new();
    assert!(after_send(SendOutcome::Sent, &counters));
    assert!(after_send(SendOutcome::Full, &counters));
    assert!(!after_send(SendOutcome::Closed, &counters));
    assert_eq!(counters.events_dropped.load(Ordering::Relaxed), 1);
}

#[test]
fn only_a_full_channel_drops() {
    assert_eq!(send_effect(SendOutcome::Sent), SendEffect { alive: true, dropped: false });
    assert_eq!(send_effect(SendOutcome::Full), SendEffect { alive: true, dropped: true });
    assert_eq!(send_effect(SendOutcome::Closed), SendEffect { alive: false, dropped: false });
}

#[test]
fn events_and_writes_are_counted() {
    let batch = LoggerBatch::new(&config(2));
    assert_eq!(batch.counted(&LoggerInput::Event(snapshot_event(0))), Some(Counter::Received));
    assert_eq!(batch.counted(&LoggerInput::Tick), None);
    assert_eq!(batch.counted(&LoggerInput::Closed), None);
    let disabled = LoggerConfig { enabled: false, ..config(2) };
    let batch = LoggerBatch::new(&disabled);
    assert_eq!(batch.counted(&LoggerInput::Event(snapshot_event(0))), Some(Counter::Dropped));
    assert_eq!(write_counted(false, true), Some(Counter::Flushed));
    assert_eq!(write_counted(true, true), Some(Counter::Flushed));
    assert_eq!(write_counted(false, false), Some(Counter::FlushErrors));
    assert_eq!(write_counted(true, false), None);
}

#[test]
fn flush_triggers_by_timer() {
    let mut batch = LoggerBatch::new(&config(1000));
    assert!(matches!(batch.step(LoggerInput::Tick), LoggerStep::Wait));
    assert!(matches!(batch.step(LoggerInput::Event(snapshot_event(0))), LoggerStep::Wait));
    match batch.step(LoggerInput::Tick) {
        LoggerStep::Flush(b) => assert!(!b.is_empty(), "batch flushed by timer"),
        _ => panic!("batch flushed by timer"),
    }
}

#[test]
fn decision_reason_codes_in_mock_sink() {
    let reasons = vec!["low_confidence".to_string(), "meta_mismatch".to_string()];
    let mut batch = LoggerBatch::new(&config(1));
    let batches = vec![match batch.step(LoggerInput::Event(decision_event(reasons.clone()))) {
        LoggerStep::Flush(b) => b,
        _ => panic!("a full batch is flushed"),
    }];
    assert_eq!(batches.len(), 1);
    assert_eq!(batches[0].len(), 1);
    match &batches[0][0] {
        LogEvent::Decision { dec: d, .. } => {
            assert_eq!(d.reason_codes, reasons);
        }
        _ => panic!("expected Decision"),
    }
}

#[test]
fn nothing_is_lost_at_the_end() {
    let mut batch = LoggerBatch::new(&config(2));
    let mut seen = Vec::new();
    for i in 0..3 {
        if let LoggerStep::Flush(b) = batch.step(LoggerInput::Event(snapshot_event(i))) {
            seen.extend(b);
        }
    }
    match batch.step(LoggerInput::Closed) {
        LoggerStep::FlushAndStop(b) => seen.extend(b),
        _ => panic!("the rest is flushed"),
    }
    let times: Vec<i64> = seen
        .iter()
        .map(|e| match e {
            LogEvent::FeatureSnapshot { snap, .. } => snap.ts_exchange,
            _ => 0,
        })
        .collect();
    assert_eq!(times, vec![1000, 1001, 1002]);
}

#[test]
fn a_disabled_logger_drops_events() {
    let mut c = config(1);
    c.enabled = false;
    let mut batch = LoggerBatch::new(&c);
    assert!(matches!(batch.step(LoggerInput::Event(snapshot_event(0))), LoggerStep::Drop));
    assert!(matches!(batch.step(LoggerInput::Closed), LoggerStep::Stop));
}

#[test]
fn writes_are_retried_as_often_as_configured() {
    let mut c = config(1);
    assert_eq!(after_failure(&c, 2), FailureStep::RetryAfterMs(200));
    assert_eq!(after_failure(&c, 3), FailureStep::GiveUp);
    let mut ch = ClickHouseConfig::defaults();
    assert_eq!((ch.url.as_str(), ch.database.as_str()), ("http://localhost:8123", "quantum"));
    ch.retry_backoff_ms = 9;
    c.clickhouse = Some(ch);
    assert_eq!(after_failure(&c, 4), FailureStep::RetryAfterMs(9));
    assert_eq!(after_failure(&c, 5), FailureStep::GiveUp);
}

#[test]
fn logger_settings_come_from_variables() {
    let unset = LoggerVars {
        enabled: None,
        flush_interval_ms: None,
        max_batch_size: None,
        drop_on_full: None,
        log_raw_ticks: None,
    };
    let c = LoggerConfig::from_env_or_default(&unset);
    assert!(c.enabled && c.drop_on_full && c.log_raw_ticks && c.clickhouse.is_none());
    assert_eq!((c.flush_interval_ms, c.max_batch_size), (500, 2000));
    let set = LoggerConfig::from_env_or_default(&LoggerVars {
        enabled: Some("false".to_string()),
        max_batch_size: Some("10".to_string()),
        ..unset
    });
    assert!(!set.enabled);
    assert_eq!(set.max_batch_size, 10);
}

#[test]
fn counters_count() {
    let c = LoggerCounters::default();
    c.inc_received();
    c.inc_received();
    c.inc_flushed();
    c.inc_flush_errors();
    assert_eq!(c.events_received.load(Ordering::Relaxed), 2);
    assert_eq!(c.batches_flushed.load(Ordering::Relaxed), 1);
    assert_eq!(c.flush_errors.load(Ordering::Relaxed), 1);
    assert_eq!(c.events_dropped.load(Ordering::Relaxed), 0);
}

#[test]
fn each_event_goes_to_its_table() {
    let batch = vec![
        decision_event(vec!["r".to_string()]),
        snapshot_event(1),
        LogEvent::ExecutionResult,
        LogEvent::TradeTick {
            ts_ingest: 5,
            tick: TradeTick {
                ts_exchange: 1,
                ts_ingest: 2,
                exchange_id: 3,
                symbol: "T".to_string(),
                price: d(4.0),
                qty: d(5.0),
                is_buyer_maker: true,
            },
        },
        LogEvent::BboTick {
            ts_ingest: 6,
            tick: BboTick {
                ts_exchange: 1,
                ts_ingest: 2,
                update_id: 3,
                symbol: "B".to_string(),
                bid_price: d(1.0),
                bid_qty: d(2.0),
                ask_price: d(3.0),
                ask_qty: d(4.0),
            },
        },
        LogEvent::OrderCommand {
            ts_ingest: 7,
            cmd: OrderCommand {
                client_order_id: "id".to_string(),
                symbol: "O".to_string(),
                side: OrderSide::Sell,
                order_type: OrderType::Market,
                qty: d(1.0),
                price: None,
                reduce_only: None,
                leverage: None,
                sl: None,
                tp: None,
            },
        },
        snapshot_event(2),
    ];
    let rows = rows_of(&batch);
    assert_eq!(rows.snapshots.iter().map(|r| r.ts_exchange).collect::<Vec<i64>>(), vec![1001, 1002]);
    assert_eq!(rows.snapshots[0].ready, 1);
    assert_eq!((rows.decisions[0].action.as_str(), rows.decisions[0].ts_ingest), ("Long", 2000));
    assert_eq!((rows.trades[0].trade_id, rows.trades[0].ts_ingest), (3, 5));
    assert_eq!((rows.quotes[0].update_id, rows.quotes[0].ts_ingest), (3, 6));
    assert_eq!((rows.orders[0].side.as_str(), rows.orders[0].ts_ingest), ("Sell", 7));
    assert_eq!(action_str(&Action::NoTrade), "NoTrade");
    assert_eq!(side_str(&OrderSide::Buy), "Buy");
}
