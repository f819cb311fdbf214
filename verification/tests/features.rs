use quantum_sentry::common::BboTick;
use quantum_sentry::feature_engine::features::{finish_log, mid_price};
use quantum_sentry::feature_engine::payload::parse_bbo_from_payload;
use quantum_sentry::feature_engine::{
    imbalance, log_return_1, log_return_window, spread_pct, FeatureEngine, PerSymbolState,
    RingBuffer,
};
use quantum_sentry::num::{Double, Single};

fn d(x: f64) -> Double {
    Double::from_bits(x.to_bits())
}

fn wide(x: Double) -> f64 {
    f64::from_bits(x.to_bits())
}

fn value(x: Single) -> f32 {
    f32::from_bits(x.to_bits())
}

fn ln(x: Double) -> Double {
    d(wide(x).ln())
}

fn assert_close(a: f32, b: f32) {
    assert!((a - b).abs() <= 1e-5);
}

fn bbo(ts_ex: i64, ts_ing: i64, symbol: &str, bid: f64, bid_q: f64, ask: f64, ask_q: f64) -> BboTick {
    BboTick {
        ts_exchange: ts_ex,
        ts_ingest: ts_ing,
        update_id: 0,
        symbol: symbol.to_string(),
        bid_price: d(bid),
        bid_qty: d(bid_q),
        ask_price: d(ask),
        ask_qty: d(ask_q),
    }
}

#[test]
fn log_return_correctness() {
    let r = log_return_1(d(110.0), d(100.0), &ln).unwrap();
    let expected = 1.1f64.ln() as f32;
    assert_close(value(r), expected);
}

#[test]
fn log_return_invalid_returns_none() {
    assert!(log_return_1(d(0.0), d(100.0), &ln).is_none());
    assert!(log_return_1(d(100.0), d(0.0), &ln).is_none());
    assert!(log_return_1(d(f64::NAN), d(100.0), &ln).is_none());
}

#[test]
fn spread_pct_correctness() {
    let s = spread_pct(d(99.0), d(101.0)).unwrap();
    assert_close(value(s), 0.02f32);
}

#[test]
fn spread_pct_zero_mid_returns_none() {
    assert!(spread_pct(d(0.0), d(0.0)).is_none());
}

#[test]
fn imbalance_correctness() {
    let imb = imbalance(d(3.0), d(1.0));
    assert_close(value(imb), 0.5f32);
}

#[test]
fn imbalance_zero_denom_returns_zero() {
    assert_eq!(value(imbalance(d(0.0), d(0.0))), 0.0);
}

#[test]
fn ring_buffer_not_ready_before_n_pushes() {
    let mut rb = RingBuffer::new(5);
    assert!(!rb.is_ready());
    rb.push(d(100.0), 1);
    assert!(!rb.is_ready());
    rb.push(d(101.0), 2);
    assert!(!rb.is_ready());
    rb.push(d(102.0), 3);
    rb.push(d(103.0), 4);
    assert!(!rb.is_ready());
    rb.push(d(104.0), 5);
    assert!(rb.is_ready());
}

#[test]
fn ring_buffer_ready_after_n_pushes() {
    let mut rb = RingBuffer::new(3);
    rb.push(d(10.0), 1);
    rb.push(d(20.0), 2);
    rb.push(d(30.0), 3);
    assert!(rb.is_ready());
    assert_eq!(rb.len(), 3);
    assert_eq!(rb.first(), Some((d(10.0), 1)));
    assert_eq!(rb.last(), Some((d(30.0), 3)));
    assert_eq!(rb.prev_mid(), Some(d(20.0)));
}

#[test]
fn ring_buffer_drops_oldest_when_full() {
    let mut rb = RingBuffer::new(3);
    rb.push(d(1.0), 1);
    rb.push(d(2.0), 2);
    rb.push(d(3.0), 3);
    rb.push(d(4.0), 4);
    assert_eq!(rb.len(), 3);
    assert_eq!(rb.first(), Some((d(2.0), 2)));
    assert_eq!(rb.last(), Some((d(4.0), 4)));
}

#[test]
fn spread_pct_from_engine() {
    let mut engine = FeatureEngine::new(2);
    let t1 = bbo(1, 2, "X", 99.0, 1.0, 101.0, 1.0);
    let t2 = bbo(2, 3, "X", 99.0, 1.0, 101.0, 1.0);
    let _ = engine.on_bbo(&t1, &ln);
    let snap = engine.on_bbo(&t2, &ln).unwrap();
    assert!(snap.ready);
    assert_close(value(snap.spread_pct), 0.02f32);
}

#[test]
fn imbalance_from_engine() {
    let mut engine = FeatureEngine::new(2);
    let t1 = bbo(1, 2, "X", 100.0, 3.0, 101.0, 1.0);
    let t2 = bbo(2, 3, "X", 100.0, 3.0, 101.0, 1.0);
    let _ = engine.on_bbo(&t1, &ln);
    let snap = engine.on_bbo(&t2, &ln).unwrap();
    assert_eq!(snap.features.len(), 4);
    assert_close(value(snap.features[3]), 0.5f32);
}

#[test]
fn features_have_their_exact_values() {
    assert_eq!(value(log_return_1(d(110.0), d(100.0), &ln).unwrap()), (110.0f64 / 100.0).ln() as f32);
    assert_eq!(value(log_return_window(d(3.0), d(7.0), &ln).unwrap()), (3.0f64 / 7.0).ln() as f32);
    let (bid, ask) = (50000.25f64, 50001.5f64);
    let mid = (bid + ask) / 2.0;
    assert_eq!(wide(mid_price(d(bid), d(ask))), mid);
    assert_eq!(value(spread_pct(d(bid), d(ask)).unwrap()), ((ask - bid) / mid) as f32);
    assert_eq!(value(imbalance(d(1.3), d(2.9))), ((1.3f64 - 2.9) / (1.3 + 2.9)) as f32);
    assert_eq!(finish_log(d(f64::INFINITY)), None);
}

#[test]
fn a_window_of_means_and_variances() {
    let mut rb = RingBuffer::new(3);
    assert!(rb.is_empty());
    assert_eq!(rb.mean(), None);
    assert_eq!(rb.first(), None);
    assert_eq!(rb.prev_mid(), None);
    rb.push(d(1.0), 1);
    rb.push(d(2.0), 2);
    rb.push(d(4.0), 3);
    rb.push(d(6.0), 4);
    let sum = 1.0f64 + 2.0 + 4.0 - 1.0 + 6.0;
    assert_eq!(rb.mean(), Some(d(sum / 3.0)));
    let sq = 1.0f64 + 4.0 + 16.0 - 1.0 + 36.0;
    let mean = sum / 3.0;
    assert_eq!(rb.var(), Some(d((sq / 3.0 - mean * mean).max(0.0))));
}

#[test]
fn imbalance_is_bounded_and_changes_sign() {
    let values = [0.0, -0.0, 1e-310, 0.1, 1.0, 3.0, 1e16, 1e308, f64::INFINITY, f64::NAN];
    for b in values {
        for a in values {
            let x = f32::from_bits(imbalance(d(b), d(a)).to_bits());
            let y = f32::from_bits(imbalance(d(a), d(b)).to_bits());
            assert!((-1.0..=1.0).contains(&x));
            assert_eq!(x, -y);
        }
    }
    assert_eq!(f32::from_bits(imbalance(d(3.0), d(0.0)).to_bits()), 1.0);
    assert_eq!(f32::from_bits(imbalance(d(1.0), d(3.0)).to_bits()), -0.5);
}

#[test]
fn at_least_two_samples_are_needed() {
    let mut rb = RingBuffer::new(1);
    rb.push(d(5.0), 9);
    assert!(!rb.is_ready());
    rb.push(d(6.0), 10);
    assert_eq!(rb.len(), 1);
    assert!(!rb.is_ready());
    let mut none = RingBuffer::new(0);
    none.push(d(5.0), 9);
    none.push(d(6.0), 10);
    assert!(none.is_empty());
    assert!(!none.is_ready());
    assert_eq!(none.mean(), None);
}

#[test]
fn samples_are_finite_and_positive() {
    let mut rb = RingBuffer::new(3);
    rb.push(d(f64::NAN), 1);
    rb.push(d(f64::INFINITY), 2);
    rb.push(d(0.0), 3);
    rb.push(d(-1.0), 4);
    assert!(rb.is_empty());
    rb.push(d(2.0), 5);
    assert_eq!(rb.var(), None);
    assert_eq!(rb.mean(), Some(d(2.0)));
}

#[test]
fn a_snapshot_holds_returns_spread_and_latency() {
    let mut state = PerSymbolState::new("X".to_string(), 2);
    assert!(state.on_bbo(&bbo(1, 2, "X", 99.0, 1.0, 101.0, 1.0), &ln).is_none());
    let s = state.on_bbo(&bbo(10, 17, "X", 109.0, 2.0, 111.0, 2.0), &ln).unwrap();
    let r = (110.0f64 / 100.0).ln() as f32;
    assert_eq!(value(s.features[0]), r);
    assert_eq!(value(s.features[1]), r);
    assert_eq!(value(s.features[2]), (2.0f64 / 110.0) as f32);
    assert_eq!(value(s.features[3]), 0.0);
    assert_eq!(s.data_latency_ms, 7);
    assert_eq!((s.ts_exchange, s.feature_version), (10, 1));
    let early = state.on_bbo(&bbo(20, 3, "X", 109.0, 2.0, 111.0, 2.0), &ln).unwrap();
    assert_eq!(early.data_latency_ms, 0);
}

#[test]
fn symbols_have_windows_of_their_own() {
    let mut engine = FeatureEngine::new(2);
    assert!(engine.on_bbo(&bbo(1, 1, "A", 1.0, 1.0, 2.0, 1.0), &ln).is_none());
    assert!(engine.on_bbo(&bbo(2, 2, "B", 1.0, 1.0, 2.0, 1.0), &ln).is_none());
    assert!(engine.on_bbo(&bbo(3, 3, "A", 1.0, 1.0, 2.0, 1.0), &ln).is_some());
    let mut sixty = FeatureEngine::with_default_window();
    for i in 0..59 {
        assert!(sixty.on_bbo(&bbo(i, i, "A", 1.0, 1.0, 2.0, 1.0), &ln).is_none());
    }
    assert!(sixty.on_bbo(&bbo(59, 59, "A", 1.0, 1.0, 2.0, 1.0), &ln).is_some());
}

#[test]
fn payloads_hold_the_best_levels() {
    let text = br#"{"data":{"b":[["99.5","1.5"],["99","9"]],"a":[[100.5,2]],"T":"12","u":7,"s":"btcusdt"}}"#;
    let t = parse_bbo_from_payload(text, 20).unwrap();
    assert_eq!((wide(t.bid_price), wide(t.bid_qty)), (99.5, 1.5));
    assert_eq!((wide(t.ask_price), wide(t.ask_qty)), (100.5, 2.0));
    assert_eq!((t.ts_exchange, t.ts_ingest, t.update_id), (12, 20, 7));
    assert_eq!(t.symbol, "BTCUSDT");
    let other = br#"{"d":{"bids":[["1","1"]],"asks":[["2","1"]],"E":5,"u":"8","symbol":"x"}}"#;
    assert_eq!(parse_bbo_from_payload(other, 0).unwrap().ts_exchange, 5);
    assert!(parse_bbo_from_payload(b"not json", 0).is_none());
    assert!(parse_bbo_from_payload(br#"{"data":{"b":[],"a":[["2","1"]],"T":5,"u":8,"s":"x"}}"#, 0).is_none());
    assert!(parse_bbo_from_payload(br#"{"e":1}"#, 0).is_none());
}
