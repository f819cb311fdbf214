use quantum_sentry::common::{Action, BboTick, Decision, FeatureSnapshot};
use quantum_sentry::executor::{
    BoxedInferenceEngine, ExecutorConfig, ExecutorVars, InferenceEngine, MockInferenceEngine,
    ModelConfig, ModelMeta, ModelMetaOutput, OrtInferenceEngine,
};
use quantum_sentry::num::{Double, Single};
use quantum_sentry::replay::compare::{
    report, DecisionField, FeatureField, Issue,
};
use quantum_sentry::replay::golden::{
    capture_meta, check_setup, default_symbol, engine_kind, feature_order, golden_bbos,
    golden_decisions, golden_features, lacks_numbers, legacy_meta, needs_upgrade, number_lines,
    verify_synchronous, GoldenMeta, GoldenPack, PackError, PackLine,
};
use quantum_sentry::replay::{
    compare_decisions, compare_features, float_eq, run_replay, verify_golden_pack, ReplayEvent,
    ReplayResult,
};

fn d(x: f64) -> Double {
    Double::from_bits(x.to_bits())
}

fn f(x: f32) -> Single {
    Single::from_bits(x.to_bits())
}

fn ln(x: Double) -> Double {
    d(f64::from_bits(x.to_bits()).ln())
}

fn bbo(ts_ex: i64, ts_ing: i64, update_id: u64, bid: f64, ask: f64) -> BboTick {
    BboTick {
        ts_exchange: ts_ex,
        ts_ingest: ts_ing,
        update_id,
        symbol: "BTCUSDT".to_string(),
        bid_price: d(bid),
        bid_qty: d(1.0),
        ask_price: d(ask),
        ask_qty: d(1.0),
    }
}

fn defaults() -> ExecutorConfig {
    ExecutorConfig::from_env_or_default(&ExecutorVars::unset())
}

fn boxed() -> BoxedInferenceEngine {
    BoxedInferenceEngine(Box::new(MockInferenceEngine::long_bias()))
}

fn events() -> Vec<ReplayEvent> {
    vec![
        bbo(1000, 1005, 1, 50000.0, 50001.0),
        bbo(1001, 1006, 2, 50000.0, 50001.0),
        bbo(1003, 1008, 3, 50000.5, 50001.5),
        bbo(1005, 1010, 4, 50001.0, 50002.0),
        bbo(1008, 1013, 5, 50001.5, 50002.5),
    ]
    .into_iter()
    .map(ReplayEvent::Bbo)
    .collect()
}

fn meta() -> GoldenMeta {
    GoldenMeta {
        symbol: "BTCUSDT".to_string(),
        from_ts_ms: 1000,
        to_ts_ms: 1008,
        feature_window: 2,
        feature_version: 1,
        feature_order: vec![
            "log_return_1".to_string(),
            "log_return_window".to_string(),
            "spread_pct".to_string(),
            "imbalance".to_string(),
        ],
        expected_feature_len: 4,
        min_gap_ms: 2,
        limit: None,
        inference_engine: "mock".to_string(),
        risk_config_hash: None,
        model_version: None,
    }
}

fn pack(meta: Option<GoldenMeta>, r: &ReplayResult) -> GoldenPack {
    GoldenPack {
        meta,
        raw_bbos: golden_bbos(&r.bbo_ticks).into_iter().map(|g| (g.seq, g.tick)).collect(),
        features: golden_features(&r.snapshots).into_iter().map(|g| (g.seq, g.snapshot)).collect(),
        decisions: golden_decisions(&r.decisions).into_iter().map(|g| (g.seq, g.decision)).collect(),
    }
}

fn snapshot() -> FeatureSnapshot {
    FeatureSnapshot {
        ts_exchange: 7,
        symbol: "S".to_string(),
        features: vec![f(1.0), f(2.0)],
        ready: true,
        data_latency_ms: 3,
        spread_pct: f(0.5),
        feature_version: 1,
    }
}

fn decision() -> Decision {
    Decision {
        ts_exchange: 7,
        symbol: "S".to_string(),
        action: Action::Long,
        confidence: f(0.7),
        reason_codes: vec!["a".to_string()],
        model_version: "m".to_string(),
    }
}

#[test]
fn golden_capture_with_min_gap_is_consistent() {
    let config = defaults();
    let result = run_replay(&events(), 2, config, boxed(), false, 2, &ln);
    let raw_bbos: Vec<i64> =
        golden_bbos(&result.bbo_ticks).iter().map(|g| g.tick.ts_exchange).collect();
    assert_eq!(raw_bbos.len(), 4);
    assert_eq!(raw_bbos[0], 1000);
    assert_eq!(raw_bbos[1], 1003);
    assert_eq!(raw_bbos[2], 1005);
    assert_eq!(raw_bbos[3], 1008);
    assert!(!raw_bbos.contains(&1001), "1001 should be filtered out (1ms gap)");
    let verify_result =
        verify_golden_pack(&pack(Some(meta()), &result), 2, config, &boxed(), true, &ln).unwrap();
    assert!(verify_result.is_success(), "Golden verification should pass");
    assert_eq!(verify_result.num_raw_events, 4);
    assert_eq!(verify_result.num_snapshots_expected, verify_result.num_snapshots_produced);
}

#[test]
fn a_changed_pack_does_not_pass() {
    let config = defaults();
    let result = run_replay(&events(), 2, config, boxed(), false, 0, &ln);
    let mut m = meta();
    m.min_gap_ms = 0;
    let mut p = pack(Some(m), &result);
    p.features[1].1.data_latency_ms = 77;
    p.decisions[0].1.action = Action::Short;
    let v = verify_golden_pack(&p, 2, config, &boxed(), true, &ln).unwrap();
    assert!(!v.is_success());
    assert_eq!(v.feature_errors.len(), 1);
    assert!(matches!(
        &v.feature_errors[0],
        Issue::Mismatch { seq: 1, field: FeatureField::DataLatency, expected, actual }
            if expected.data_latency_ms == 77 && actual.data_latency_ms == 5
    ));
    assert!(matches!(
        &v.decision_errors[0],
        Issue::Mismatch { seq: 0, field: DecisionField::Action, .. }
    ));
    assert_eq!((v.num_features_checked, v.num_decisions_checked), (4, 4));
    let shallow = verify_golden_pack(&p, 2, config, &boxed(), false, &ln).unwrap();
    assert!(shallow.decision_errors.is_empty());
    assert_eq!(shallow.num_decisions_checked, 0);
}

#[test]
fn each_fault_of_a_pack_has_its_error() {
    let config = defaults();
    let result = run_replay(&events(), 2, config, boxed(), false, 2, &ln);
    let check = |p: &GoldenPack, window: usize| {
        verify_golden_pack(p, window, config, &boxed(), true, &ln).unwrap_err()
    };
    let good = pack(Some(meta()), &result);
    assert_eq!(check(&good, 3), PackError::Window { meta: 2, current: 3 });
    let mut m = meta();
    m.expected_feature_len = 5;
    assert_eq!(check(&pack(Some(m), &result), 2), PackError::DefaultFeatureLen { meta: 5 });
    let engine = MockInferenceEngine::long_bias().with_expected_feature_len(6);
    assert_eq!(
        verify_golden_pack(&good, 2, config, &engine, true, &ln).unwrap_err(),
        PackError::FeatureLen { meta: 4, engine: 6 }
    );
    let mut m = meta();
    m.feature_order.swap(0, 1);
    assert_eq!(check(&pack(Some(m), &result), 2), PackError::FeatureOrder);
    let mut unordered = pack(Some(meta()), &result);
    unordered.raw_bbos[2].1.ts_exchange = 1;
    assert!(matches!(check(&unordered, 2), PackError::NotMonotonic { .. }));
    let mut fewer = pack(Some(meta()), &result);
    fewer.features.pop();
    assert_eq!(check(&fewer, 2), PackError::SnapshotCount { expected: 2, actual: 3 });
    let mut undecided = pack(Some(meta()), &result);
    undecided.decisions.pop();
    assert_eq!(check(&undecided, 2), PackError::DecisionCount { expected: 2, actual: 3 });
}

#[test]
fn a_pack_without_meta_data_is_a_legacy_pack() {
    let config = defaults();
    let result = run_replay(&events(), 2, config, boxed(), false, 0, &ln);
    let v = verify_golden_pack(&pack(None, &result), 2, config, &boxed(), true, &ln).unwrap();
    assert!(v.is_success() && v.is_legacy && v.meta.is_none());
    let m = legacy_meta(9, &pack(None, &result).features);
    assert_eq!((m.symbol.as_str(), m.feature_window, m.expected_feature_len), ("UNKNOWN", 9, 4));
    assert_eq!(legacy_meta(9, &vec![]).expected_feature_len, 4);
    assert_eq!(default_symbol(), "UNKNOWN");
}

fn onnx() -> impl InferenceEngine {
    let config = ModelConfig {
        model_version: "v6".to_string(),
        onnx_model_path: "m.onnx".to_string(),
        meta_path: "m.json".to_string(),
        warmup_runs: 0,
        expected_feature_len: 9,
        output_kind: "binary_probs".to_string(),
    };
    let meta = ModelMeta {
        model_version: "v7".to_string(),
        feature_version: 1,
        feature_order: feature_order(),
        expected_feature_len: 4,
        output: ModelMetaOutput { kind: "binary_probs".to_string(), names: vec![] },
    };
    OrtInferenceEngine::new(&config, &meta, |_row: Vec<Single>| None, |x: Single| x)
}

#[test]
fn the_meta_data_say_how_a_pack_was_captured() {
    let m = capture_meta("S", 1, 2, 60, &boxed(), 5, Some(7), Some("h".to_string()));
    assert_eq!((m.symbol.as_str(), m.from_ts_ms, m.to_ts_ms), ("S", 1, 2));
    assert_eq!((m.feature_window, m.feature_version, m.expected_feature_len), (60, 1, 4));
    assert_eq!(m.feature_order, feature_order());
    assert_eq!((m.min_gap_ms, m.limit), (5, Some(7)));
    assert_eq!((m.inference_engine.as_str(), m.risk_config_hash.as_deref()), ("mock", Some("h")));
    let o = capture_meta("S", 1, 2, 60, &onnx(), 0, None, None);
    assert_eq!(o.inference_engine, "onnx");
    assert_eq!(engine_kind("v1-mock"), "mock");
    assert_eq!(engine_kind("v2"), "onnx");
}

#[test]
fn decisions_of_another_engine_are_not_checked() {
    let mock = Some(meta());
    assert_eq!(check_setup(&mock, 2, &boxed(), true), Ok(true));
    assert_eq!(check_setup(&mock, 2, &boxed(), false), Ok(false));
    assert_eq!(check_setup(&mock, 2, &onnx(), true), Ok(false));
    assert_eq!(check_setup(&None, 99, &onnx(), true), Ok(true));
}

#[test]
fn a_check_replays_with_a_mock_engine() {
    let raw: Vec<(u64, BboTick)> = vec![
        (0, bbo(1000, 1005, 1, 50000.0, 50001.0)),
        (1, bbo(1001, 1006, 2, 50000.0, 50001.0)),
        (2, bbo(1003, 1008, 3, 50000.0, 50001.0)),
    ];
    let r = verify_synchronous(&raw, 2, defaults(), &boxed(), 2, &ln);
    assert_eq!((r.bbo_ticks.len(), r.snapshots.len(), r.decisions.len()), (2, 1, 1));
}

#[test]
fn nearness_is_symmetric_and_finite() {
    let values = [0.0, -0.0, 1e-45, 1e-6, 0.1, 1.0, 1.000001, -1.0, 1e30, f32::MAX];
    for x in values {
        assert!(float_eq(f(x), f(x)));
        for y in values {
            assert_eq!(float_eq(f(x), f(y)), float_eq(f(y), f(x)));
        }
        for y in [f32::INFINITY, f32::NEG_INFINITY, f32::NAN] {
            assert!(!float_eq(f(x), f(y)) && !float_eq(f(y), f(x)) && !float_eq(f(y), f(y)));
        }
    }
}

#[test]
fn singles_are_compared_with_a_tolerance() {
    assert!(float_eq(f(1.0), f(1.0)));
    assert!(float_eq(f(0.0), f(0.0000001)));
    assert!(!float_eq(f(1.0), f(1.001)));
    assert!(float_eq(f(100000.0), f(100000.01)));
    assert!(!float_eq(f(f32::INFINITY), f(1.0)));
}

#[test]
fn each_feature_field_is_compared() {
    let e = snapshot();
    assert!(compare_features(&e, &snapshot(), 1).is_ok());
    let changed: Vec<(FeatureField, FeatureSnapshot)> = vec![
        (FeatureField::TsExchange, FeatureSnapshot { ts_exchange: 8, ..snapshot() }),
        (FeatureField::Symbol, FeatureSnapshot { symbol: "T".to_string(), ..snapshot() }),
        (FeatureField::Ready, FeatureSnapshot { ready: false, ..snapshot() }),
        (FeatureField::DataLatency, FeatureSnapshot { data_latency_ms: 4, ..snapshot() }),
        (FeatureField::SpreadPct, FeatureSnapshot { spread_pct: f(0.6), ..snapshot() }),
        (FeatureField::FeatureVersion, FeatureSnapshot { feature_version: 2, ..snapshot() }),
        (FeatureField::FeaturesLen, FeatureSnapshot { features: vec![f(1.0)], ..snapshot() }),
        (FeatureField::Feature(1), FeatureSnapshot { features: vec![f(1.0), f(2.1)], ..snapshot() }),
    ];
    for (want, actual) in changed {
        match compare_features(&e, &actual, 5) {
            Err(Issue::Mismatch { seq, field, .. }) => assert_eq!((seq, field), (5, want)),
            _ => panic!("a difference in {:?}", want),
        }
    }
}

#[test]
fn each_decision_field_is_compared() {
    let e = decision();
    assert!(compare_decisions(&e, &decision(), 1).is_ok());
    let changed: Vec<(DecisionField, Decision)> = vec![
        (DecisionField::TsExchange, Decision { ts_exchange: 8, ..decision() }),
        (DecisionField::Symbol, Decision { symbol: "T".to_string(), ..decision() }),
        (DecisionField::Action, Decision { action: Action::NoTrade, ..decision() }),
        (DecisionField::Confidence, Decision { confidence: f(0.8), ..decision() }),
        (DecisionField::ModelVersion, Decision { model_version: "n".to_string(), ..decision() }),
        (DecisionField::ReasonCodes, Decision { reason_codes: vec![], ..decision() }),
    ];
    for (want, actual) in changed {
        match compare_decisions(&e, &actual, 5) {
            Err(Issue::Mismatch { seq, field, .. }) => assert_eq!((seq, field), (5, want)),
            _ => panic!("a difference in {:?}", want),
        }
    }
}

#[test]
fn missing_and_unexpected_values_are_reported() {
    let r = report(&vec![(0, decision()), (5, decision())], &vec![decision(), decision()]);
    assert_eq!(r.len(), 2);
    assert!(r.iter().any(|i| matches!(i, Issue::Missing { seq: 5, ts_exchange: 7 })));
    assert!(r.iter().any(|i| matches!(i, Issue::Unexpected { seq: 1, ts_exchange: 7 })));
    assert!(report(&vec![(0, snapshot())], &vec![snapshot()]).is_empty());
}

#[test]
fn lines_without_numbers_are_numbered_by_their_place() {
    let lines = vec![PackLine::Numbered(7, 'a'), PackLine::Blank, PackLine::Plain('b')];
    assert_eq!(number_lines(lines), Ok(vec![(7, 'a'), (2, 'b')]));
    assert_eq!(number_lines(vec![PackLine::Plain('a'), PackLine::Broken]), Err(1));
}

#[test]
fn packs_without_numbers_need_an_upgrade() {
    assert!(needs_upgrade(&None));
    assert!(needs_upgrade(&Some(b"nonsense".to_vec())));
    assert!(needs_upgrade(&Some(br#"{"ts_exchange":1}"#.to_vec())));
    assert!(!needs_upgrade(&Some(br#"{"seq":0,"tick":{}}"#.to_vec())));
    assert!(lacks_numbers(&None));
}

#[test]
fn the_report_lists_counts_and_the_first_differences() {
    let config = defaults();
    let result = run_replay(&events(), 2, config, boxed(), false, 2, &ln);
    let mut m = meta();
    m.limit = Some(9);
    let v = verify_golden_pack(&pack(Some(m), &result), 2, config, &boxed(), true, &ln).unwrap();
    let clean = v.report_lines(&vec![], &vec![]);
    assert_eq!(clean[4], "Meta (from golden pack):");
    assert_eq!(clean[6], "  Time range:            1000 to 1008");
    assert_eq!(clean[9], "  Limit:                 9");
    assert!(clean.contains(&"  Feature snapshots:     expected 3, produced 3".to_string()));
    assert_eq!(clean.last().unwrap(), "✅ All checks passed!");
    let errors: Vec<String> = (0..23).map(|i| format!("e{}", i)).collect();
    let lines = v.report_lines(&errors, &vec!["only".to_string()]);
    assert!(lines.contains(&"❌ Feature Mismatches (23):".to_string()));
    assert!(lines.contains(&"  [  1] e0".to_string()));
    assert!(lines.contains(&"  [ 20] e19".to_string()));
    assert!(!lines.contains(&"  [ 21] e20".to_string()));
    assert!(lines.contains(&"  ... and 3 more feature errors".to_string()));
    assert!(lines.contains(&"  [  1] only".to_string()));
    assert_eq!(lines.last().unwrap(), "");
}

#[test]
fn a_legacy_report_warns() {
    let config = defaults();
    let result = run_replay(&events(), 2, config, boxed(), false, 0, &ln);
    let v = verify_golden_pack(&pack(None, &result), 2, config, &boxed(), true, &ln).unwrap();
    let lines = v.report_lines(&vec![], &vec![]);
    assert_eq!(lines[4], "Counts:");
    assert!(lines.contains(&"   Consider running: replay --upgrade-golden <path>".to_string()));
}
