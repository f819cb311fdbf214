use quantum_sentry::common::{Action, FeatureSnapshot, OrderSide, OrderType, RiskConfig};
use quantum_sentry::executor::decide::{gate_reasons, judge, PerSymbolState};
use quantum_sentry::executor::onnx_output::{checked_output, input_row, read_output, softmax_2};
use quantum_sentry::executor::order_id::{new_order_id, order_id_with};
use quantum_sentry::executor::{
    BoxedInferenceEngine, Executor, ExecutorConfig, ExecutorVars, InferenceEngine,
    InferenceOutput, MockInferenceEngine, MockInferenceEngineFails, MockInferenceEngineFlip,
    ModelConfig, ModelMeta, ModelMetaOutput, ModelVars, OrtInferenceEngine,
};
use quantum_sentry::num::Single;

fn f(x: f32) -> Single {
    Single::from_bits(x.to_bits())
}

fn value(x: Single) -> f32 {
    f32::from_bits(x.to_bits())
}

fn exp(x: Single) -> Single {
    f(value(x).exp())
}

fn defaults() -> ExecutorConfig {
    ExecutorConfig::from_env_or_default(&ExecutorVars::unset())
}

fn snapshot(
    ready: bool,
    data_latency_ms: u32,
    spread_pct: f32,
    features: Vec<f32>,
) -> FeatureSnapshot {
    FeatureSnapshot {
        ts_exchange: 1000,
        symbol: "BTCUSDT".to_string(),
        features: features.into_iter().map(f).collect(),
        ready,
        data_latency_ms,
        spread_pct: f(spread_pct),
        feature_version: 1,
    }
}

#[test]
fn gate_ready_false_no_trade() {
    let config = defaults();
    let engine = MockInferenceEngine::long_bias();
    let mut exec = Executor::new(config, engine);
    let snap = snapshot(false, 50, 0.01, vec![0.1, 0.0, 0.01, 0.5]);
    let (dec, order) = exec.on_snapshot(&snap);
    assert_eq!(dec.action, Action::NoTrade);
    assert!(dec.reason_codes.contains(&"not_ready".to_string()));
    assert!(order.is_none());
}

#[test]
fn gate_latency_too_high_no_trade() {
    let config = defaults();
    let mut c = config;
    c.latency_max_ms = 100;
    let engine = MockInferenceEngine::long_bias();
    let mut exec = Executor::new(c, engine);
    let snap = snapshot(true, 150, 0.01, vec![0.1, 0.0, 0.01, 0.5]);
    let (dec, _) = exec.on_snapshot(&snap);
    assert_eq!(dec.action, Action::NoTrade);
    assert!(dec.reason_codes.contains(&"latency_too_high".to_string()));
}

#[test]
fn gate_spread_too_high_no_trade() {
    let config = defaults();
    let mut c = config;
    c.spread_max_pct = f(0.10);
    let engine = MockInferenceEngine::long_bias();
    let mut exec = Executor::new(c, engine);
    let snap = snapshot(true, 50, 0.25, vec![0.1, 0.0, 0.01, 0.5]);
    let (dec, _) = exec.on_snapshot(&snap);
    assert_eq!(dec.action, Action::NoTrade);
    assert!(dec.reason_codes.contains(&"spread_too_high".to_string()));
}

#[test]
fn gate_low_confidence_no_trade() {
    let config = defaults();
    let mut c = config;
    c.confidence_min = f(0.8);
    let engine = MockInferenceEngine::low_confidence();
    let mut exec = Executor::new(c, engine);
    let snap = snapshot(true, 50, 0.01, vec![0.1, 0.0, 0.01, 0.5]);
    let (dec, _) = exec.on_snapshot(&snap);
    assert_eq!(dec.action, Action::NoTrade);
    assert!(dec.reason_codes.contains(&"confidence_low".to_string()));
}

#[test]
fn shadow_mode_no_order_command() {
    let config = defaults();
    assert!(!config.execution_enabled);
    let engine = MockInferenceEngine::long_bias();
    let mut exec = Executor::new(config, engine);
    let snap = snapshot(true, 50, 0.01, vec![0.1, 0.0, 0.01, 0.5]);
    let (dec, order) = exec.on_snapshot(&snap);
    assert!(dec.action == Action::Long || dec.action == Action::NoTrade);
    assert!(order.is_none());
}

#[test]
fn execution_enabled_emits_order_command() {
    let mut config = defaults();
    config.execution_enabled = true;
    config.cooldown_ms = 0;
    config.confidence_min = f(0.3);
    let engine = MockInferenceEngine::long_bias();
    let mut exec = Executor::new(config, engine);
    let snap = snapshot(true, 50, 0.01, vec![0.1, 0.0, 0.01, 0.5]);
    let (dec, order) = exec.on_snapshot(&snap);
    assert_eq!(dec.action, Action::Long);
    let cmd = order.expect("OrderCommand when execution_enabled");
    assert!(!cmd.client_order_id.is_empty());
    assert_eq!(cmd.symbol, "BTCUSDT");
    assert_eq!(cmd.side, OrderSide::Buy);
}

#[test]
fn cooldown_prevents_repeated_trades() {
    let mut config = defaults();
    config.execution_enabled = false;
    config.cooldown_ms = 999_999;
    config.confidence_min = f(0.3);
    let engine = MockInferenceEngine::long_bias();
    let mut exec = Executor::new(config, engine);
    let snap = snapshot(true, 50, 0.01, vec![0.1, 0.0, 0.01, 0.5]);
    let (dec1, _) = exec.on_snapshot(&snap);
    assert_eq!(dec1.action, Action::Long);
    let snap2 = snapshot(true, 51, 0.01, vec![0.1, 0.0, 0.01, 0.5]);
    let (dec2, _) = exec.on_snapshot(&snap2);
    assert_eq!(dec2.action, Action::NoTrade);
    assert!(dec2.reason_codes.contains(&"cooldown_active".to_string()));
}

#[test]
fn hysteresis_prevents_immediate_flip() {
    let mut config = defaults();
    config.execution_enabled = false;
    config.cooldown_ms = 0;
    config.confidence_min = f(0.3);
    config.hysteresis_enter = f(0.80);
    let engine = MockInferenceEngineFlip::new();
    let mut exec = Executor::new(config, engine);
    let snap1 = snapshot(true, 50, 0.01, vec![0.1, 0.0, 0.01, 0.5]);
    let (dec1, _) = exec.on_snapshot(&snap1);
    assert_eq!(dec1.action, Action::Long);
    let snap2 = snapshot(true, 51, 0.01, vec![0.1, 0.0, 0.01, 0.5]);
    let (dec2, _) = exec.on_snapshot(&snap2);
    assert_eq!(dec2.action, Action::NoTrade);
    assert!(dec2.reason_codes.contains(&"hysteresis_hold".to_string()));
}

#[test]
fn meta_mismatch_when_feature_len_differs_from_expected() {
    let config = defaults();
    let engine = MockInferenceEngine::long_bias().with_expected_feature_len(4);
    let mut exec = Executor::new(config, engine);
    let snap = snapshot(true, 50, 0.01, vec![0.1, 0.0, 0.01]);
    let (dec, order) = exec.on_snapshot(&snap);
    assert_eq!(dec.action, Action::NoTrade);
    assert!(dec.reason_codes.contains(&"meta_mismatch".to_string()));
    assert!(order.is_none());
}

#[test]
fn inference_error_yields_no_trade_and_reason() {
    let config = defaults();
    let engine = MockInferenceEngineFails::new();
    let mut exec = Executor::new(config, engine);
    let snap = snapshot(true, 50, 0.01, vec![0.1, 0.0, 0.01, 0.5]);
    let (dec, order) = exec.on_snapshot(&snap);
    assert_eq!(dec.action, Action::NoTrade);
    assert!(dec.reason_codes.contains(&"inference_error".to_string()));
    assert!(order.is_none());
}

#[test]
fn gates_leave_all_their_codes_in_order() {
    let c = defaults();
    let snap = snapshot(false, 201, 0.21, vec![0.1]);
    let codes = gate_reasons(&c, Some(4), &snap);
    assert_eq!(codes, vec!["not_ready", "latency_too_high", "spread_too_high", "meta_mismatch"]);
    let fine = snapshot(true, 200, 0.20, vec![0.1, 0.2, 0.3, 0.4]);
    assert!(gate_reasons(&c, Some(4), &fine).is_empty());
    let infinite = snapshot(true, 0, f32::NAN, vec![]);
    assert_eq!(gate_reasons(&c, None, &infinite), vec!["spread_too_high"]);
}

#[test]
fn a_trade_carries_its_trace_and_version() {
    let mut exec = Executor::new(defaults(), MockInferenceEngine::short_bias());
    let (dec, _) = exec.on_snapshot(&snapshot(true, 0, 0.01, vec![1.0]));
    assert_eq!(dec.action, Action::Short);
    assert_eq!(dec.reason_codes, vec!["model_short", "passed_gates", "signal_ok"]);
    assert_eq!(dec.model_version, "v1-mock");
    assert_eq!(value(dec.confidence), 0.7);
    assert_eq!(dec.ts_exchange, 1000);
    assert_eq!(dec.symbol, "BTCUSDT");
}

#[test]
fn shorts_can_be_disabled() {
    let mut c = defaults();
    c.allow_short = false;
    let mut exec = Executor::new(c, MockInferenceEngine::short_bias());
    let (dec, _) = exec.on_snapshot(&snapshot(true, 0, 0.01, vec![1.0]));
    assert_eq!(dec.action, Action::NoTrade);
    assert_eq!(dec.reason_codes, vec!["model_short", "short_disabled"]);
}

#[test]
fn an_order_is_a_market_order_with_its_own_id() {
    let mut c = defaults();
    c.execution_enabled = true;
    c.cooldown_ms = 0;
    let mut exec = Executor::new(c, MockInferenceEngine::short_bias());
    let snap = snapshot(true, 0, 0.01, vec![1.0]);
    let first = exec.on_snapshot(&snap).1.unwrap();
    let second = exec.on_snapshot(&snap).1.unwrap();
    assert_eq!(first.side, OrderSide::Sell);
    assert_eq!(first.order_type, OrderType::Market);
    assert_eq!(f64::from_bits(first.qty.to_bits()), 0.0);
    assert!(first.client_order_id.starts_with("1000-"));
    assert_eq!(first.client_order_id.len(), 5 + 36);
    assert_ne!(first.client_order_id, second.client_order_id);
    assert!(first.price.is_none() && first.sl.is_none() && first.tp.is_none());
}

#[test]
fn the_cooldown_ends_and_symbols_are_separate() {
    let mut c = defaults();
    c.cooldown_ms = 100;
    let mut exec = Executor::new(c, MockInferenceEngine::long_bias());
    let mut snap = snapshot(true, 0, 0.01, vec![1.0]);
    assert_eq!(exec.on_snapshot(&snap).0.action, Action::Long);
    snap.ts_exchange = 1099;
    assert_eq!(exec.on_snapshot(&snap).0.action, Action::NoTrade);
    snap.symbol = "ETHUSDT".to_string();
    assert_eq!(exec.on_snapshot(&snap).0.action, Action::Long);
    snap.symbol = "BTCUSDT".to_string();
    snap.ts_exchange = 1100;
    assert_eq!(exec.on_snapshot(&snap).0.action, Action::Long);
}

#[test]
fn a_weak_signal_is_held_after_a_trade() {
    let c = defaults();
    let s = PerSymbolState { last_action: Action::Long, last_trade_ts_ms: 0 };
    let weak = InferenceOutput::new(f(0.57), f(0.43));
    let v = judge(&c, s, 10, &weak);
    assert_eq!(v.action, Action::NoTrade);
    assert_eq!(v.reasons.last().unwrap(), "hysteresis_hold");
    assert_eq!(v.next, Some(s));
    let fresh = PerSymbolState::default();
    let w = judge(&c, fresh, 10, &weak);
    assert_eq!(w.action, Action::Long);
    assert_eq!(w.next, Some(PerSymbolState { last_action: Action::Long, last_trade_ts_ms: 10 }));
}

#[test]
fn on_inference_skips_the_gates() {
    let mut exec = Executor::new(defaults(), MockInferenceEngine::long_bias());
    let snap = snapshot(false, 5000, 9.0, vec![]);
    let out = InferenceOutput::new(f(0.9), f(0.1));
    let (dec, order) = exec.on_inference(&snap, &out);
    assert_eq!(dec.action, Action::Long);
    assert!(order.is_none());
    let (nan, _) = exec.on_inference(&snap, &InferenceOutput::new(f(f32::NAN), f(f32::NAN)));
    assert_eq!(nan.reason_codes, vec!["confidence_low"]);
}

#[test]
fn the_mock_follows_the_first_feature() {
    let m = MockInferenceEngine::from_first_feature();
    let up = m.predict(&[f(0.5)]);
    assert_eq!((value(up.p_up), value(up.p_down)), (0.65, 0.35));
    let down = m.predict(&[f(0.0)]);
    assert_eq!((value(down.p_up), value(down.p_down)), (0.35, 0.65));
    let none = m.predict(&[]);
    assert_eq!((value(none.p_up), value(none.p_down)), (0.0, 0.0));
    assert_eq!(value(down.confidence), 0.65);
}

#[test]
fn a_boxed_engine_is_its_content() {
    let b = BoxedInferenceEngine(Box::new(
        MockInferenceEngine::long_bias().with_expected_feature_len(7),
    ));
    assert_eq!(b.expected_feature_len(), Some(7));
    assert_eq!(b.model_version(), "v1-mock");
    assert_eq!(value(b.predict(&[]).p_up), 0.7);
    let failing = BoxedInferenceEngine(Box::new(MockInferenceEngineFails::default()));
    assert!(failing.predict(&[]).inference_error);
    let out = failing.predict(&[]);
    assert_eq!((value(out.p_up), value(out.p_down), value(out.confidence)), (0.0, 0.0, 0.0));
}

#[test]
fn the_flip_turns_after_one_call() {
    let e = MockInferenceEngineFlip::default();
    assert_eq!(value(e.predict(&[]).p_up), 0.7);
    assert_eq!(value(e.predict(&[]).p_up), 0.3);
    assert_eq!(value(e.predict(&[]).p_up), 0.3);
    assert_eq!(value(MockInferenceEngineFlip::output_after(0).p_up), 0.7);
}

#[test]
fn limits_come_from_variables_or_defaults() {
    let d = defaults();
    assert_eq!(d.latency_max_ms, 200);
    assert_eq!(value(d.spread_max_pct), 0.20);
    assert_eq!(value(d.confidence_min), 0.55);
    assert_eq!(d.cooldown_ms, 5000);
    assert_eq!(value(d.hysteresis_enter), 0.62);
    assert_eq!(value(d.hysteresis_exit), 0.58);
    assert!(d.allow_short);
    let mut vars = ExecutorVars::unset();
    vars.execution_enabled = Some("true".to_string());
    vars.latency_max_ms = Some("-1".to_string());
    vars.spread_max_pct = Some("1e-3".to_string());
    vars.cooldown_ms = Some("+7".to_string());
    vars.allow_short = Some("False".to_string());
    let c = ExecutorConfig::from_env_or_default(&vars);
    assert!(c.execution_enabled);
    assert_eq!(c.latency_max_ms, 200);
    assert_eq!(value(c.spread_max_pct), 1e-3);
    assert_eq!(c.cooldown_ms, 7);
    assert!(c.allow_short);
}

#[test]
fn risk_limits_allow_shorts() {
    let risk = RiskConfig {
        execution_enabled: true,
        latency_max_ms: 5,
        spread_max_pct: f(0.1),
        max_daily_loss_pct: f(1.0),
        max_risk_per_trade_pct: f(1.0),
        max_leverage: 3,
        confidence_min: f(0.6),
        cooldown_ms: 9,
        hysteresis_enter: f(0.7),
        hysteresis_exit: f(0.6),
    };
    let c = ExecutorConfig::from_risk(&risk);
    assert!(c.allow_short && c.execution_enabled);
    assert_eq!((c.latency_max_ms, c.cooldown_ms), (5, 9));
    assert_eq!(value(c.hysteresis_enter), 0.7);
}

#[test]
fn model_settings_take_overrides() {
    let base = ModelConfig {
        model_version: "m1".to_string(),
        onnx_model_path: "a.onnx".to_string(),
        meta_path: "a.json".to_string(),
        warmup_runs: 3,
        expected_feature_len: 4,
        output_kind: "logits".to_string(),
    };
    let vars = ModelVars {
        onnx_model_path: Some("b.onnx".to_string()),
        meta_path: None,
        expected_feature_len: Some("8".to_string()),
        warmup_runs: Some("many".to_string()),
        output_kind: Some("binary_probs".to_string()),
    };
    let c = base.with_vars(&vars);
    assert_eq!(c.onnx_model_path, "b.onnx");
    assert_eq!(c.meta_path, "a.json");
    assert_eq!(c.expected_feature_len, 8);
    assert_eq!(c.warmup_runs, 3);
    assert_eq!(c.output_kind, "binary_probs");
    assert_eq!(c.model_version, "m1");
}

#[test]
fn softmax_halves_equal_logits() {
    let (a, b) = softmax_2(&[f(3.0), f(3.0)], &exp);
    assert_eq!((value(a), value(b)), (0.5, 0.5));
    let (c, d) = softmax_2(&[f(1.0)], &exp);
    assert_eq!((value(c), value(d)), (0.5, 0.5));
    let (p, q) = softmax_2(&[f(1.0), f(2.0)], &exp);
    let e1 = (-1.0f32).exp();
    assert_eq!(value(p), e1 / (e1 + 1.0));
    assert_eq!(value(q), 1.0 / (e1 + 1.0));
}

#[test]
fn model_outputs_are_read_by_kind() {
    let probs = read_output("binary_probs", &[f(0.2), f(0.8)], &exp);
    assert_eq!((value(probs.p_down), value(probs.p_up)), (0.2, 0.8));
    assert_eq!(value(probs.confidence), 0.8);
    assert!(read_output("binary_probs", &[f(0.2)], &exp).inference_error);
    assert!(read_output("binary_probs", &[f(0.2), f(f32::INFINITY)], &exp).inference_error);
    assert!(!read_output("logits", &[f(0.2)], &exp).inference_error);
    assert!(checked_output(f(f32::NAN), f(0.1)).inference_error);
}

#[test]
fn the_input_row_has_the_expected_length() {
    let row = [f(1.0), f(2.0)];
    assert_eq!(input_row(2, &row).unwrap().len(), 2);
    assert!(input_row(3, &row).is_none());
}

#[test]
fn order_ids_join_time_and_token() {
    assert_eq!(order_id_with(-5, "abc"), "-5-abc");
    let id = new_order_id(12);
    let token: Vec<char> = id[3..].chars().collect();
    assert_eq!(token.len(), 36);
    assert_eq!(token[14], '4');
    assert_eq!(token[8], '-');
}

fn model(kind: &str) -> (ModelConfig, ModelMeta) {
    let config = ModelConfig {
        model_version: "m1".to_string(),
        onnx_model_path: "a.onnx".to_string(),
        meta_path: "a.json".to_string(),
        warmup_runs: 3,
        expected_feature_len: 9,
        output_kind: kind.to_string(),
    };
    let meta = ModelMeta {
        model_version: "m2".to_string(),
        feature_version: 1,
        feature_order: vec![],
        expected_feature_len: 2,
        output: ModelMetaOutput { kind: kind.to_string(), names: vec![] },
    };
    (config, meta)
}

#[test]
fn a_model_engine_runs_its_model() {
    let (config, meta) = model("binary_probs");
    let swap = |row: Vec<Single>| Some(vec![row[1], row[0]]);
    let e = OrtInferenceEngine::new(&config, &meta, swap, exp);
    assert_eq!(e.expected_feature_len(), Some(2));
    assert_eq!(e.model_version(), "m2");
    let out = e.predict(&[f(0.8), f(0.2)]);
    assert_eq!((value(out.p_down), value(out.p_up)), (0.2, 0.8));
    assert!(e.predict(&[f(0.8)]).inference_error);
    assert!(e.warmup(3));
    let (config, meta) = model("logits");
    let halves = OrtInferenceEngine::new(&config, &meta, swap, exp);
    assert_eq!(value(halves.predict(&[f(1.0), f(1.0)]).confidence), 0.5);
    let failing = OrtInferenceEngine::new(&config, &meta, |_row: Vec<Single>| None, exp);
    assert!(failing.predict(&[f(1.0), f(1.0)]).inference_error);
    assert!(failing.warmup(0));
    assert!(!failing.warmup(1));
    let boxed = BoxedInferenceEngine(Box::new(failing));
    let mut exec = Executor::new(defaults(), boxed);
    let (dec, _) = exec.on_snapshot(&snapshot(true, 0, 0.01, vec![0.5, 0.5]));
    assert_eq!((dec.reason_codes[0].as_str(), dec.model_version.as_str()), ("inference_error", "m2"));
}
