//! The executor: gates, inference, stabilisation, and the order when execution is enabled.

use super::config::ExecutorConfig;
use super::inference::{InferenceEngine, InferenceOutput};
use super::order_id::{is_fresh_order_id, new_order_id};
use crate::common::events::{texts, DecisionModel};
use crate::common::{Action, Decision, FeatureSnapshot, OrderCommand, OrderSide, OrderType};
use crate::num::model::{less, zero};
use crate::num::single::{lemma_single_zero, single_zero};
use crate::num::{Double, Single};
use crate::symbols::SymbolMap;
use vstd::prelude::*;

verus! {

/// What the stabilisation remembers of a symbol.
#[derive(Clone, Copy, Debug, PartialEq, Eq, Structural)]
pub struct PerSymbolState {
    pub last_action: Action,
    pub last_trade_ts_ms: u64,
}

pub open spec fn fresh_state() -> PerSymbolState {
    PerSymbolState { last_action: Action::NoTrade, last_trade_ts_ms: 0 }
}

impl Default for PerSymbolState {
    fn default() -> (r: Self)
        ensures
            r == fresh_state(),
    {
        PerSymbolState { last_action: Action::NoTrade, last_trade_ts_ms: 0 }
    }
}

/// The state of a symbol; that of a new symbol is fresh.
pub open spec fn state_of(
    states: Map<Seq<char>, PerSymbolState>,
    symbol: Seq<char>,
) -> PerSymbolState {
    if states.contains_key(symbol) {
        states[symbol]
    } else {
        fresh_state()
    }
}

pub open spec fn code_if(cond: bool, code: Seq<char>) -> Seq<Seq<char>> {
    if cond {
        seq![code]
    } else {
        Seq::empty()
    }
}

pub open spec fn latency_exceeded(c: ExecutorConfig, snap: FeatureSnapshot) -> bool {
    snap.data_latency_ms > c.latency_max_ms
}

pub open spec fn spread_exceeded(c: ExecutorConfig, snap: FeatureSnapshot) -> bool {
    !(snap.spread_pct@ is Fin) || less(c.spread_max_pct@, snap.spread_pct@)
}

pub open spec fn length_mismatch(expected: Option<usize>, snap: FeatureSnapshot) -> bool {
    expected matches Some(len) && snap.features@.len() != len
}

/// The reasons, in order, why the gates refuse a snapshot.
pub open spec fn gate_codes(
    c: ExecutorConfig,
    expected: Option<usize>,
    snap: FeatureSnapshot,
) -> Seq<Seq<char>> {
    code_if(!snap.ready, "not_ready"@) + code_if(latency_exceeded(c, snap), "latency_too_high"@)
        + code_if(spread_exceeded(c, snap), "spread_too_high"@) + code_if(
        length_mismatch(expected, snap),
        "meta_mismatch"@,
    )
}

/// The gates refuse a snapshot exactly when one of the four conditions holds, and each
/// condition leaves its code.
pub proof fn law_gate_codes(c: ExecutorConfig, expected: Option<usize>, snap: FeatureSnapshot)
    ensures
        gate_codes(c, expected, snap).len() == 0 <==> snap.ready && !latency_exceeded(c, snap)
            && !spread_exceeded(c, snap) && !length_mismatch(expected, snap),
        !snap.ready ==> gate_codes(c, expected, snap).contains("not_ready"@),
        latency_exceeded(c, snap) ==> gate_codes(c, expected, snap).contains("latency_too_high"@),
        spread_exceeded(c, snap) ==> gate_codes(c, expected, snap).contains("spread_too_high"@),
        length_mismatch(expected, snap) ==> gate_codes(c, expected, snap).contains(
            "meta_mismatch"@,
        ),
{
    let a = code_if(!snap.ready, "not_ready"@);
    let b = code_if(latency_exceeded(c, snap), "latency_too_high"@);
    let d = code_if(spread_exceeded(c, snap), "spread_too_high"@);
    let e = code_if(length_mismatch(expected, snap), "meta_mismatch"@);
    let all = gate_codes(c, expected, snap);
    if !snap.ready {
        assert(all[0] == "not_ready"@);
    }
    if latency_exceeded(c, snap) {
        assert(all[a.len() as int] == "latency_too_high"@);
    }
    if spread_exceeded(c, snap) {
        assert(all[(a.len() + b.len()) as int] == "spread_too_high"@);
    }
    if length_mismatch(expected, snap) {
        assert(all[(a.len() + b.len() + d.len()) as int] == "meta_mismatch"@);
    }
}

/// The reasons, in order, why the gates refuse a snapshot.
pub fn gate_reasons(
    c: &ExecutorConfig,
    expected: Option<usize>,
    snap: &FeatureSnapshot,
) -> (r: Vec<String>)
    ensures
        texts(r@) == gate_codes(*c, expected, *snap),
{
    let mut r: Vec<String> = Vec::new();
    if !snap.ready {
        r.push("not_ready".to_string());
    }
    if snap.data_latency_ms > c.latency_max_ms {
        r.push("latency_too_high".to_string());
    }
    if !snap.spread_pct.is_finite() || snap.spread_pct.above(c.spread_max_pct) {
        r.push("spread_too_high".to_string());
    }
    if let Some(len) = expected {
        if snap.features.len() != len {
            r.push("meta_mismatch".to_string());
        }
    }
    proof {
        assert(texts(r@) =~= gate_codes(*c, expected, *snap));
    }
    r
}

/// What becomes of a snapshot that passed the gates.
pub struct Verdict {
    pub action: Action,
    pub confidence: Single,
    pub reasons: Vec<String>,
    /// The new state of the symbol, where the stabilisation was reached.
    pub next: Option<PerSymbolState>,
}

#[verifier::ext_equal]
pub struct VerdictModel {
    pub action: Action,
    pub confidence: Single,
    pub reasons: Seq<Seq<char>>,
    pub next: Option<PerSymbolState>,
}

impl View for Verdict {
    type V = VerdictModel;

    open spec fn view(&self) -> VerdictModel {
        VerdictModel {
            action: self.action,
            confidence: self.confidence,
            reasons: texts(self.reasons@),
            next: self.next,
        }
    }
}

pub open spec fn refused(
    confidence: Single,
    reasons: Seq<Seq<char>>,
    next: Option<PerSymbolState>,
) -> VerdictModel {
    VerdictModel { action: Action::NoTrade, confidence, reasons, next }
}

/// The time base of the stabilisation.
pub open spec fn trade_time(ts_exchange: i64) -> u64 {
    if ts_exchange < 0 {
        0
    } else {
        ts_exchange as u64
    }
}

/// The last trade of the symbol is less than the cooldown ago.
pub open spec fn cooling(c: ExecutorConfig, s: PerSymbolState, now: u64) -> bool {
    s.last_trade_ts_ms != 0 && (if now < s.last_trade_ts_ms {
        0
    } else {
        now - s.last_trade_ts_ms
    }) < c.cooldown_ms
}

/// The signal is too weak beside the direction taken last.
pub open spec fn held(c: ExecutorConfig, s: PerSymbolState, out: InferenceOutput) -> bool {
    let long = less(out.p_down@, out.p_up@);
    ||| s.last_action != Action::NoTrade && less(out.confidence@, c.hysteresis_exit@)
    ||| s.last_action == Action::Long && !long && less(out.p_down@, c.hysteresis_enter@)
    ||| s.last_action == Action::Short && long && less(out.p_up@, c.hysteresis_enter@)
}

/// The verdict on an inference.
pub open spec fn judged(
    c: ExecutorConfig,
    s: PerSymbolState,
    ts_exchange: i64,
    out: InferenceOutput,
) -> VerdictModel {
    let long = less(out.p_down@, out.p_up@);
    let signal = if long {
        "model_long"@
    } else {
        "model_short"@
    };
    let passed = seq![signal, "passed_gates"@, "signal_ok"@];
    let now = trade_time(ts_exchange);
    if out.inference_error {
        refused(single_zero(), seq!["inference_error"@], None)
    } else if !(out.confidence@ is Fin) || less(out.confidence@, c.confidence_min@) {
        refused(out.confidence, seq!["confidence_low"@], None)
    } else if !long && !c.allow_short {
        refused(out.confidence, seq![signal, "short_disabled"@], None)
    } else if cooling(c, s, now) {
        refused(out.confidence, passed.push("cooldown_active"@), Some(s))
    } else if held(c, s, out) {
        refused(out.confidence, passed.push("hysteresis_hold"@), Some(s))
    } else {
        let action = if long {
            Action::Long
        } else {
            Action::Short
        };
        VerdictModel {
            action,
            confidence: out.confidence,
            reasons: passed,
            next: Some(PerSymbolState { last_action: action, last_trade_ts_ms: now }),
        }
    }
}

fn refuse(
    confidence: Single,
    reasons: Vec<String>,
    next: Option<PerSymbolState>,
) -> (r: Verdict)
    ensures
        r@ == refused(confidence, texts(reasons@), next),
{
    Verdict { action: Action::NoTrade, confidence, reasons, next }
}

/// The verdict on an inference.
pub fn judge(
    c: &ExecutorConfig,
    s: PerSymbolState,
    ts_exchange: i64,
    out: &InferenceOutput,
) -> (r: Verdict)
    ensures
        r@ == judged(*c, s, ts_exchange, *out),
{
    let mut reasons: Vec<String> = Vec::new();
    if out.inference_error {
        reasons.push("inference_error".to_string());
        proof {
            assert(texts(reasons@) =~= seq!["inference_error"@]);
        }
        return refuse(Single::zero(), reasons, None);
    }
    if !out.confidence.is_finite() || out.confidence.below(c.confidence_min) {
        reasons.push("confidence_low".to_string());
        proof {
            assert(texts(reasons@) =~= seq!["confidence_low"@]);
        }
        return refuse(out.confidence, reasons, None);
    }
    let long = out.p_up.above(out.p_down);
    let ghost signal = if long {
        "model_long"@
    } else {
        "model_short"@
    };
    if long {
        reasons.push("model_long".to_string());
    } else {
        reasons.push("model_short".to_string());
        if !c.allow_short {
            reasons.push("short_disabled".to_string());
            proof {
                assert(texts(reasons@) =~= seq![signal, "short_disabled"@]);
            }
            return refuse(out.confidence, reasons, None);
        }
    }
    reasons.push("passed_gates".to_string());
    reasons.push("signal_ok".to_string());
    let ghost passed = seq![signal, "passed_gates"@, "signal_ok"@];
    proof {
        assert(texts(reasons@) =~= passed);
    }
    let now: u64 = if ts_exchange < 0 {
        0
    } else {
        ts_exchange as u64
    };
    let since: u64 = if now < s.last_trade_ts_ms {
        0
    } else {
        now - s.last_trade_ts_ms
    };
    if s.last_trade_ts_ms != 0 && since < c.cooldown_ms {
        reasons.push("cooldown_active".to_string());
        proof {
            assert(texts(reasons@) =~= passed.push("cooldown_active"@));
        }
        return refuse(out.confidence, reasons, Some(s));
    }
    let weak = s.last_action != Action::NoTrade && out.confidence.below(c.hysteresis_exit);
    let flip = match s.last_action {
        Action::Long => !long && out.p_down.below(c.hysteresis_enter),
        Action::Short => long && out.p_up.below(c.hysteresis_enter),
        Action::NoTrade => false,
    };
    if weak || flip {
        reasons.push("hysteresis_hold".to_string());
        proof {
            assert(texts(reasons@) =~= passed.push("hysteresis_hold"@));
        }
        return refuse(out.confidence, reasons, Some(s));
    }
    let action = if long {
        Action::Long
    } else {
        Action::Short
    };
    Verdict {
        action,
        confidence: out.confidence,
        reasons,
        next: Some(PerSymbolState { last_action: action, last_trade_ts_ms: now }),
    }
}

/// The decision on a snapshot.
pub open spec fn decision_on(
    snap: FeatureSnapshot,
    action: Action,
    confidence: Single,
    reasons: Seq<Seq<char>>,
    version: Seq<char>,
) -> DecisionModel {
    DecisionModel {
        ts_exchange: snap.ts_exchange,
        symbol: snap.symbol@,
        action,
        confidence,
        reason_codes: reasons,
        model_version: version,
    }
}

/// The order that goes with a decision to trade.
pub open spec fn is_order(order: OrderCommand, snap: FeatureSnapshot, action: Action) -> bool {
    &&& is_fresh_order_id(snap.ts_exchange, order.client_order_id@)
    &&& order.symbol@ == snap.symbol@
    &&& order.side == if action == Action::Long {
        OrderSide::Buy
    } else {
        OrderSide::Sell
    }
    &&& order.order_type == OrderType::Market
    &&& order.qty@ == zero()
    &&& order.price is None
    &&& order.reduce_only is None
    &&& order.leverage is None
    &&& order.sl is None
    &&& order.tp is None
}

/// The new states, the decision and the order are what the inference `out` leads to.
pub open spec fn follows(
    c: ExecutorConfig,
    states: Map<Seq<char>, PerSymbolState>,
    snap: FeatureSnapshot,
    version: Seq<char>,
    out: InferenceOutput,
    after: Map<Seq<char>, PerSymbolState>,
    decision: DecisionModel,
    order: Option<OrderCommand>,
) -> bool {
    let v = judged(c, state_of(states, snap.symbol@), snap.ts_exchange, out);
    &&& decision == decision_on(snap, v.action, v.confidence, v.reasons, version)
    &&& after == match v.next {
        Some(s) => states.insert(snap.symbol@, s),
        None => states,
    }
    &&& match order {
        Some(o) => c.execution_enabled && v.action != Action::NoTrade && is_order(
            o,
            snap,
            v.action,
        ),
        None => !c.execution_enabled || v.action == Action::NoTrade,
    }
}

/// Turns snapshots into decisions, and into orders when execution is enabled.
#[verifier::reject_recursive_types(E)]
pub struct Executor<E: InferenceEngine> {
    config: ExecutorConfig,
    engine: E,
    state: SymbolMap<PerSymbolState>,
}

impl<E: InferenceEngine> Executor<E> {
    pub closed spec fn limits(self) -> ExecutorConfig {
        self.config
    }

    pub closed spec fn inference(self) -> E {
        self.engine
    }

    pub closed spec fn states(self) -> Map<Seq<char>, PerSymbolState> {
        self.state@
    }

    pub fn new(config: ExecutorConfig, engine: E) -> (r: Self)
        ensures
            r.limits() == config,
            r.inference() == engine,
            r.states() == Map::<Seq<char>, PerSymbolState>::empty(),
    {
        Executor { config, engine, state: SymbolMap::new() }
    }

    fn decision(
        snap: &FeatureSnapshot,
        action: Action,
        confidence: Single,
        reasons: Vec<String>,
        version: &str,
    ) -> (d: Decision)
        ensures
            d@ == decision_on(*snap, action, confidence, texts(reasons@), version@),
    {
        Decision {
            ts_exchange: snap.ts_exchange,
            symbol: snap.symbol.clone(),
            action,
            confidence,
            reason_codes: reasons,
            model_version: version.to_string(),
        }
    }

    fn order_command(snap: &FeatureSnapshot, action: Action) -> (o: OrderCommand)
        requires
            action != Action::NoTrade,
        ensures
            is_order(o, *snap, action),
    {
        let side = if action == Action::Long {
            OrderSide::Buy
        } else {
            OrderSide::Sell
        };
        OrderCommand {
            client_order_id: new_order_id(snap.ts_exchange),
            symbol: snap.symbol.clone(),
            side,
            order_type: OrderType::Market,
            qty: Double::zero(),
            price: None,
            reduce_only: None,
            leverage: None,
            sl: None,
            tp: None,
        }
    }

    /// Carries an inference on a snapshot that passed the gates to its decision and order.
    pub fn on_inference(
        &mut self,
        snap: &FeatureSnapshot,
        out: &InferenceOutput,
    ) -> (r: (Decision, Option<OrderCommand>))
        ensures
            final(self).limits() == old(self).limits(),
            final(self).inference() == old(self).inference(),
            follows(
                old(self).limits(),
                old(self).states(),
                *snap,
                old(self).inference().version(),
                *out,
                final(self).states(),
                r.0@,
                r.1,
            ),
    {
        let state = match self.state.get(snap.symbol.as_str()) {
            Some(s) => *s,
            None => PerSymbolState::default(),
        };
        let v = judge(&self.config, state, snap.ts_exchange, out);
        let order = if self.config.execution_enabled && v.action != Action::NoTrade {
            Some(Self::order_command(snap, v.action))
        } else {
            None
        };
        if let Some(s) = v.next {
            self.state.insert(snap.symbol.as_str(), s);
        }
        let version = self.engine.model_version();
        let d = Self::decision(snap, v.action, v.confidence, v.reasons, version);
        (d, order)
    }

    /// Processes one snapshot. The engine is asked only when all gates pass.
    pub fn on_snapshot(&mut self, snap: &FeatureSnapshot) -> (r: (Decision, Option<OrderCommand>))
        ensures
            final(self).limits() == old(self).limits(),
            final(self).inference() == old(self).inference(),
            decides(
                old(self).limits(),
                old(self).inference(),
                state_of(old(self).states(), snap.symbol@),
                *snap,
                r.0@,
            ),
            forall|sym: Seq<char>| #[trigger]
                state_of(final(self).states(), sym) == if sym == snap.symbol@ {
                    state_next(state_of(old(self).states(), sym), r.0@)
                } else {
                    state_of(old(self).states(), sym)
                },
            orders(old(self).limits().execution_enabled, *snap, r.0@, r.1),
    {
        let expected = self.engine.expected_feature_len();
        let reasons = gate_reasons(&self.config, expected, snap);
        if reasons.len() > 0 {
            let version = self.engine.model_version();
            let d = Self::decision(snap, Action::NoTrade, Single::zero(), reasons, version);
            proof {
                assert(texts(reasons@).len() > 0);
            }
            return (d, None);
        }
        proof {
            assert(texts(reasons@).len() == 0);
        }
        let out = self.engine.predict(snap.features.as_slice());
        proof {
            assert(self.inference().predicts(snap.features@, out));
        }
        self.on_inference(snap, &out)
    }
}

/// The decision on a snapshot that an inference leads to.
pub open spec fn decided(
    c: ExecutorConfig,
    s: PerSymbolState,
    snap: FeatureSnapshot,
    version: Seq<char>,
    out: InferenceOutput,
) -> DecisionModel {
    let v = judged(c, s, snap.ts_exchange, out);
    decision_on(snap, v.action, v.confidence, v.reasons, version)
}

/// `d` is a decision on a snapshot: that of the gates where they refuse it, else that of an
/// inference.
pub open spec fn decides<E: InferenceEngine>(
    c: ExecutorConfig,
    engine: E,
    s: PerSymbolState,
    snap: FeatureSnapshot,
    d: DecisionModel,
) -> bool {
    let codes = gate_codes(c, engine.expected_len(), snap);
    if codes.len() > 0 {
        d == decision_on(snap, Action::NoTrade, single_zero(), codes, engine.version())
    } else {
        exists|out: InferenceOutput| #[trigger]
            engine.predicts(snap.features@, out) && d == decided(c, s, snap, engine.version(), out)
    }
}

/// The state of a symbol after a decision on it: a trade is remembered.
pub open spec fn state_next(s: PerSymbolState, d: DecisionModel) -> PerSymbolState {
    if d.action == Action::NoTrade {
        s
    } else {
        PerSymbolState { last_action: d.action, last_trade_ts_ms: trade_time(d.ts_exchange) }
    }
}

/// The order that goes with a decision: one with each trade where execution is enabled.
pub open spec fn orders(
    enabled: bool,
    snap: FeatureSnapshot,
    d: DecisionModel,
    order: Option<OrderCommand>,
) -> bool {
    match order {
        Some(o) => enabled && d.action != Action::NoTrade && is_order(o, snap, d.action),
        None => !enabled || d.action == Action::NoTrade,
    }
}

/// A decision to trade has a finite confidence of at least the minimum, and comes no sooner
/// after the symbol's last trade than the cooldown.
pub proof fn law_trades_are_cleared(
    c: ExecutorConfig,
    s: PerSymbolState,
    ts_exchange: i64,
    out: InferenceOutput,
)
    requires
        judged(c, s, ts_exchange, out).action != Action::NoTrade,
    ensures
        !out.inference_error,
        out.confidence@ is Fin,
        !less(out.confidence@, c.confidence_min@),
        s.last_trade_ts_ms != 0 ==> trade_time(ts_exchange) >= s.last_trade_ts_ms
            + c.cooldown_ms || c.cooldown_ms == 0,
        judged(c, s, ts_exchange, out).action == Action::Short ==> c.allow_short,
        judged(c, s, ts_exchange, out).next == Some(
            PerSymbolState {
                last_action: judged(c, s, ts_exchange, out).action,
                last_trade_ts_ms: trade_time(ts_exchange),
            },
        ),
{
}

/// Without a trade the state of the symbol stays what it was.
pub proof fn law_no_trade_keeps_state(
    c: ExecutorConfig,
    states: Map<Seq<char>, PerSymbolState>,
    snap: FeatureSnapshot,
    version: Seq<char>,
    out: InferenceOutput,
    after: Map<Seq<char>, PerSymbolState>,
    decision: DecisionModel,
    order: Option<OrderCommand>,
)
    requires
        follows(c, states, snap, version, out, after, decision, order),
        decision.action == Action::NoTrade,
    ensures
        order is None,
        forall|sym: Seq<char>| #[trigger] state_of(after, sym) == state_of(states, sym),
{
}

/// In shadow mode no order ever comes out; with execution enabled one comes with every
/// decision to trade and with no other.
pub proof fn law_shadow_mode(
    c: ExecutorConfig,
    states: Map<Seq<char>, PerSymbolState>,
    snap: FeatureSnapshot,
    version: Seq<char>,
    out: InferenceOutput,
    after: Map<Seq<char>, PerSymbolState>,
    decision: DecisionModel,
    order: Option<OrderCommand>,
)
    requires
        follows(c, states, snap, version, out, after, decision, order),
    ensures
        !c.execution_enabled ==> order is None,
        c.execution_enabled ==> (order is Some <==> decision.action != Action::NoTrade),
{
}

/// One symbol's trades leave the state of the others alone.
pub proof fn law_symbols_are_separate(
    c: ExecutorConfig,
    states: Map<Seq<char>, PerSymbolState>,
    snap: FeatureSnapshot,
    version: Seq<char>,
    out: InferenceOutput,
    after: Map<Seq<char>, PerSymbolState>,
    decision: DecisionModel,
    order: Option<OrderCommand>,
    other: Seq<char>,
)
    requires
        follows(c, states, snap, version, out, after, decision, order),
        other != snap.symbol@,
    ensures
        state_of(after, other) == state_of(states, other),
{
}

/// The signal in a direction is good for a trade: the inference worked, its confidence is finite
/// and reaches the minimum, a short is allowed, and the last trade of the symbol is at least the
/// cooldown ago. After a trade the confidence must also reach the exit threshold, and to turn
/// around the probability of the new direction must reach the entry threshold.
pub open spec fn is_good_signal(
    c: ExecutorConfig,
    s: PerSymbolState,
    ts_exchange: i64,
    out: InferenceOutput,
    direction: Action,
) -> bool {
    let probability = if direction == Action::Long {
        out.p_up@
    } else {
        out.p_down@
    };
    let since = (if ts_exchange > 0 {
        ts_exchange as int
    } else {
        0
    }) - s.last_trade_ts_ms;
    &&& !out.inference_error
    &&& out.confidence@ is Fin
    &&& !less(out.confidence@, c.confidence_min@)
    &&& direction == Action::Short ==> c.allow_short
    &&& s.last_trade_ts_ms == 0 || c.cooldown_ms == 0 || since >= c.cooldown_ms
    &&& s.last_action != Action::NoTrade ==> !less(out.confidence@, c.hysteresis_exit@)
    &&& s.last_action != Action::NoTrade && s.last_action != direction ==> !less(
        probability,
        c.hysteresis_enter@,
    )
}

/// A trade comes exactly where the signal in the direction of the larger probability is good, and
/// it goes in that direction, whatever the last action was. It carries the confidence of the
/// inference and is remembered with its moment.
pub proof fn law_good_signals_are_traded(
    c: ExecutorConfig,
    s: PerSymbolState,
    ts_exchange: i64,
    out: InferenceOutput,
)
    ensures
        ({
            let v = judged(c, s, ts_exchange, out);
            let long = less(out.p_down@, out.p_up@);
            &&& v.action == Action::Long <==> long && is_good_signal(
                c,
                s,
                ts_exchange,
                out,
                Action::Long,
            )
            &&& v.action == Action::Short <==> !long && is_good_signal(
                c,
                s,
                ts_exchange,
                out,
                Action::Short,
            )
            &&& v.action != Action::NoTrade ==> {
                &&& v.confidence == out.confidence
                &&& v.next matches Some(n)
                &&& n.last_action == v.action
                &&& n.last_trade_ts_ms == if ts_exchange > 0 {
                    ts_exchange as int
                } else {
                    0
                }
                &&& v.reasons.len() == 3
                &&& v.reasons[0] == if long {
                    "model_long"@
                } else {
                    "model_short"@
                }
                &&& v.reasons[1] == "passed_gates"@
                &&& v.reasons[2] == "signal_ok"@
            }
            &&& v.action == Action::NoTrade ==> (v.next matches Some(n) ==> n == s)
        }),
{
}

/// The last reason of a refusal names its cause: a failed inference, too little confidence, a
/// short that is not allowed, a cooldown that is not over, or a signal too weak beside the last
/// action.
pub proof fn law_refusals_name_their_cause(
    c: ExecutorConfig,
    s: PerSymbolState,
    ts_exchange: i64,
    out: InferenceOutput,
)
    ensures
        ({
            let v = judged(c, s, ts_exchange, out);
            let long = less(out.p_down@, out.p_up@);
            let now = if ts_exchange > 0 {
                ts_exchange as int
            } else {
                0
            };
            let code = v.reasons.last();
            &&& v.reasons.len() > 0
            &&& code == "inference_error"@ <==> out.inference_error
            &&& code == "confidence_low"@ ==> !(out.confidence@ is Fin) || less(
                out.confidence@,
                c.confidence_min@,
            )
            &&& code == "short_disabled"@ ==> !long && !c.allow_short
            &&& code == "cooldown_active"@ ==> s.last_trade_ts_ms != 0 && c.cooldown_ms > 0 && now
                - s.last_trade_ts_ms < c.cooldown_ms
            &&& code == "hysteresis_hold"@ ==> s.last_action != Action::NoTrade && (less(
                out.confidence@,
                c.hysteresis_exit@,
            ) || (s.last_action == Action::Long && !long && less(
                out.p_down@,
                c.hysteresis_enter@,
            )) || (s.last_action == Action::Short && long && less(
                out.p_up@,
                c.hysteresis_enter@,
            )))
            &&& code == "signal_ok"@ <==> v.action != Action::NoTrade
            &&& out.inference_error ==> v.confidence@ == zero()
            &&& !out.inference_error ==> v.confidence == out.confidence
            &&& code == "cooldown_active"@ || code == "hysteresis_hold"@ ==> v.reasons.len() == 4
                && v.reasons[0] == (if long {
                "model_long"@
            } else {
                "model_short"@
            }) && v.reasons[1] == "passed_gates"@ && v.reasons[2] == "signal_ok"@
            &&& code == "short_disabled"@ ==> v.reasons.len() == 2 && v.reasons[0]
                == "model_short"@
            &&& code == "inference_error"@ || code == "confidence_low"@ ==> v.reasons.len() == 1
            &&& !out.inference_error && (!(out.confidence@ is Fin) || less(
                out.confidence@,
                c.confidence_min@,
            )) ==> code == "confidence_low"@
            &&& v.action == Action::NoTrade ==> code == "inference_error"@ || code
                == "confidence_low"@ || code == "short_disabled"@ || code == "cooldown_active"@
                || code == "hysteresis_hold"@
        }),
{
    lemma_single_zero();
    reveal_strlit("inference_error");
    reveal_strlit("confidence_low");
    reveal_strlit("short_disabled");
    reveal_strlit("cooldown_active");
    reveal_strlit("hysteresis_hold");
    reveal_strlit("signal_ok");
    assert("inference_error"@[0] == 'i' && "inference_error"@.len() == 15);
    assert("confidence_low"@[0] == 'c' && "confidence_low"@.len() == 14);
    assert("short_disabled"@[0] == 's' && "short_disabled"@.len() == 14);
    assert("cooldown_active"@[0] == 'c' && "cooldown_active"@.len() == 15);
    assert("hysteresis_hold"@[0] == 'h' && "hysteresis_hold"@.len() == 15);
    assert("signal_ok"@[0] == 's' && "signal_ok"@.len() == 9);
}

/// A snapshot goes to the engine exactly where it is ready, its latency and its spread are within
/// the limits, the spread is finite, and it has as many features as the engine insists on.
pub proof fn law_gates_pass_within_the_limits(
    c: ExecutorConfig,
    expected: Option<usize>,
    snap: FeatureSnapshot,
)
    ensures
        ({
            let codes = gate_codes(c, expected, snap);
            &&& codes.len() == 0 <==> {
                &&& snap.ready
                &&& snap.data_latency_ms <= c.latency_max_ms
                &&& snap.spread_pct@ is Fin
                &&& !less(c.spread_max_pct@, snap.spread_pct@)
                &&& expected matches Some(n) ==> snap.features@.len() == n
            }
            &&& codes.contains("not_ready"@) <==> !snap.ready
            &&& codes.contains("latency_too_high"@) <==> snap.data_latency_ms > c.latency_max_ms
            &&& codes.contains("spread_too_high"@) <==> !(snap.spread_pct@ is Fin) || less(
                c.spread_max_pct@,
                snap.spread_pct@,
            )
            &&& codes.contains("meta_mismatch"@) <==> (expected matches Some(n)
                && snap.features@.len() != n)
            &&& !snap.ready ==> codes[0] == "not_ready"@
            &&& (expected matches Some(n) && snap.features@.len() != n) ==> codes.last()
                == "meta_mismatch"@
            &&& forall|i: int, j: int|
                0 <= i < codes.len() && 0 <= j < codes.len() && #[trigger] codes[i]
                    == "latency_too_high"@ && #[trigger] codes[j] == "spread_too_high"@ ==> i < j
            &&& codes.len() <= 4
        }),
{
    law_gate_codes(c, expected, snap);
    reveal_strlit("not_ready");
    reveal_strlit("latency_too_high");
    reveal_strlit("spread_too_high");
    reveal_strlit("meta_mismatch");
    assert("not_ready"@[0] == 'n');
    assert("latency_too_high"@[0] == 'l');
    assert("spread_too_high"@[0] == 's');
    assert("meta_mismatch"@[0] == 'm');
    let codes = gate_codes(c, expected, snap);
    let a = code_if(!snap.ready, "not_ready"@);
    let b = code_if(latency_exceeded(c, snap), "latency_too_high"@);
    let d = code_if(spread_exceeded(c, snap), "spread_too_high"@);
    assert forall|i: int| 0 <= i < codes.len() implies (#[trigger] codes[i] == "not_ready"@ ==> !snap.ready)
        && (codes[i] == "latency_too_high"@ ==> snap.data_latency_ms > c.latency_max_ms) && (
    codes[i] == "spread_too_high"@ ==> !(snap.spread_pct@ is Fin) || less(
        c.spread_max_pct@,
        snap.spread_pct@,
    )) && (codes[i] == "meta_mismatch"@ ==> (expected matches Some(n) && snap.features@.len()
        != n)) by {
        if i < a.len() {
            assert(codes[i] == a[i]);
        } else if i < a.len() + b.len() {
            assert(codes[i] == b[i - a.len()]);
        } else if i < a.len() + b.len() + d.len() {
            assert(codes[i] == d[i - a.len() - b.len()]);
        } else {
            assert(codes[i] == "meta_mismatch"@);
        }
    }
}

/// The decision on a snapshot carries the moment and the symbol of the snapshot and the version
/// of the engine. Behind a refusal of the gates there is no trade and no confidence; behind a
/// trade there is an output of the engine for the features of the snapshot that is a good signal
/// in its direction.
pub proof fn law_decisions_follow_the_engine<E: InferenceEngine>(
    c: ExecutorConfig,
    engine: E,
    s: PerSymbolState,
    snap: FeatureSnapshot,
    d: DecisionModel,
)
    requires
        decides(c, engine, s, snap, d),
    ensures
        d.ts_exchange == snap.ts_exchange,
        d.symbol == snap.symbol@,
        d.model_version == engine.version(),
        !snap.ready || snap.data_latency_ms > c.latency_max_ms || !(snap.spread_pct@ is Fin)
            || less(c.spread_max_pct@, snap.spread_pct@) ==> d.action == Action::NoTrade
            && d.confidence@ == zero(),
        d.action != Action::NoTrade ==> exists|out: InferenceOutput| #[trigger]
            engine.predicts(snap.features@, out) && is_good_signal(
                c,
                s,
                snap.ts_exchange,
                out,
                d.action,
            ) && d.confidence == out.confidence,
{
    law_gates_pass_within_the_limits(c, engine.expected_len(), snap);
    lemma_single_zero();
    if gate_codes(c, engine.expected_len(), snap).len() == 0 {
        let out = choose|out: InferenceOutput| #[trigger]
            engine.predicts(snap.features@, out) && d == decided(c, s, snap, engine.version(), out);
        law_good_signals_are_traded(c, s, snap.ts_exchange, out);
    }
}

/// Where execution is enabled a long is bought and a short is sold, at the market, for the
/// symbol of the snapshot; a trade is what the symbol's state remembers, and nothing else is.
pub proof fn law_orders_carry_out_decisions(
    enabled: bool,
    snap: FeatureSnapshot,
    s: PerSymbolState,
    d: DecisionModel,
    order: Option<OrderCommand>,
)
    requires
        orders(enabled, snap, d, order),
    ensures
        order is Some <==> enabled && d.action != Action::NoTrade,
        order matches Some(o) ==> {
            &&& d.action == Action::Long ==> o.side == OrderSide::Buy
            &&& d.action == Action::Short ==> o.side == OrderSide::Sell
            &&& o.symbol@ == snap.symbol@
            &&& o.order_type == OrderType::Market
            &&& o.qty@ == zero()
            &&& o.price is None
        },
        d.action == Action::NoTrade ==> state_next(s, d) == s,
        d.action != Action::NoTrade ==> state_next(s, d).last_action == d.action && state_next(
            s,
            d,
        ).last_trade_ts_ms == if d.ts_exchange > 0 {
            d.ts_exchange as int
        } else {
            0
        },
        fresh_state().last_action == Action::NoTrade,
        fresh_state().last_trade_ts_ms == 0,
{
}

} // verus!
