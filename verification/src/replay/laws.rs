//! Laws of replays: the same input leads to the same output, and a captured pack passes its check.

use super::compare::{far_from, law_finite_is_near_itself, lemma_clean_report, Checked};
use super::engine::{
    emitting, gated, is_decision_run, is_run, is_snapshot_at, is_snapshot_run,
    law_gate_is_idempotent, law_quotes_stay_in_order, bbos_of, monotonic, state_after, window_at,
    ReplayResult,
};
use super::golden::{
    captured_meta, checks_decisions, engine_of, falls_from, gap_of, is_check_run, is_outcome,
    is_stand_in, is_verdict, setup_fault, ticks_of, GoldenPack, PackError, VerificationResult,
};
use super::source::{in_order, ReplayEvent};
use crate::common::events::{texts, DecisionModel};
use crate::common::{BboTick, Decision, FeatureSnapshot};
use crate::executor::config::ExecutorConfig;
use crate::executor::decide::{decided, decides, gate_codes, PerSymbolState};
use crate::executor::inference::{InferenceEngine, InferenceOutput, MockInferenceEngine};
use crate::feature_engine::features::{is_log_return, log_feature, mid_ratio};
use crate::feature_engine::state::{advanced, is_emitted, is_snapshot_of, mid_of, StateModel};
use crate::num::laws::lemma_ratio_is_finite;
use crate::num::model::Num;
use crate::num::single::lemma_single_zero;
use crate::num::{Double, Single};
use vstd::prelude::*;

verus! {

/// The logarithm gives equal numbers for equal numbers.
pub open spec fn settled<F: Fn(Double) -> Double>(ln: F) -> bool {
    forall|x1: Double, y1: Double, x2: Double, y2: Double|
        #[trigger] call_ensures(ln, (x1,), y1) && #[trigger] call_ensures(ln, (x2,), y2) && x1@
            == x2@ ==> y1@ == y2@
}

/// Lists of equal numbers.
pub open spec fn same_numbers(a: Seq<Single>, b: Seq<Single>) -> bool {
    &&& a.len() == b.len()
    &&& forall|i: int| 0 <= i < a.len() ==> (#[trigger] a[i])@ == b[i]@
}

/// Snapshots equal in all fields, their numbers as numbers.
pub open spec fn same_snapshot(a: FeatureSnapshot, b: FeatureSnapshot) -> bool {
    &&& a.ts_exchange == b.ts_exchange
    &&& a.symbol@ == b.symbol@
    &&& same_numbers(a.features@, b.features@)
    &&& a.ready == b.ready
    &&& a.data_latency_ms == b.data_latency_ms
    &&& a.spread_pct@ == b.spread_pct@
    &&& a.feature_version == b.feature_version
}

/// Decisions equal in all fields, their confidence as a number.
pub open spec fn same_decision(a: DecisionModel, b: DecisionModel) -> bool {
    &&& a.ts_exchange == b.ts_exchange
    &&& a.symbol == b.symbol
    &&& a.action == b.action
    &&& a.confidence@ == b.confidence@
    &&& a.reason_codes == b.reason_codes
    &&& a.model_version == b.model_version
}

/// Inferences equal as numbers.
pub open spec fn same_output(a: InferenceOutput, b: InferenceOutput) -> bool {
    &&& a.p_up@ == b.p_up@
    &&& a.p_down@ == b.p_down@
    &&& a.confidence@ == b.confidence@
    &&& a.inference_error == b.inference_error
}

/// The engines give equal inferences for equal features.
pub open spec fn same_engine<E: InferenceEngine>(a: E, b: E) -> bool {
    &&& a.expected_len() == b.expected_len()
    &&& a.version() == b.version()
    &&& forall|f1: Seq<Single>, o1: InferenceOutput, f2: Seq<Single>, o2: InferenceOutput|
        #[trigger] a.predicts(f1, o1) && #[trigger] b.predicts(f2, o2) && same_numbers(f1, f2)
            ==> same_output(o1, o2)
}

proof fn lemma_log_returns_agree<F: Fn(Double) -> Double>(
    ln: F,
    now: Num,
    before: Num,
    a: Option<Num>,
    b: Option<Num>,
)
    requires
        settled(ln),
        is_log_return(ln, now, before, a),
        is_log_return(ln, now, before, b),
    ensures
        a == b,
{
    if let Some(q) = mid_ratio(now, before) {
        let (x1, y1) = choose|x: Double, y: Double|
            x@ == q && #[trigger] call_ensures(ln, (x,), y) && a == log_feature(y@);
        let (x2, y2) = choose|x: Double, y: Double|
            x@ == q && #[trigger] call_ensures(ln, (x,), y) && b == log_feature(y@);
        assert(call_ensures(ln, (x1,), y1));
        assert(call_ensures(ln, (x2,), y2));
    }
}

proof fn lemma_snapshot_agrees<F: Fn(Double) -> Double>(
    ln: F,
    s: StateModel,
    tick: BboTick,
    a: FeatureSnapshot,
    b: FeatureSnapshot,
)
    requires
        settled(ln),
        is_snapshot_of(ln, s, tick, a),
        is_snapshot_of(ln, s, tick, b),
    ensures
        same_snapshot(a, b),
{
    let (p1, q1) = choose|lr1: Option<Num>, lr_window: Option<Num>| #[trigger]
        is_emitted(ln, s, tick, lr1, lr_window, a);
    let (p2, q2) = choose|lr1: Option<Num>, lr_window: Option<Num>| #[trigger]
        is_emitted(ln, s, tick, lr1, lr_window, b);
    assert(is_emitted(ln, s, tick, p1, q1, a));
    assert(is_emitted(ln, s, tick, p2, q2, b));
    if s.ring.samples.len() > 0 {
        lemma_log_returns_agree(ln, mid_of(tick), s.ring.samples.last().0, p1, p2);
    }
    lemma_log_returns_agree(ln, mid_of(tick), advanced(s, tick).ring.samples[0].0, q1, q2);
    assert forall|i: int| 0 <= i < a.features@.len() implies (#[trigger] a.features@[i])@
        == b.features@[i]@ by {
        assert(i == 0 || i == 1 || i == 2 || i == 3);
    }
}

/// The same quotes lead to the same snapshots.
pub proof fn law_snapshots_are_determined<F: Fn(Double) -> Double>(
    ln: F,
    window: nat,
    ticks: Seq<BboTick>,
    a: Seq<FeatureSnapshot>,
    b: Seq<FeatureSnapshot>,
)
    requires
        settled(ln),
        is_snapshot_run(ln, window, ticks, a),
        is_snapshot_run(ln, window, ticks, b),
    ensures
        a.len() == b.len(),
        forall|k: int| 0 <= k < a.len() ==> same_snapshot(#[trigger] a[k], b[k]),
{
    assert forall|k: int| 0 <= k < a.len() implies same_snapshot(#[trigger] a[k], b[k]) by {
        let i = emitting(ticks, window)[k];
        assert(is_snapshot_at(ln, window, ticks, i, a[k]));
        assert(is_snapshot_at(ln, window, ticks, i, b[k]));
        lemma_snapshot_agrees(ln, window_at(ticks, window, i), ticks[i], a[k], b[k]);
    }
}

proof fn lemma_decision_agrees<E: InferenceEngine>(
    c: ExecutorConfig,
    e1: E,
    e2: E,
    s: PerSymbolState,
    a: FeatureSnapshot,
    b: FeatureSnapshot,
    d1: DecisionModel,
    d2: DecisionModel,
)
    requires
        same_engine(e1, e2),
        same_snapshot(a, b),
        decides(c, e1, s, a, d1),
        decides(c, e2, s, b, d2),
    ensures
        same_decision(d1, d2),
{
    assert(gate_codes(c, e1.expected_len(), a) == gate_codes(c, e2.expected_len(), b));
    if gate_codes(c, e1.expected_len(), a).len() == 0 {
        let o1 = choose|out: InferenceOutput| #[trigger]
            e1.predicts(a.features@, out) && d1 == decided(c, s, a, e1.version(), out);
        let o2 = choose|out: InferenceOutput| #[trigger]
            e2.predicts(b.features@, out) && d2 == decided(c, s, b, e2.version(), out);
        assert(e1.predicts(a.features@, o1) && e2.predicts(b.features@, o2));
        assert(same_output(o1, o2));
    }
}

proof fn lemma_states_agree(a: Seq<Decision>, b: Seq<Decision>, k: int, symbol: Seq<char>)
    requires
        0 <= k <= a.len(),
        a.len() == b.len(),
        forall|j: int| 0 <= j < k ==> same_decision((#[trigger] a[j])@, b[j]@),
    ensures
        state_after(a.take(k), symbol) == state_after(b.take(k), symbol),
    decreases k,
{
    if k > 0 {
        lemma_states_agree(a, b, k - 1, symbol);
        assert(a.take(k).drop_last() =~= a.take(k - 1));
        assert(b.take(k).drop_last() =~= b.take(k - 1));
        assert(same_decision(a[k - 1]@, b[k - 1]@));
    }
}

proof fn lemma_decisions_agree<E: InferenceEngine>(
    c: ExecutorConfig,
    e1: E,
    e2: E,
    sa: Seq<FeatureSnapshot>,
    sb: Seq<FeatureSnapshot>,
    a: Seq<Decision>,
    b: Seq<Decision>,
    n: int,
)
    requires
        same_engine(e1, e2),
        sa.len() == sb.len(),
        forall|k: int| 0 <= k < sa.len() ==> same_snapshot(#[trigger] sa[k], sb[k]),
        is_decision_run(c, e1, sa, a),
        is_decision_run(c, e2, sb, b),
        0 <= n <= a.len(),
    ensures
        a.len() == b.len(),
        forall|k: int| 0 <= k < n ==> same_decision((#[trigger] a[k])@, b[k]@),
    decreases n,
{
    if n > 0 {
        let k = n - 1;
        lemma_decisions_agree(c, e1, e2, sa, sb, a, b, k);
        lemma_states_agree(a, b, k, sa[k].symbol@);
        assert(same_snapshot(sa[k], sb[k]));
        assert(decides(c, e1, state_after(a.take(k), sa[k].symbol@), sa[k], a[k]@));
        assert(decides(c, e2, state_after(b.take(k), sb[k].symbol@), sb[k], b[k]@));
        lemma_decision_agrees(
            c,
            e1,
            e2,
            state_after(a.take(k), sa[k].symbol@),
            sa[k],
            sb[k],
            a[k]@,
            b[k]@,
        );
    }
}

/// Replays of the same quotes under the same limits with engines that agree give the same
/// snapshots and the same decisions.
pub proof fn law_replay_is_deterministic<F: Fn(Double) -> Double, E: InferenceEngine>(
    ln: F,
    window: nat,
    c: ExecutorConfig,
    e1: E,
    e2: E,
    wanted1: bool,
    wanted2: bool,
    a: ReplayResult,
    b: ReplayResult,
)
    requires
        settled(ln),
        same_engine(e1, e2),
        a.bbo_ticks@ == b.bbo_ticks@,
        is_run(ln, window, c, e1, wanted1, a),
        is_run(ln, window, c, e2, wanted2, b),
    ensures
        a.snapshots@.len() == b.snapshots@.len(),
        a.decisions@.len() == b.decisions@.len(),
        forall|k: int|
            0 <= k < a.snapshots@.len() ==> same_snapshot(
                #[trigger] a.snapshots@[k],
                b.snapshots@[k],
            ),
        forall|k: int|
            0 <= k < a.decisions@.len() ==> same_decision(
                (#[trigger] a.decisions@[k])@,
                b.decisions@[k]@,
            ),
{
    law_snapshots_are_determined(ln, window, a.bbo_ticks@, a.snapshots@, b.snapshots@);
    lemma_decisions_agree(
        c,
        e1,
        e2,
        a.snapshots@,
        b.snapshots@,
        a.decisions@,
        b.decisions@,
        a.decisions@.len() as int,
    );
}

proof fn lemma_stand_ins_agree(
    a: MockInferenceEngine,
    b: MockInferenceEngine,
    expected_len: Option<usize>,
)
    requires
        is_stand_in(a, expected_len),
        is_stand_in(b, expected_len),
    ensures
        same_engine(a, b),
{
    assert forall|f1: Seq<Single>, o1: InferenceOutput, f2: Seq<Single>, o2: InferenceOutput|
        #[trigger] a.predicts(f1, o1) && #[trigger] b.predicts(f2, o2) && same_numbers(
            f1,
            f2,
        ) implies same_output(o1, o2) by {
        if f1.len() > 0 {
            assert(f1[0]@ == f2[0]@);
        }
    }
}

proof fn lemma_confidence_is_finite(
    c: ExecutorConfig,
    mock: MockInferenceEngine,
    expected_len: Option<usize>,
    s: PerSymbolState,
    snap: FeatureSnapshot,
    d: DecisionModel,
)
    requires
        is_stand_in(mock, expected_len),
        decides(c, mock, s, snap, d),
    ensures
        d.confidence@ is Fin,
{
    lemma_single_zero();
    if gate_codes(c, mock.expected_len(), snap).len() == 0 {
        let out = choose|out: InferenceOutput| #[trigger]
            mock.predicts(snap.features@, out) && d == decided(c, s, snap, mock.version(), out);
        assert(mock.predicts(snap.features@, out));
        lemma_ratio_is_finite(7, 10);
        lemma_ratio_is_finite(3, 10);
        lemma_ratio_is_finite(65, 100);
        lemma_ratio_is_finite(35, 100);
    }
}

proof fn lemma_nothing_far(a: Seq<Single>, b: Seq<Single>, i: int)
    requires
        0 <= i <= a.len(),
        same_numbers(a, b),
        forall|k: int| 0 <= k < a.len() ==> (#[trigger] a[k])@ is Fin,
    ensures
        far_from(a, b, i) is None,
    decreases a.len() - i,
{
    if i < a.len() {
        law_finite_is_near_itself(a[i]@);
        lemma_nothing_far(a, b, i + 1);
    }
}

proof fn lemma_no_fall(raw: Seq<(u64, BboTick)>, i: int)
    requires
        monotonic(ticks_of(raw)),
    ensures
        falls_from(raw, i) is None,
    decreases raw.len() - i,
{
    if 1 <= i < raw.len() {
        assert(ticks_of(raw)[i - 1].ts_exchange <= ticks_of(raw)[i].ts_exchange);
        lemma_no_fall(raw, i + 1);
    }
}

/// The pack holds what a replay produced, each value under the number of its place.
pub open spec fn captures(pack: GoldenPack, r: ReplayResult) -> bool {
    &&& pack.raw_bbos@.len() == r.bbo_ticks@.len()
    &&& pack.features@.len() == r.snapshots@.len()
    &&& pack.decisions@.len() == r.decisions@.len()
    &&& forall|i: int|
        0 <= i < r.bbo_ticks@.len() ==> (#[trigger] pack.raw_bbos@[i]).0 == i
            && pack.raw_bbos@[i].1 == r.bbo_ticks@[i]
    &&& forall|i: int|
        0 <= i < r.snapshots@.len() ==> (#[trigger] pack.features@[i]).0 == i
            && pack.features@[i].1@ == r.snapshots@[i]@
    &&& forall|i: int|
        0 <= i < r.decisions@.len() ==> (#[trigger] pack.decisions@[i]).0 == i
            && pack.decisions@[i].1@ == r.decisions@[i]@
}

/// No feature is infinite.
pub open spec fn finite_features(snaps: Seq<FeatureSnapshot>) -> bool {
    forall|k: int, i: int|
        0 <= k < snaps.len() && 0 <= i < (#[trigger] snaps[k]).features@.len() ==> (
        #[trigger] snaps[k].features@[i])@ is Fin
}

/// A pack captured from a replay of events in order passes its check under the same setup:
/// whatever the sampling gap, its quotes are in order, and the check finds as many snapshots and
/// decisions as expected and no difference in any.
pub proof fn law_captured_pack_passes<F: Fn(Double) -> Double>(
    ln: F,
    events: Seq<ReplayEvent>,
    window: usize,
    c: ExecutorConfig,
    mock: MockInferenceEngine,
    wanted: bool,
    captured: ReplayResult,
    pack: GoldenPack,
    symbol: Seq<char>,
    from_ts_ms: i64,
    to_ts_ms: i64,
    min_gap_ms: u64,
    limit: Option<u64>,
    risk_config_hash: Option<Seq<char>>,
    verify_decisions: bool,
    r: Result<VerificationResult, PackError>,
)
    requires
        settled(ln),
        in_order(events),
        is_stand_in(mock, mock.expected_feature_len),
        captured.bbo_ticks@ == gated(bbos_of(events), min_gap_ms),
        is_run(ln, window as nat, c, mock, wanted, captured),
        finite_features(captured.snapshots@),
        captures(pack, captured),
        pack.meta is Some,
        pack.meta->Some_0@ == captured_meta(
            symbol,
            from_ts_ms,
            to_ts_ms,
            window,
            mock.expected_feature_len,
            mock.version(),
            min_gap_ms,
            limit,
            risk_config_hash,
        ),
        is_verdict(
            ln,
            pack,
            window,
            c,
            mock.expected_feature_len,
            mock.version(),
            verify_decisions,
            r,
        ),
    ensures
        r is Ok,
        r->Ok_0.clean(),
        r->Ok_0.num_raw_events == captured.bbo_ticks@.len(),
        r->Ok_0.num_snapshots_expected == captured.snapshots@.len(),
        r->Ok_0.num_snapshots_produced == captured.snapshots@.len(),
        verify_decisions ==> r->Ok_0.num_decisions_checked == captured.decisions@.len(),
{
    let m = pack.meta->Some_0;
    let gap = gap_of(pack.meta);
    let len = mock.expected_feature_len;
    assert(m@.min_gap_ms == min_gap_ms);
    assert(setup_fault(pack.meta, window, len) is None) by {
        assert(m@.feature_window == window);
        assert(m@.feature_order == texts(m.feature_order@));
    }
    assert(ticks_of(pack.raw_bbos@) =~= captured.bbo_ticks@) by {
        assert forall|i: int| 0 <= i < captured.bbo_ticks@.len() implies ticks_of(
            pack.raw_bbos@,
        )[i] == captured.bbo_ticks@[i] by {
            assert(pack.raw_bbos@[i].1 == captured.bbo_ticks@[i]);
        }
    }
    law_quotes_stay_in_order(events, min_gap_ms);
    lemma_no_fall(pack.raw_bbos@, 1);
    let checked = checks_decisions(pack.meta, mock.version(), verify_decisions);
    assert(m@.inference_engine == engine_of(mock.version()));
    let run = choose|run: ReplayResult| #[trigger]
        is_check_run(ln, pack.raw_bbos@, window, c, len, gap, run) && is_outcome(
            pack,
            checked,
            run.snapshots@,
            run.decisions@,
            r,
        );
    assert(is_check_run(ln, pack.raw_bbos@, window, c, len, gap, run));
    law_gate_is_idempotent(bbos_of(events), min_gap_ms);
    let other = choose|other: MockInferenceEngine| #[trigger]
        is_stand_in(other, len) && is_run(ln, window as nat, c, other, false, run);
    assert(is_stand_in(other, len));
    lemma_stand_ins_agree(mock, other, len);
    law_replay_is_deterministic(
        ln,
        window as nat,
        c,
        mock,
        other,
        wanted,
        false,
        captured,
        run,
    );
    assert forall|i: int| 0 <= i < pack.features@.len() implies (#[trigger] pack.features@[i]).0
        == i && FeatureSnapshot::mismatch(pack.features@[i].1, run.snapshots@[i]) is None by {
        lemma_snapshot_matches(ln, window, captured, i, pack.features@[i].1, run.snapshots@[i]);
    }
    lemma_clean_report(pack.features@, run.snapshots@);
    assert forall|i: int| 0 <= i < pack.decisions@.len() implies (#[trigger] pack.decisions@[i]).0
        == i && Decision::mismatch(pack.decisions@[i].1, run.decisions@[i]) is None by {
        let d = captured.decisions@[i];
        let e = pack.decisions@[i].1;
        assert(same_decision(d@, run.decisions@[i]@));
        assert(decides(
            c,
            mock,
            state_after(captured.decisions@.take(i), captured.snapshots@[i].symbol@),
            captured.snapshots@[i],
            d@,
        ));
        lemma_confidence_is_finite(
            c,
            mock,
            len,
            state_after(captured.decisions@.take(i), captured.snapshots@[i].symbol@),
            captured.snapshots@[i],
            d@,
        );
        law_finite_is_near_itself(d.confidence@);
        assert(e@ == d@);
        assert(e@.reason_codes == texts(e.reason_codes@));
        assert(run.decisions@[i]@.reason_codes == texts(run.decisions@[i].reason_codes@));
        assert(e@.confidence == e.confidence && d@.confidence == d.confidence);
    }
    lemma_clean_report(pack.decisions@, run.decisions@);
}

proof fn lemma_snapshot_matches<F: Fn(Double) -> Double>(
    ln: F,
    window: usize,
    captured: ReplayResult,
    i: int,
    e: FeatureSnapshot,
    a: FeatureSnapshot,
)
    requires
        is_snapshot_run(ln, window as nat, captured.bbo_ticks@, captured.snapshots@),
        0 <= i < captured.snapshots@.len(),
        finite_features(captured.snapshots@),
        e@ == captured.snapshots@[i]@,
        same_snapshot(captured.snapshots@[i], a),
    ensures
        FeatureSnapshot::mismatch(e, a) is None,
{
    let s = captured.snapshots@[i];
    assert(e@.features == e.features@ && s@.features == s.features@);
    assert(e@.spread_pct == e.spread_pct && s@.spread_pct == s.spread_pct);
    assert forall|k: int| 0 <= k < s.features@.len() implies (#[trigger] s.features@[k])@ is Fin by {
        assert(captured.snapshots@[i].features@[k]@ is Fin);
    }
    let at = emitting(captured.bbo_ticks@, window as nat)[i];
    assert(is_snapshot_at(ln, window as nat, captured.bbo_ticks@, at, s));
    let w = window_at(captured.bbo_ticks@, window as nat, at);
    let tick = captured.bbo_ticks@[at];
    let (p, q) = choose|lr1: Option<Num>, lr_window: Option<Num>| #[trigger]
        is_emitted(ln, w, tick, lr1, lr_window, s);
    assert(is_emitted(ln, w, tick, p, q, s));
    assert(s.features@[2]@ == s.spread_pct@);
    law_finite_is_near_itself(s.spread_pct@);
    lemma_nothing_far(s.features@, a.features@, 0);
}

} // verus!
