//! The replay: recorded quotes through the feature engine and the executor.

use super::source::{in_order, ReplayEvent};
use crate::common::{Action, BboTick, Decision, FeatureSnapshot, OrderCommand};
use crate::executor::config::ExecutorConfig;
use crate::executor::decide::{
    decides, fresh_state, is_order, state_next, state_of, Executor, PerSymbolState,
};
use crate::executor::inference::InferenceEngine;
use crate::feature_engine::state::{
    advanced, emits, is_snapshot_of, symbol_state, FeatureEngine, StateModel,
};
use crate::num::double::double_int;
use crate::num::model::{double_format, less, quotient, truncated, zero, Num};
use crate::num::Double;
use vstd::prelude::*;

verus! {

/// An order with the decision that it carries out.
#[derive(Debug)]
pub struct OrderWithDecision {
    pub order: OrderCommand,
    pub decision: Decision,
}

/// What a replay produced.
#[derive(Debug)]
pub struct ReplayResult {
    /// The quotes that were fed in.
    pub bbo_ticks: Vec<BboTick>,
    pub snapshots: Vec<FeatureSnapshot>,
    pub decisions: Vec<Decision>,
    pub orders: Vec<OrderCommand>,
    pub orders_with_decisions: Vec<OrderWithDecision>,
}

impl ReplayResult {
    pub fn empty() -> (r: Self)
        ensures
            r.bbo_ticks@.len() == 0,
            r.snapshots@.len() == 0,
            r.decisions@.len() == 0,
            r.orders@.len() == 0,
            r.orders_with_decisions@.len() == 0,
    {
        ReplayResult {
            bbo_ticks: Vec::new(),
            snapshots: Vec::new(),
            decisions: Vec::new(),
            orders: Vec::new(),
            orders_with_decisions: Vec::new(),
        }
    }
}

/// The quotes among the events, in their order.
pub open spec fn bbos_of(events: Seq<ReplayEvent>) -> Seq<BboTick>
    decreases events.len(),
{
    if events.len() == 0 {
        Seq::empty()
    } else {
        match events.last() {
            ReplayEvent::Bbo(t) => bbos_of(events.drop_last()).push(t),
            ReplayEvent::Trade(_) => bbos_of(events.drop_last()),
        }
    }
}

/// Milliseconds from one moment to a later one; zero where the second is not later.
pub open spec fn elapsed(from: i64, to: i64) -> int {
    if to > from {
        to - from
    } else {
        0
    }
}

/// Whether a quote passes the sampling filter behind the one that passed last.
pub open spec fn passes(last: Option<i64>, ts: i64, min_gap_ms: u64) -> bool {
    match last {
        Some(l) => min_gap_ms == 0 || elapsed(l, ts) >= min_gap_ms,
        None => true,
    }
}

/// The moment of the last quote.
pub open spec fn last_ts(ticks: Seq<BboTick>) -> Option<i64> {
    if ticks.len() == 0 {
        None
    } else {
        Some(ticks.last().ts_exchange)
    }
}

/// The quotes that pass the sampling filter.
pub open spec fn gated(ticks: Seq<BboTick>, min_gap_ms: u64) -> Seq<BboTick>
    decreases ticks.len(),
{
    if ticks.len() == 0 {
        Seq::empty()
    } else {
        let kept = gated(ticks.drop_last(), min_gap_ms);
        if passes(last_ts(kept), ticks.last().ts_exchange, min_gap_ms) {
            kept.push(ticks.last())
        } else {
            kept
        }
    }
}

fn passes_gate(last: Option<i64>, ts: i64, min_gap_ms: u64) -> (r: bool)
    ensures
        r == passes(last, ts, min_gap_ms),
{
    match last {
        Some(l) => {
            let d: i128 = ts as i128 - l as i128;
            let e: i128 = if d > 0 {
                d
            } else {
                0
            };
            min_gap_ms == 0 || e >= min_gap_ms as i128
        },
        None => true,
    }
}

/// The windows of all symbols after these quotes.
pub open spec fn windows_after(
    ticks: Seq<BboTick>,
    window: nat,
) -> Map<Seq<char>, StateModel>
    decreases ticks.len(),
{
    if ticks.len() == 0 {
        Map::empty()
    } else {
        let m = windows_after(ticks.drop_last(), window);
        let t = ticks.last();
        m.insert(t.symbol@, advanced(symbol_state(m, window, t.symbol@), t))
    }
}

/// The window that a quote meets.
pub open spec fn window_at(ticks: Seq<BboTick>, window: nat, i: int) -> StateModel {
    symbol_state(windows_after(ticks.take(i), window), window, ticks[i].symbol@)
}

/// The places of the quotes that give a snapshot.
pub open spec fn emitting(ticks: Seq<BboTick>, window: nat) -> Seq<int>
    decreases ticks.len(),
{
    if ticks.len() == 0 {
        Seq::empty()
    } else {
        let before = emitting(ticks.drop_last(), window);
        if emits(window_at(ticks, window, ticks.len() - 1), ticks.last()) {
            before.push(ticks.len() - 1)
        } else {
            before
        }
    }
}

/// Snapshot `k` is that of quote `i`.
pub open spec fn is_snapshot_at<F: Fn(Double) -> Double>(
    ln: F,
    window: nat,
    ticks: Seq<BboTick>,
    i: int,
    snap: FeatureSnapshot,
) -> bool {
    0 <= i < ticks.len() && is_snapshot_of(ln, window_at(ticks, window, i), ticks[i], snap)
}

/// The snapshots are those of the quotes that give one, in their order.
pub open spec fn is_snapshot_run<F: Fn(Double) -> Double>(
    ln: F,
    window: nat,
    ticks: Seq<BboTick>,
    snaps: Seq<FeatureSnapshot>,
) -> bool {
    &&& snaps.len() == emitting(ticks, window).len()
    &&& forall|k: int|
        0 <= k < snaps.len() ==> is_snapshot_at(
            ln,
            window,
            ticks,
            emitting(ticks, window)[k],
            #[trigger] snaps[k],
        )
}

/// What the stabilisation knows of a symbol after these decisions.
pub open spec fn state_after(decisions: Seq<Decision>, symbol: Seq<char>) -> PerSymbolState
    decreases decisions.len(),
{
    if decisions.len() == 0 {
        fresh_state()
    } else {
        let before = state_after(decisions.drop_last(), symbol);
        if decisions.last().symbol@ == symbol {
            state_next(before, decisions.last()@)
        } else {
            before
        }
    }
}

/// Each snapshot has its decision.
pub open spec fn is_decision_run<E: InferenceEngine>(
    c: ExecutorConfig,
    engine: E,
    snaps: Seq<FeatureSnapshot>,
    decisions: Seq<Decision>,
) -> bool {
    &&& decisions.len() == snaps.len()
    &&& forall|k: int|
        0 <= k < decisions.len() ==> decides(
            c,
            engine,
            state_after(decisions.take(k), snaps[k].symbol@),
            snaps[k],
            (#[trigger] decisions[k])@,
        )
}

/// The places of the decisions to trade.
pub open spec fn trading(decisions: Seq<Decision>) -> Seq<int>
    decreases decisions.len(),
{
    if decisions.len() == 0 {
        Seq::empty()
    } else {
        let before = trading(decisions.drop_last());
        if decisions.last().action != Action::NoTrade {
            before.push(decisions.len() - 1)
        } else {
            before
        }
    }
}

/// Order `o` carries out decision `i`.
pub open spec fn is_order_at(
    snaps: Seq<FeatureSnapshot>,
    decisions: Seq<Decision>,
    i: int,
    o: OrderCommand,
) -> bool {
    0 <= i < decisions.len() && i < snaps.len() && is_order(o, snaps[i], decisions[i].action)
}

/// Where orders are wanted each decision to trade has its order, else there is none.
pub open spec fn is_order_run(wanted: bool, r: ReplayResult) -> bool {
    let at = if wanted {
        trading(r.decisions@)
    } else {
        Seq::empty()
    };
    &&& r.orders@.len() == at.len()
    &&& r.orders_with_decisions@.len() == at.len()
    &&& forall|k: int|
        0 <= k < at.len() ==> is_order_at(
            r.snapshots@,
            r.decisions@,
            at[k],
            #[trigger] r.orders@[k],
        )
    &&& forall|k: int|
        0 <= k < at.len() ==> (#[trigger] r.orders_with_decisions@[k]).order == r.orders@[k]
            && r.orders_with_decisions@[k].decision@ == r.decisions@[at[k]]@
}

/// `r` is what the quotes in it lead to.
pub open spec fn is_run<F: Fn(Double) -> Double, E: InferenceEngine>(
    ln: F,
    window: nat,
    c: ExecutorConfig,
    engine: E,
    wanted: bool,
    r: ReplayResult,
) -> bool {
    &&& is_snapshot_run(ln, window, r.bbo_ticks@, r.snapshots@)
    &&& is_decision_run(c, engine, r.snapshots@, r.decisions@)
    &&& is_order_run(wanted && c.execution_enabled, r)
}

proof fn lemma_push_tick<F: Fn(Double) -> Double>(
    ln: F,
    window: nat,
    ticks: Seq<BboTick>,
    snaps: Seq<FeatureSnapshot>,
    t: BboTick,
)
    requires
        is_snapshot_run(ln, window, ticks, snaps),
    ensures
        ({
            let s = symbol_state(windows_after(ticks, window), window, t.symbol@);
            let more = ticks.push(t);
            &&& window_at(more, window, ticks.len() as int) == s
            &&& windows_after(more, window) == windows_after(ticks, window).insert(
                t.symbol@,
                advanced(s, t),
            )
            &&& !emits(s, t) ==> is_snapshot_run(ln, window, more, snaps)
            &&& forall|snap: FeatureSnapshot|
                emits(s, t) && #[trigger] is_snapshot_of(ln, s, t, snap) ==> is_snapshot_run(
                    ln,
                    window,
                    more,
                    snaps.push(snap),
                )
        }),
{
    let s = symbol_state(windows_after(ticks, window), window, t.symbol@);
    let more = ticks.push(t);
    let n = ticks.len() as int;
    assert(more.drop_last() =~= ticks);
    assert(more.take(n) =~= ticks);
    assert forall|k: int| 0 <= k < snaps.len() implies is_snapshot_at(
        ln,
        window,
        more,
        emitting(ticks, window)[k],
        #[trigger] snaps[k],
    ) by {
        let i = emitting(ticks, window)[k];
        assert(is_snapshot_at(ln, window, ticks, i, snaps[k]));
        assert(more.take(i) =~= ticks.take(i));
        assert(more[i] == ticks[i]);
    }
    assert forall|snap: FeatureSnapshot| emits(s, t) && #[trigger] is_snapshot_of(
        ln,
        s,
        t,
        snap,
    ) implies is_snapshot_run(ln, window, more, snaps.push(snap)) by {
        let all = snaps.push(snap);
        assert(emitting(more, window) == emitting(ticks, window).push(n));
        assert forall|k: int| 0 <= k < all.len() implies is_snapshot_at(
            ln,
            window,
            more,
            emitting(more, window)[k],
            #[trigger] all[k],
        ) by {
            if k < snaps.len() {
                assert(all[k] == snaps[k]);
                assert(is_snapshot_at(ln, window, more, emitting(ticks, window)[k], snaps[k]));
            } else {
                assert(more[n] == t);
            }
        }
    }
}

proof fn lemma_push_decision<E: InferenceEngine>(
    c: ExecutorConfig,
    engine: E,
    snaps: Seq<FeatureSnapshot>,
    decisions: Seq<Decision>,
    snap: FeatureSnapshot,
    d: Decision,
)
    requires
        is_decision_run(c, engine, snaps, decisions),
        decides(c, engine, state_after(decisions, snap.symbol@), snap, d@),
    ensures
        is_decision_run(c, engine, snaps.push(snap), decisions.push(d)),
{
    let ss = snaps.push(snap);
    let ds = decisions.push(d);
    assert forall|k: int| 0 <= k < ds.len() implies decides(
        c,
        engine,
        state_after(ds.take(k), ss[k].symbol@),
        ss[k],
        (#[trigger] ds[k])@,
    ) by {
        assert(ds.take(k) =~= decisions.take(k));
        if k < decisions.len() {
            assert(ds[k] == decisions[k] && ss[k] == snaps[k]);
            assert(decides(
                c,
                engine,
                state_after(decisions.take(k), snaps[k].symbol@),
                snaps[k],
                decisions[k]@,
            ));
        } else {
            assert(decisions.take(k) =~= decisions);
        }
    }
}

/// A replay in progress.
#[verifier::reject_recursive_types(E)]
pub struct Replay<E: InferenceEngine> {
    features: FeatureEngine,
    executor: Executor<E>,
    wanted: bool,
    min_gap_ms: u64,
    result: ReplayResult,
}

impl<E: InferenceEngine> Replay<E> {
    pub closed spec fn window(self) -> nat {
        self.features.window_size()
    }

    pub closed spec fn limits(self) -> ExecutorConfig {
        self.executor.limits()
    }

    pub closed spec fn inference(self) -> E {
        self.executor.inference()
    }

    pub closed spec fn orders_wanted(self) -> bool {
        self.wanted
    }

    pub closed spec fn gap(self) -> u64 {
        self.min_gap_ms
    }

    /// The quotes that passed the sampling filter so far.
    pub closed spec fn kept(self) -> Seq<BboTick> {
        self.result.bbo_ticks@
    }

    /// What was produced is what the quotes so far lead to.
    pub closed spec fn follows<F: Fn(Double) -> Double>(self, ln: F) -> bool {
        &&& is_run(
            ln,
            self.window(),
            self.limits(),
            self.inference(),
            self.wanted,
            self.result,
        )
        &&& self.features.states() == windows_after(self.kept(), self.window())
        &&& forall|sym: Seq<char>| #[trigger]
            state_of(self.executor.states(), sym) == state_after(self.result.decisions@, sym)
    }

    pub open spec fn same_setup(self, other: Self) -> bool {
        &&& self.window() == other.window()
        &&& self.limits() == other.limits()
        &&& self.inference() == other.inference()
        &&& self.orders_wanted() == other.orders_wanted()
        &&& self.gap() == other.gap()
    }

    pub fn new(
        window: usize,
        config: ExecutorConfig,
        engine: E,
        execution_enabled: bool,
        min_gap_ms: u64,
    ) -> (r: Self)
        ensures
            r.window() == window,
            r.limits() == config,
            r.inference() == engine,
            r.orders_wanted() == execution_enabled,
            r.gap() == min_gap_ms,
            r.kept() == Seq::<BboTick>::empty(),
            r.starts(),
    {
        let r = Replay {
            features: FeatureEngine::new(window),
            executor: Executor::new(config, engine),
            wanted: execution_enabled,
            min_gap_ms,
            result: ReplayResult::empty(),
        };
        proof {
            assert(r.kept() =~= Seq::<BboTick>::empty());
        }
        r
    }

    /// Nothing was fed in yet.
    pub closed spec fn starts(self) -> bool {
        &&& self.result.bbo_ticks@.len() == 0
        &&& self.result.snapshots@.len() == 0
        &&& self.result.decisions@.len() == 0
        &&& self.result.orders@.len() == 0
        &&& self.result.orders_with_decisions@.len() == 0
        &&& self.features.states() == Map::<Seq<char>, StateModel>::empty()
        &&& self.executor.states() == Map::<Seq<char>, PerSymbolState>::empty()
    }

    /// A replay that starts follows any logarithm.
    pub proof fn lemma_starts<F: Fn(Double) -> Double>(self, ln: F)
        requires
            self.starts(),
        ensures
            self.follows(ln),
    {
    }

    /// How long to wait before an event when the recorded time is run at `speed`: the time since
    /// the quote before over the speed, nothing without a positive speed.
    pub fn pause_ms(&self, event: &ReplayEvent, speed: Double) -> (r: u64)
        ensures
            r == pause_before(self.kept(), *event, self.gap(), speed),
    {
        let last = self.last_kept();
        match event {
            ReplayEvent::Bbo(tick) => match last {
                Some(l) => {
                    if !passes_gate(last, tick.ts_exchange, self.min_gap_ms) {
                        return 0;
                    }
                    pause(l, tick.ts_exchange, speed)
                },
                None => 0,
            },
            ReplayEvent::Trade(_) => 0,
        }
    }

    fn last_kept(&self) -> (r: Option<i64>)
        ensures
            r == last_ts(self.kept()),
    {
        let n: usize = self.result.bbo_ticks.len();
        if n == 0 {
            None
        } else {
            Some(self.result.bbo_ticks[n - 1].ts_exchange)
        }
    }

    /// Feeds in an event; trades and quotes that do not pass the sampling filter change nothing.
    pub fn step<F: Fn(Double) -> Double>(&mut self, event: &ReplayEvent, ln: &F)
        requires
            forall|x: Double| #[trigger] call_requires(*ln, (x,)),
            old(self).follows(*ln),
        ensures
            final(self).follows(*ln),
            final(self).same_setup(*old(self)),
            final(self).kept() == match *event {
                ReplayEvent::Bbo(t) => if passes(
                    last_ts(old(self).kept()),
                    t.ts_exchange,
                    old(self).gap(),
                ) {
                    old(self).kept().push(t)
                } else {
                    old(self).kept()
                },
                ReplayEvent::Trade(_) => old(self).kept(),
            },
    {
        match event {
            ReplayEvent::Bbo(tick) => {
                if passes_gate(self.last_kept(), tick.ts_exchange, self.min_gap_ms) {
                    self.feed(tick, ln);
                }
            },
            ReplayEvent::Trade(_) => {},
        }
    }

    /// The decisions and orders are what the snapshots lead to.
    spec fn decided_well(self) -> bool {
        &&& is_decision_run(
            self.limits(),
            self.inference(),
            self.result.snapshots@,
            self.result.decisions@,
        )
        &&& is_order_run(self.wanted && self.limits().execution_enabled, self.result)
        &&& forall|sym: Seq<char>| #[trigger]
            state_of(self.executor.states(), sym) == state_after(self.result.decisions@, sym)
    }

    fn decide(&mut self, snap: FeatureSnapshot)
        requires
            old(self).decided_well(),
        ensures
            final(self).decided_well(),
            final(self).same_setup(*old(self)),
            final(self).features == old(self).features,
            final(self).result.bbo_ticks == old(self).result.bbo_ticks,
            final(self).result.snapshots@ == old(self).result.snapshots@.push(snap),
    {
        let ghost r0 = self.result;
        let ghost c = self.limits();
        let ghost e = self.inference();
        let ghost states = self.executor.states();
        let (decision, order) = self.executor.on_snapshot(&snap);
        proof {
            assert(state_of(states, snap.symbol@) == state_after(r0.decisions@, snap.symbol@));
            lemma_push_decision(c, e, r0.snapshots@, r0.decisions@, snap, decision);
            assert(r0.decisions@.push(decision).drop_last() =~= r0.decisions@);
            assert forall|sym: Seq<char>| #[trigger]
                state_of(self.executor.states(), sym) == state_after(
                    r0.decisions@.push(decision),
                    sym,
                ) by {
                assert(state_of(states, sym) == state_after(r0.decisions@, sym));
            }
        }
        if self.wanted {
            if let Some(o) = order {
                self.result.orders.push(o.clone());
                self.result.orders_with_decisions.push(
                    OrderWithDecision { order: o, decision: decision.clone() },
                );
            }
        }
        self.result.snapshots.push(snap);
        self.result.decisions.push(decision);
        proof {
            lemma_push_order(
                self.wanted && c.execution_enabled,
                r0,
                self.result,
                snap,
                decision,
            );
        }
    }

    fn feed<F: Fn(Double) -> Double>(&mut self, tick: &BboTick, ln: &F)
        requires
            forall|x: Double| #[trigger] call_requires(*ln, (x,)),
            old(self).follows(*ln),
        ensures
            final(self).follows(*ln),
            final(self).same_setup(*old(self)),
            final(self).kept() == old(self).kept().push(*tick),
    {
        proof {
            lemma_push_tick(
                *ln,
                self.window(),
                self.result.bbo_ticks@,
                self.result.snapshots@,
                *tick,
            );
        }
        let produced = self.features.on_bbo(tick, ln);
        self.result.bbo_ticks.push(tick.clone());
        proof {
            assert(self.decided_well());
        }
        if let Some(snap) = produced {
            self.decide(snap);
        }
    }

    /// What was produced.
    pub fn finish<F: Fn(Double) -> Double>(self, ln: &F) -> (r: ReplayResult)
        requires
            self.follows(*ln),
        ensures
            r.bbo_ticks@ == self.kept(),
            is_run(
                *ln,
                self.window(),
                self.limits(),
                self.inference(),
                self.orders_wanted(),
                r,
            ),
    {
        self.result
    }
}

proof fn lemma_push_order(
    wanted: bool,
    r0: ReplayResult,
    r: ReplayResult,
    snap: FeatureSnapshot,
    d: Decision,
)
    requires
        is_order_run(wanted, r0),
        r0.snapshots@.len() == r0.decisions@.len(),
        r.snapshots@ == r0.snapshots@.push(snap),
        r.decisions@ == r0.decisions@.push(d),
        if wanted && d.action != Action::NoTrade {
            &&& r.orders@.len() == r0.orders@.len() + 1
            &&& r.orders@ == r0.orders@.push(r.orders@.last())
            &&& is_order(r.orders@.last(), snap, d.action)
            &&& r.orders_with_decisions@.len() == r0.orders_with_decisions@.len() + 1
            &&& r.orders_with_decisions@ == r0.orders_with_decisions@.push(
                r.orders_with_decisions@.last(),
            )
            &&& r.orders_with_decisions@.last().order == r.orders@.last()
            &&& r.orders_with_decisions@.last().decision@ == d@
        } else {
            r.orders@ == r0.orders@ && r.orders_with_decisions@ == r0.orders_with_decisions@
        },
    ensures
        is_order_run(wanted, r),
{
    assert(r.decisions@.drop_last() =~= r0.decisions@);
    lemma_trading_bounds(r0.decisions@);
    if wanted {
        let at0 = trading(r0.decisions@);
        let at = trading(r.decisions@);
        assert forall|k: int| 0 <= k < at.len() implies is_order_at(
            r.snapshots@,
            r.decisions@,
            at[k],
            #[trigger] r.orders@[k],
        ) by {
            if k < at0.len() {
                assert(r.orders@[k] == r0.orders@[k]);
                assert(is_order_at(r0.snapshots@, r0.decisions@, at0[k], r0.orders@[k]));
            }
        }
        assert forall|k: int| 0 <= k < at.len() implies (
        #[trigger] r.orders_with_decisions@[k]).order == r.orders@[k]
            && r.orders_with_decisions@[k].decision@ == r.decisions@[at[k]]@ by {
            if k < at0.len() {
                assert(r.orders_with_decisions@[k] == r0.orders_with_decisions@[k]);
                assert(0 <= at0[k] < r0.decisions@.len());
            }
        }
    }
}

proof fn lemma_trading_bounds(decisions: Seq<Decision>)
    ensures
        forall|k: int|
            0 <= k < trading(decisions).len() ==> 0 <= #[trigger] trading(decisions)[k]
                < decisions.len(),
    decreases decisions.len(),
{
    if decisions.len() > 0 {
        let before = trading(decisions.drop_last());
        lemma_trading_bounds(decisions.drop_last());
        assert forall|k: int| 0 <= k < trading(decisions).len() implies 0 <= #[trigger] trading(
            decisions,
        )[k] < decisions.len() by {
            if k < before.len() {
                assert(trading(decisions)[k] == before[k]);
            }
        }
    }
}

/// Milliseconds of recorded time, run at `speed`.
pub open spec fn paced(from: i64, to: i64, speed: Num) -> nat {
    if less(zero(), speed) && elapsed(from, to) > 0 {
        truncated(
            double_format(),
            quotient(
                double_format(),
                double_int(elapsed(from, to)),
                speed,
            ),
        )
    } else {
        0
    }
}

/// The wait before an event.
pub open spec fn pause_before(
    kept: Seq<BboTick>,
    event: ReplayEvent,
    min_gap_ms: u64,
    speed: Double,
) -> nat {
    match (event, last_ts(kept)) {
        (ReplayEvent::Bbo(t), Some(l)) => if passes(Some(l), t.ts_exchange, min_gap_ms) {
            paced(l, t.ts_exchange, speed@)
        } else {
            0
        },
        _ => 0,
    }
}

fn pause(from: i64, to: i64, speed: Double) -> (r: u64)
    ensures
        r == paced(from, to, speed@),
{
    let d: i128 = to as i128 - from as i128;
    if !speed.above(Double::zero()) || d <= 0 {
        return 0;
    }
    Double::from_unsigned(d as u64).over(speed).to_unsigned()
}

/// Replays the events: quotes that pass the sampling filter go through the feature engine, its
/// snapshots through the executor. Orders are collected where `execution_enabled` says so.
pub fn run_replay<F: Fn(Double) -> Double, E: InferenceEngine>(
    events: &Vec<ReplayEvent>,
    window: usize,
    config: ExecutorConfig,
    engine: E,
    execution_enabled: bool,
    min_gap_ms: u64,
    ln: &F,
) -> (r: ReplayResult)
    requires
        forall|x: Double| #[trigger] call_requires(*ln, (x,)),
    ensures
        r.bbo_ticks@ == gated(bbos_of(events@), min_gap_ms),
        is_run(*ln, window as nat, config, engine, execution_enabled, r),
{
    let mut replay = Replay::new(window, config, engine, execution_enabled, min_gap_ms);
    let ghost start = replay;
    let mut i: usize = 0;
    proof {
        replay.lemma_starts(*ln);
        assert(events@.take(0) =~= Seq::<ReplayEvent>::empty());
        assert(gated(bbos_of(events@.take(0)), min_gap_ms) =~= Seq::<BboTick>::empty());
    }
    while i < events.len()
        invariant
            forall|x: Double| #[trigger] call_requires(*ln, (x,)),
            i <= events@.len(),
            replay.follows(*ln),
            replay.same_setup(start),
            start.gap() == min_gap_ms,
            replay.kept() == gated(bbos_of(events@.take(i as int)), min_gap_ms),
        decreases events@.len() - i,
    {
        proof {
            let upto = events@.take(i + 1);
            assert(upto.drop_last() =~= events@.take(i as int));
            assert(upto.last() == events@[i as int]);
            if let ReplayEvent::Bbo(t) = events@[i as int] {
                let before = bbos_of(events@.take(i as int));
                assert(before.push(t).drop_last() =~= before);
            }
        }
        replay.step(&events[i], ln);
        i = i + 1;
    }
    proof {
        assert(events@.take(events@.len() as int) =~= events@);
    }
    replay.finish(ln)
}

/// A further quote is kept exactly where none was kept yet, where there is no gap to keep, or
/// where it comes at least the gap after the one kept last. What was kept before stays.
pub proof fn law_sampling_keeps_the_gap(ticks: Seq<BboTick>, t: BboTick, min_gap_ms: u64)
    ensures
        ({
            let kept = gated(ticks, min_gap_ms);
            let more = gated(ticks.push(t), min_gap_ms);
            if kept.len() == 0 || min_gap_ms == 0 || t.ts_exchange - kept.last().ts_exchange
                >= min_gap_ms {
                more == kept.push(t)
            } else {
                more == kept
            }
        }),
{
    assert(ticks.push(t).drop_last() =~= ticks);
}

/// Trades are no quotes, and quotes are taken as they come.
pub proof fn law_quotes_are_taken_as_they_come(events: Seq<ReplayEvent>, e: ReplayEvent)
    ensures
        e matches ReplayEvent::Bbo(t) ==> bbos_of(events.push(e)) == bbos_of(events).push(t),
        e is Trade ==> bbos_of(events.push(e)) == bbos_of(events),
        bbos_of(Seq::empty()) == Seq::<BboTick>::empty(),
{
    assert(events.push(e).drop_last() =~= events);
}

/// Quotes that passed the sampling filter are at least the gap apart, and the first quote always
/// passes.
pub proof fn law_gate_spaces_quotes(ticks: Seq<BboTick>, min_gap_ms: u64, k: int)
    requires
        0 < k < gated(ticks, min_gap_ms).len(),
    ensures
        elapsed(
            gated(ticks, min_gap_ms)[k - 1].ts_exchange,
            gated(ticks, min_gap_ms)[k].ts_exchange,
        ) >= min_gap_ms,
        gated(ticks, min_gap_ms)[0] == ticks[0],
    decreases ticks.len(),
{
    lemma_gated_first(ticks, min_gap_ms);
    let before = gated(ticks.drop_last(), min_gap_ms);
    if k < before.len() {
        law_gate_spaces_quotes(ticks.drop_last(), min_gap_ms, k);
    }
}

proof fn lemma_gated_first(ticks: Seq<BboTick>, min_gap_ms: u64)
    ensures
        ticks.len() > 0 ==> gated(ticks, min_gap_ms).len() > 0 && gated(ticks, min_gap_ms)[0]
            == ticks[0],
        ticks.len() == 0 ==> gated(ticks, min_gap_ms).len() == 0,
    decreases ticks.len(),
{
    if ticks.len() > 0 {
        lemma_gated_first(ticks.drop_last(), min_gap_ms);
    }
}

/// Sampling what passed the sampling filter keeps all of it, and without a gap everything passes.
pub proof fn law_gate_is_idempotent(ticks: Seq<BboTick>, min_gap_ms: u64)
    ensures
        gated(gated(ticks, min_gap_ms), min_gap_ms) == gated(ticks, min_gap_ms),
        gated(ticks, 0) == ticks,
    decreases ticks.len(),
{
    if ticks.len() > 0 {
        law_gate_is_idempotent(ticks.drop_last(), min_gap_ms);
        let kept = gated(ticks.drop_last(), min_gap_ms);
        assert(kept.push(ticks.last()).drop_last() =~= kept);
        assert(gated(ticks, 0) =~= ticks);
    } else {
        assert(gated(ticks, 0) =~= ticks);
    }
}

/// The moments never decrease.
pub open spec fn monotonic(ticks: Seq<BboTick>) -> bool {
    forall|x: int, y: int|
        0 <= x < y < ticks.len() ==> (#[trigger] ticks[x]).ts_exchange <= (
        #[trigger] ticks[y]).ts_exchange
}

/// From events in order come quotes in order, and the sampling filter keeps the order.
pub proof fn law_quotes_stay_in_order(events: Seq<ReplayEvent>, min_gap_ms: u64)
    requires
        in_order(events),
    ensures
        monotonic(bbos_of(events)),
        monotonic(gated(bbos_of(events), min_gap_ms)),
{
    lemma_bbos_monotonic(events);
    lemma_gated_monotonic(bbos_of(events), min_gap_ms);
}

proof fn lemma_bbos_monotonic(events: Seq<ReplayEvent>)
    requires
        in_order(events),
    ensures
        monotonic(bbos_of(events)),
        forall|k: int|
            0 <= k < bbos_of(events).len() ==> events.len() > 0 && (#[trigger] bbos_of(
                events,
            )[k]).ts_exchange <= events.last().time(),
    decreases events.len(),
{
    if events.len() > 0 {
        let before = events.drop_last();
        assert forall|x: int, y: int| 0 <= x < y < before.len() implies #[trigger] before[x].time()
            <= #[trigger] before[y].time() by {
            assert(events[x].time() <= events[y].time());
        }
        lemma_bbos_monotonic(before);
        assert forall|k: int| 0 <= k < bbos_of(before).len() implies (#[trigger] bbos_of(
            before,
        )[k]).ts_exchange <= events.last().time() by {
            let m = events.len() - 2;
            assert(events[m].time() <= events[m + 1].time());
            assert(before.last() == events[m]);
        }
    }
}

proof fn lemma_gated_monotonic(ticks: Seq<BboTick>, min_gap_ms: u64)
    requires
        monotonic(ticks),
    ensures
        monotonic(gated(ticks, min_gap_ms)),
        forall|k: int|
            0 <= k < gated(ticks, min_gap_ms).len() ==> ticks.len() > 0 && (#[trigger] gated(
                ticks,
                min_gap_ms,
            )[k]).ts_exchange <= ticks.last().ts_exchange,
    decreases ticks.len(),
{
    if ticks.len() > 0 {
        let before = ticks.drop_last();
        lemma_gated_monotonic(before, min_gap_ms);
        assert forall|k: int| 0 <= k < gated(before, min_gap_ms).len() implies (#[trigger] gated(
            before,
            min_gap_ms,
        )[k]).ts_exchange <= ticks.last().ts_exchange by {
            let m = ticks.len() - 2;
            assert(before.last() == ticks[m]);
            assert(ticks[m].ts_exchange <= ticks[m + 1].ts_exchange);
        }
    }
}

} // verus!
