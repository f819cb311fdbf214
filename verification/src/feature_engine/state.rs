//! Per-symbol state, and the engine that keeps it.

use super::features::{
    imbalance, imbalance_of, is_log_return, log_feature, log_return_1, log_return_window,
    mid_price, middle, seen, spread_fraction, spread_pct,
};
use super::ring_buffer::{
    accepted, after_pushes, empty_ring, law_ring_holds_latest, RingBuffer, RingModel,
};
use crate::common::{BboTick, FeatureSnapshot};
use crate::num::double::double_int;
use crate::num::model::{
    at_most, difference, double_format, finite_positive, narrowed, quotient, sum, zero, Num,
};
use crate::num::{Double, Single};
use crate::symbols::SymbolMap;
use vstd::prelude::*;

verus! {

/// Version of the feature layout.
pub const FEATURE_VERSION: u32 = 1;

/// Mid prices in a default window.
pub const DEFAULT_WINDOW: usize = 60;

/// Window of mid prices, and what the last tick gave.
#[derive(Debug)]
pub struct PerSymbolState {
    pub symbol: String,
    ring: RingBuffer,
    last_spread_pct: Option<Single>,
    last_imbalance: Single,
}

#[verifier::ext_equal]
pub struct StateModel {
    pub symbol: Seq<char>,
    pub ring: RingModel,
    pub spread_pct: Option<Num>,
    pub imbalance: Num,
}

impl View for PerSymbolState {
    type V = StateModel;

    closed spec fn view(&self) -> StateModel {
        StateModel {
            symbol: self.symbol@,
            ring: self.ring@,
            spread_pct: seen(self.last_spread_pct),
            imbalance: self.last_imbalance@,
        }
    }
}

pub open spec fn new_state(symbol: Seq<char>, window: nat) -> StateModel {
    StateModel { symbol, ring: empty_ring(window), spread_pct: None, imbalance: zero() }
}

pub open spec fn mid_of(tick: BboTick) -> Num {
    middle(tick.bid_price@, tick.ask_price@)
}

/// The state after a tick; one without a finite positive mid price changes nothing.
pub open spec fn advanced(s: StateModel, tick: BboTick) -> StateModel {
    if finite_positive(mid_of(tick)) {
        StateModel {
            symbol: s.symbol,
            ring: s.ring.pushed(mid_of(tick), tick.ts_exchange),
            spread_pct: spread_fraction(tick.bid_price@, tick.ask_price@),
            imbalance: imbalance_of(tick.bid_qty@, tick.ask_qty@),
        }
    } else {
        s
    }
}

/// Whether a tick gives a snapshot.
pub open spec fn emits(s: StateModel, tick: BboTick) -> bool {
    finite_positive(mid_of(tick)) && advanced(s, tick).ring.ready()
}

/// Milliseconds from exchange to ingest, between zero and the largest 32-bit number.
pub open spec fn latency_of(tick: BboTick) -> u32 {
    let d = tick.ts_ingest - tick.ts_exchange;
    if d < 0 {
        0
    } else if d > u32::MAX {
        u32::MAX
    } else {
        d as u32
    }
}

pub open spec fn or_zero(x: Option<Num>) -> Num {
    match x {
        Some(v) => v,
        None => zero(),
    }
}

/// The snapshot of a tick whose log returns are `lr1` and `lr_window`.
pub open spec fn is_snapshot(
    s: StateModel,
    tick: BboTick,
    lr1: Option<Num>,
    lr_window: Option<Num>,
    snap: FeatureSnapshot,
) -> bool {
    let now = advanced(s, tick);
    &&& snap.ts_exchange == tick.ts_exchange
    &&& snap.symbol@ == s.symbol
    &&& snap.features@.len() == 4
    &&& snap.features@[0]@ == or_zero(lr1)
    &&& snap.features@[1]@ == or_zero(lr_window)
    &&& snap.features@[2]@ == or_zero(now.spread_pct)
    &&& snap.features@[3]@ == now.imbalance
    &&& snap.ready == (lr1 is Some && now.spread_pct is Some)
    &&& snap.data_latency_ms == latency_of(tick)
    &&& snap.spread_pct@ == or_zero(now.spread_pct)
    &&& snap.feature_version == FEATURE_VERSION
}

/// The log return of the newest mid price over the one before it.
pub open spec fn is_last_return<F: Fn(Double) -> Double>(
    ln: F,
    s: StateModel,
    tick: BboTick,
    lr1: Option<Num>,
) -> bool {
    if s.ring.samples.len() > 0 {
        is_log_return(ln, mid_of(tick), s.ring.samples.last().0, lr1)
    } else {
        lr1 is None
    }
}

/// The snapshot of a tick with its log returns under the logarithm `ln`.
pub open spec fn is_emitted<F: Fn(Double) -> Double>(
    ln: F,
    s: StateModel,
    tick: BboTick,
    lr1: Option<Num>,
    lr_window: Option<Num>,
    snap: FeatureSnapshot,
) -> bool {
    &&& is_last_return(ln, s, tick, lr1)
    &&& is_log_return(ln, mid_of(tick), advanced(s, tick).ring.samples[0].0, lr_window)
    &&& is_snapshot(s, tick, lr1, lr_window, snap)
}

/// The snapshot of a tick under the logarithm `ln`.
pub open spec fn is_snapshot_of<F: Fn(Double) -> Double>(
    ln: F,
    s: StateModel,
    tick: BboTick,
    snap: FeatureSnapshot,
) -> bool {
    exists|lr1: Option<Num>, lr_window: Option<Num>| #[trigger]
        is_emitted(ln, s, tick, lr1, lr_window, snap)
}

/// What a tick yields under the logarithm `ln`.
pub open spec fn is_reaction<F: Fn(Double) -> Double>(
    ln: F,
    s: StateModel,
    tick: BboTick,
    r: Option<FeatureSnapshot>,
) -> bool {
    match r {
        Some(snap) => emits(s, tick) && is_snapshot_of(ln, s, tick, snap),
        None => !emits(s, tick),
    }
}

fn latency_ms(tick: &BboTick) -> (r: u32)
    ensures
        r == latency_of(*tick),
{
    let d: i128 = tick.ts_ingest as i128 - tick.ts_exchange as i128;
    if d < 0 {
        0
    } else if d > 0xffff_ffff {
        0xffff_ffff
    } else {
        d as u32
    }
}

fn single_or_zero(x: Option<Single>) -> (r: Single)
    ensures
        r@ == or_zero(seen(x)),
{
    match x {
        Some(v) => v,
        None => Single::zero(),
    }
}

impl PerSymbolState {
    pub fn new(symbol: String, window: usize) -> (r: Self)
        ensures
            r@ == new_state(symbol@, window as nat),
    {
        PerSymbolState {
            symbol,
            ring: RingBuffer::new(window),
            last_spread_pct: None,
            last_imbalance: Single::zero(),
        }
    }

    /// Takes in a tick; the snapshot once the window is full.
    pub fn on_bbo<F: Fn(Double) -> Double>(
        &mut self,
        tick: &BboTick,
        ln: &F,
    ) -> (r: Option<FeatureSnapshot>)
        requires
            forall|x: Double| #[trigger] call_requires(*ln, (x,)),
        ensures
            final(self)@ == advanced(old(self)@, *tick),
            is_reaction(*ln, old(self)@, *tick, r),
    {
        let ghost before = self@;
        let mid = mid_price(tick.bid_price, tick.ask_price);
        if !mid.is_finite_positive() {
            return None;
        }
        self.last_spread_pct = spread_pct(tick.bid_price, tick.ask_price);
        self.last_imbalance = imbalance(tick.bid_qty, tick.ask_qty);
        let prev = self.ring.last();
        self.ring.push(mid, tick.ts_exchange);
        proof {
            assert(self@ == advanced(before, *tick));
        }
        if !self.ring.is_ready() {
            return None;
        }
        let first = match self.ring.first() {
            Some(p) => p.0,
            None => mid,
        };
        let lr1 = match prev {
            Some(p) => log_return_1(mid, p.0, ln),
            None => None,
        };
        let lr_window = log_return_window(mid, first, ln);
        let mut features: Vec<Single> = Vec::new();
        features.push(single_or_zero(lr1));
        features.push(single_or_zero(lr_window));
        features.push(single_or_zero(self.last_spread_pct));
        features.push(self.last_imbalance);
        let snap = FeatureSnapshot {
            ts_exchange: tick.ts_exchange,
            symbol: self.symbol.clone(),
            features,
            ready: lr1.is_some() && self.last_spread_pct.is_some(),
            data_latency_ms: latency_ms(tick),
            spread_pct: single_or_zero(self.last_spread_pct),
            feature_version: FEATURE_VERSION,
        };
        proof {
            assert(self@.ring.samples.len() > 0);
            assert(is_emitted(*ln, before, *tick, seen(lr1), seen(lr_window), snap));
            assert(is_snapshot_of(*ln, before, *tick, snap));
        }
        Some(snap)
    }
}

/// The state of a symbol; that of a new symbol is fresh.
pub open spec fn symbol_state(
    states: Map<Seq<char>, StateModel>,
    window: nat,
    symbol: Seq<char>,
) -> StateModel {
    if states.contains_key(symbol) {
        states[symbol]
    } else {
        new_state(symbol, window)
    }
}

/// Turns ticks of any number of symbols into snapshots.
pub struct FeatureEngine {
    state: SymbolMap<PerSymbolState>,
    window: usize,
}

impl FeatureEngine {
    pub closed spec fn states(self) -> Map<Seq<char>, StateModel> {
        self.state@.map_values(|s: PerSymbolState| s@)
    }

    pub closed spec fn window_size(self) -> nat {
        self.window as nat
    }

    pub fn new(window: usize) -> (r: Self)
        ensures
            r.states() == Map::<Seq<char>, StateModel>::empty(),
            r.window_size() == window,
    {
        let r = FeatureEngine { state: SymbolMap::new(), window };
        proof {
            assert(r.states() =~= Map::<Seq<char>, StateModel>::empty());
        }
        r
    }

    pub fn with_default_window() -> (r: Self)
        ensures
            r.states() == Map::<Seq<char>, StateModel>::empty(),
            r.window_size() == DEFAULT_WINDOW,
    {
        Self::new(DEFAULT_WINDOW)
    }

    /// Takes in a tick; the snapshot once the window of its symbol is full.
    pub fn on_bbo<F: Fn(Double) -> Double>(
        &mut self,
        tick: &BboTick,
        ln: &F,
    ) -> (r: Option<FeatureSnapshot>)
        requires
            forall|x: Double| #[trigger] call_requires(*ln, (x,)),
        ensures
            final(self).window_size() == old(self).window_size(),
            ({
                let s = symbol_state(old(self).states(), old(self).window_size(), tick.symbol@);
                &&& final(self).states() == old(self).states().insert(
                    tick.symbol@,
                    advanced(s, *tick),
                )
                &&& is_reaction(*ln, s, *tick, r)
            }),
    {
        let ghost before = self.states();
        let ghost map0 = self.state@;
        let fresh = PerSymbolState::new(tick.symbol.clone(), self.window);
        let ghost fresh_view = fresh@;
        let placeholder = PerSymbolState::new(tick.symbol.clone(), self.window);
        let mut s = match self.state.insert(tick.symbol.as_str(), placeholder) {
            Some(s) => s,
            None => fresh,
        };
        proof {
            assert(s@ == symbol_state(before, self.window_size(), tick.symbol@));
        }
        let r = s.on_bbo(tick, ln);
        let ghost done = s@;
        self.state.insert(tick.symbol.as_str(), s);
        proof {
            assert(self.states() =~= before.insert(tick.symbol@, done));
        }
        r
    }
}

/// A tick of one symbol leaves the windows of the others alone.
pub proof fn law_symbols_are_separate(
    states: Map<Seq<char>, StateModel>,
    window: nat,
    tick: BboTick,
    other: Seq<char>,
)
    requires
        other != tick.symbol@,
    ensures
        symbol_state(
            states.insert(tick.symbol@, advanced(symbol_state(states, window, tick.symbol@), tick)),
            window,
            other,
        ) == symbol_state(states, window, other),
{
}

/// A symbol gives no snapshot before its window is full.
pub proof fn law_no_snapshot_before_window(s: StateModel, tick: BboTick)
    requires
        s.ring.valid(),
        emits(s, tick),
    ensures
        advanced(s, tick).ring.samples.len() >= s.ring.needed(),
        advanced(s, tick).ring.samples.last() == (mid_of(tick), tick.ts_exchange),
{
}

/// The state of a symbol after all these ticks.
pub open spec fn after_ticks(symbol: Seq<char>, window: nat, ticks: Seq<BboTick>) -> StateModel
    decreases ticks.len(),
{
    if ticks.len() == 0 {
        new_state(symbol, window)
    } else {
        advanced(after_ticks(symbol, window, ticks.drop_last()), ticks.last())
    }
}

/// The mid price of a tick: half of the sum of bid and ask.
pub open spec fn tick_mid(t: BboTick) -> Num {
    let f = double_format();
    quotient(f, sum(f, t.bid_price@, t.ask_price@), double_int(2))
}

/// The mid prices of the ticks with their moments.
pub open spec fn tick_mids(ticks: Seq<BboTick>) -> Seq<(Num, i64)> {
    ticks.map_values(|t: BboTick| (tick_mid(t), t.ts_exchange))
}

/// `x` is the logarithm of one mid price over another in single precision; zero where it is not
/// finite.
pub open spec fn is_log_of_ratio<F: Fn(Double) -> Double>(
    ln: F,
    newer: Num,
    older: Num,
    x: Num,
) -> bool {
    exists|q: Double, y: Double|
        {
            &&& q@ == quotient(double_format(), newer, older)
            &&& #[trigger] call_ensures(ln, (q,), y)
            &&& x == if y@ is Fin {
                narrowed(y@)
            } else {
                zero()
            }
        }
}

proof fn lemma_ring_after_ticks(symbol: Seq<char>, window: nat, ticks: Seq<BboTick>)
    requires
        forall|i: int|
            0 <= i < ticks.len() ==> finite_positive(tick_mid(#[trigger] ticks[i])),
    ensures
        after_ticks(symbol, window, ticks).ring == after_pushes(window, tick_mids(ticks)),
        accepted(tick_mids(ticks)) == tick_mids(ticks),
        after_ticks(symbol, window, ticks).symbol == symbol,
    decreases ticks.len(),
{
    if ticks.len() > 0 {
        let before = ticks.drop_last();
        assert forall|i: int| 0 <= i < before.len() implies finite_positive(
            tick_mid(#[trigger] before[i]),
        ) by {
            assert(before[i] == ticks[i]);
        }
        lemma_ring_after_ticks(symbol, window, before);
        assert(tick_mids(ticks).drop_last() =~= tick_mids(before));
        let last = ticks[ticks.len() - 1];
        assert(tick_mids(ticks).last() == (tick_mid(last), last.ts_exchange));
        assert(finite_positive(tick_mid(last)));
        assert(accepted(tick_mids(ticks)) =~= tick_mids(ticks));
    } else {
        assert(tick_mids(ticks) =~= Seq::<(Num, i64)>::empty());
        assert(accepted(tick_mids(ticks)) =~= tick_mids(ticks));
    }
}

/// With a window of two or more, a symbol gives a snapshot with every tick from the window-th on
/// and none before. Its first feature is the logarithm of the newest mid price over the one
/// before it, its second that of the newest over the oldest of the window, and no other mid price
/// has a part in them. It carries the moment and the latency of the tick.
pub proof fn law_returns_span_their_ticks<F: Fn(Double) -> Double>(
    ln: F,
    symbol: Seq<char>,
    window: nat,
    ticks: Seq<BboTick>,
    r: Option<FeatureSnapshot>,
)
    requires
        window >= 2,
        ticks.len() > 0,
        forall|i: int|
            0 <= i < ticks.len() ==> finite_positive(tick_mid(#[trigger] ticks[i])),
        is_reaction(ln, after_ticks(symbol, window, ticks.drop_last()), ticks.last(), r),
    ensures
        r is Some <==> ticks.len() >= window,
        r matches Some(snap) ==> {
            let n = ticks.len();
            let newest = ticks[n - 1];
            &&& snap.features@.len() == 4
            &&& is_log_of_ratio(
                ln,
                tick_mid(newest),
                tick_mid(ticks[n - 2]),
                snap.features@[0]@,
            )
            &&& is_log_of_ratio(
                ln,
                tick_mid(newest),
                tick_mid(ticks[n - window]),
                snap.features@[1]@,
            )
            &&& snap.ts_exchange == newest.ts_exchange
            &&& snap.symbol@ == symbol
            &&& snap.feature_version == 1
        },
{
    let n = ticks.len();
    let before = ticks.drop_last();
    let s = after_ticks(symbol, window, before);
    let tick = ticks.last();
    assert forall|i: int| 0 <= i < before.len() implies finite_positive(
        tick_mid(#[trigger] before[i]),
    ) by {
        assert(before[i] == ticks[i]);
    }
    assert(finite_positive(tick_mid(ticks[n - 1])));
    lemma_ring_after_ticks(symbol, window, before);
    lemma_ring_after_ticks(symbol, window, ticks);
    law_ring_holds_latest(window, tick_mids(before));
    law_ring_holds_latest(window, tick_mids(ticks));
    let now = advanced(s, tick);
    assert(now == after_ticks(symbol, window, ticks));
    let mids = tick_mids(ticks);
    assert(mids.len() == n);
    if let Some(snap) = r {
        let (lr1, lr_window) = choose|lr1: Option<Num>, lr_window: Option<Num>| #[trigger]
            is_emitted(ln, s, tick, lr1, lr_window, snap);
        assert(s.ring.samples.last() == tick_mids(before)[n - 2]);
        assert(before[n - 2] == ticks[n - 2]);
        assert(s.ring.samples.last().0 == tick_mid(ticks[n - 2]));
        assert(now.ring.samples[0] == mids[n - window]);
        assert(now.ring.samples[0].0 == tick_mid(ticks[n - window]));
        assert(finite_positive(tick_mid(ticks[n - 2])));
        assert(finite_positive(tick_mid(ticks[n - window])));
        lemma_return_is_log(ln, mid_of(tick), tick_mid(ticks[n - 2]), lr1);
        lemma_return_is_log(ln, mid_of(tick), tick_mid(ticks[n - window]), lr_window);
    }
}

proof fn lemma_return_is_log<F: Fn(Double) -> Double>(
    ln: F,
    newer: Num,
    older: Num,
    r: Option<Num>,
)
    requires
        finite_positive(newer),
        finite_positive(older),
        is_log_return(ln, newer, older, r),
    ensures
        is_log_of_ratio(ln, newer, older, or_zero(r)),
{
    let (x, y) = choose|x: Double, y: Double|
        x@ == quotient(double_format(), newer, older) && #[trigger] call_ensures(ln, (x,), y) && r
            == log_feature(y@);
    assert(call_ensures(ln, (x,), y));
}

/// A snapshot tells spread and imbalance of its own tick: the spread as a fraction of the mid
/// price, the imbalance as the difference of the quantities over their sum. It is ready exactly
/// where there is a spread and the return over the last tick is finite, and its latency is the
/// time from exchange to ingest, at least zero and at most the largest 32-bit number.
pub proof fn law_snapshots_describe_their_tick<F: Fn(Double) -> Double>(
    ln: F,
    s: StateModel,
    tick: BboTick,
    snap: FeatureSnapshot,
)
    requires
        is_reaction(ln, s, tick, Some(snap)),
    ensures
        ({
            let f = double_format();
            let (bid, ask) = (tick.bid_price@, tick.ask_price@);
            let (b, a) = (tick.bid_qty@, tick.ask_qty@);
            let spread = difference(f, ask, bid);
            let pct = narrowed(quotient(f, spread, tick_mid(tick)));
            let has_spread = spread is Fin && at_most(zero(), spread) && pct is Fin;
            let total = sum(f, b, a);
            let diff = difference(f, b, a);
            let imb = narrowed(quotient(f, diff, total));
            &&& finite_positive(tick_mid(tick))
            &&& snap.features@.len() == 4
            &&& has_spread ==> snap.features@[2]@ == pct
            &&& !has_spread ==> snap.features@[2]@ == zero() && !snap.ready
            &&& snap.spread_pct@ == snap.features@[2]@
            &&& snap.features@[3]@ == if finite_positive(total) && diff is Fin && imb is Fin {
                imb
            } else {
                zero()
            }
            &&& tick.ts_ingest <= tick.ts_exchange ==> snap.data_latency_ms == 0
            &&& 0 <= tick.ts_ingest - tick.ts_exchange <= u32::MAX ==> snap.data_latency_ms
                == tick.ts_ingest - tick.ts_exchange
            &&& tick.ts_ingest - tick.ts_exchange > u32::MAX ==> snap.data_latency_ms == u32::MAX
            &&& snap.ts_exchange == tick.ts_exchange
            &&& snap.symbol@ == s.symbol
            &&& snap.feature_version == 1
            &&& s.ring.samples.len() == 0 ==> !snap.ready && snap.features@[0]@ == zero()
            &&& s.ring.samples.len() > 0 && !(finite_positive(s.ring.samples.last().0)) ==> {
                !snap.ready && snap.features@[0]@ == zero()
            }
            &&& s.ring.samples.len() > 0 && finite_positive(s.ring.samples.last().0) && has_spread
                ==> exists|q: Double, y: Double|
                {
                    &&& q@ == quotient(f, tick_mid(tick), s.ring.samples.last().0)
                    &&& #[trigger] call_ensures(ln, (q,), y)
                    &&& snap.ready == (y@ is Fin)
                }
        }),
{
    let (lr1, lr_window) = choose|lr1: Option<Num>, lr_window: Option<Num>| #[trigger]
        is_emitted(ln, s, tick, lr1, lr_window, snap);
    let now = advanced(s, tick);
    if s.ring.samples.len() > 0 && finite_positive(s.ring.samples.last().0) {
        let (x, y) = choose|x: Double, y: Double|
            x@ == quotient(double_format(), mid_of(tick), s.ring.samples.last().0)
                && #[trigger] call_ensures(ln, (x,), y) && lr1 == log_feature(y@);
        assert(call_ensures(ln, (x,), y));
    }
}

/// A tick is taken in exactly where its mid price is finite and positive; then the symbol's
/// window holds it as its newest. Any other tick changes nothing and gives nothing.
pub proof fn law_ticks_without_a_mid_are_ignored<F: Fn(Double) -> Double>(
    ln: F,
    s: StateModel,
    tick: BboTick,
    r: Option<FeatureSnapshot>,
)
    requires
        is_reaction(ln, s, tick, r),
    ensures
        !finite_positive(tick_mid(tick)) ==> r is None && advanced(s, tick) == s,
        finite_positive(tick_mid(tick)) && s.ring.capacity > 0 ==> {
            &&& advanced(s, tick).ring.samples.last() == (tick_mid(tick), tick.ts_exchange)
            &&& r is Some <==> advanced(s, tick).ring.samples.len() >= 2 && advanced(
                s,
                tick,
            ).ring.samples.len() >= s.ring.capacity
        },
{
}

} // verus!
