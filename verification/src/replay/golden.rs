//! Golden packs: captured quotes with the snapshots and decisions that are expected of them.

use super::compare::{
    issue_views, law_clean_report, law_equal_decisions_agree, law_equal_snapshots_agree, listed,
    near, report, report_of, Checked, DecisionField, FeatureField, Issue,
};
use super::engine::{gated, is_run, law_gate_is_idempotent, law_gate_spaces_quotes, Replay, ReplayResult};
use super::source::ReplayEvent;
use crate::common::events::{clone_texts, same_texts, texts};
use crate::common::{BboTick, Decision, FeatureSnapshot};
use crate::executor::config::ExecutorConfig;
use crate::executor::inference::{InferenceEngine, MockInferenceEngine};
use crate::json::{json_document, parse_json, Json};
use crate::num::single::single_ratio;
use crate::num::Double;
use crate::text::parts::{contains_text, has_part};
use crate::text::words::{same_text, text_of};
use vstd::prelude::*;

verus! {

/// The setup that a pack was captured with.
#[derive(Debug)]
pub struct GoldenMeta {
    pub symbol: String,
    pub from_ts_ms: i64,
    pub to_ts_ms: i64,
    pub feature_window: usize,
    pub feature_version: u32,
    pub feature_order: Vec<String>,
    pub expected_feature_len: usize,
    pub min_gap_ms: u64,
    pub limit: Option<u64>,
    /// `mock` or `onnx`.
    pub inference_engine: String,
    pub risk_config_hash: Option<String>,
    pub model_version: Option<String>,
}

#[verifier::ext_equal]
pub struct MetaModel {
    pub symbol: Seq<char>,
    pub from_ts_ms: i64,
    pub to_ts_ms: i64,
    pub feature_window: usize,
    pub feature_version: u32,
    pub feature_order: Seq<Seq<char>>,
    pub expected_feature_len: usize,
    pub min_gap_ms: u64,
    pub limit: Option<u64>,
    pub inference_engine: Seq<char>,
    pub risk_config_hash: Option<Seq<char>>,
    pub model_version: Option<Seq<char>>,
}

impl View for GoldenMeta {
    type V = MetaModel;

    open spec fn view(&self) -> MetaModel {
        MetaModel {
            symbol: self.symbol@,
            from_ts_ms: self.from_ts_ms,
            to_ts_ms: self.to_ts_ms,
            feature_window: self.feature_window,
            feature_version: self.feature_version,
            feature_order: texts(self.feature_order@),
            expected_feature_len: self.expected_feature_len,
            min_gap_ms: self.min_gap_ms,
            limit: self.limit,
            inference_engine: self.inference_engine@,
            risk_config_hash: text_of(self.risk_config_hash),
            model_version: text_of(self.model_version),
        }
    }
}

fn copy_text(s: &Option<String>) -> (r: Option<String>)
    ensures
        text_of(r) == text_of(*s),
{
    match s {
        Some(t) => Some(t.clone()),
        None => None,
    }
}

impl Clone for GoldenMeta {
    fn clone(&self) -> (r: Self)
        ensures
            r@ == self@,
    {
        GoldenMeta {
            symbol: self.symbol.clone(),
            from_ts_ms: self.from_ts_ms,
            to_ts_ms: self.to_ts_ms,
            feature_window: self.feature_window,
            feature_version: self.feature_version,
            feature_order: clone_texts(&self.feature_order),
            expected_feature_len: self.expected_feature_len,
            min_gap_ms: self.min_gap_ms,
            limit: self.limit,
            inference_engine: self.inference_engine.clone(),
            risk_config_hash: copy_text(&self.risk_config_hash),
            model_version: copy_text(&self.model_version),
        }
    }
}

/// The symbol of packs that do not say theirs.
pub fn default_symbol() -> (r: String)
    ensures
        r@ == "UNKNOWN"@,
{
    "UNKNOWN".to_string()
}

/// A quote with its number.
#[derive(Debug)]
pub struct GoldenBbo {
    pub seq: u64,
    pub tick: BboTick,
}

/// A snapshot with its number.
#[derive(Debug)]
pub struct GoldenFeature {
    pub seq: u64,
    pub snapshot: FeatureSnapshot,
}

/// A decision with its number.
#[derive(Debug)]
pub struct GoldenDecision {
    pub seq: u64,
    pub decision: Decision,
}

/// The quotes under the numbers of their places.
pub fn golden_bbos(ticks: &Vec<BboTick>) -> (r: Vec<GoldenBbo>)
    ensures
        r@.len() == ticks@.len(),
        forall|i: int|
            0 <= i < r@.len() ==> (#[trigger] r@[i]).seq == i && r@[i].tick == ticks@[i],
{
    let mut r: Vec<GoldenBbo> = Vec::new();
    let mut i: usize = 0;
    while i < ticks.len()
        invariant
            i <= ticks@.len(),
            r@.len() == i,
            forall|j: int|
                0 <= j < i ==> (#[trigger] r@[j]).seq == j && r@[j].tick == ticks@[j],
        decreases ticks@.len() - i,
    {
        r.push(GoldenBbo { seq: i as u64, tick: ticks[i].clone() });
        i = i + 1;
    }
    r
}

/// The snapshots under the numbers of their places.
pub fn golden_features(snaps: &Vec<FeatureSnapshot>) -> (r: Vec<GoldenFeature>)
    ensures
        r@.len() == snaps@.len(),
        forall|i: int|
            0 <= i < r@.len() ==> (#[trigger] r@[i]).seq == i && r@[i].snapshot@ == snaps@[i]@,
{
    let mut r: Vec<GoldenFeature> = Vec::new();
    let mut i: usize = 0;
    while i < snaps.len()
        invariant
            i <= snaps@.len(),
            r@.len() == i,
            forall|j: int|
                0 <= j < i ==> (#[trigger] r@[j]).seq == j && r@[j].snapshot@ == snaps@[j]@,
        decreases snaps@.len() - i,
    {
        r.push(GoldenFeature { seq: i as u64, snapshot: snaps[i].clone() });
        i = i + 1;
    }
    r
}

/// The decisions under the numbers of their places.
pub fn golden_decisions(decisions: &Vec<Decision>) -> (r: Vec<GoldenDecision>)
    ensures
        r@.len() == decisions@.len(),
        forall|i: int|
            0 <= i < r@.len() ==> (#[trigger] r@[i]).seq == i && r@[i].decision@ == decisions@[i]@,
{
    let mut r: Vec<GoldenDecision> = Vec::new();
    let mut i: usize = 0;
    while i < decisions.len()
        invariant
            i <= decisions@.len(),
            r@.len() == i,
            forall|j: int|
                0 <= j < i ==> (#[trigger] r@[j]).seq == j && r@[j].decision@ == decisions@[j]@,
        decreases decisions@.len() - i,
    {
        r.push(GoldenDecision { seq: i as u64, decision: decisions[i].clone() });
        i = i + 1;
    }
    r
}

/// What a line of a pack holds.
#[derive(Debug)]
pub enum PackLine<T> {
    /// Nothing but white space.
    Blank,
    Numbered(u64, T),
    /// A value without a number, as in packs without meta data.
    Plain(T),
    /// No value.
    Broken,
}

/// The value on line `i` under its number; the number of the line where it has none.
pub open spec fn row_on<T>(line: PackLine<T>, i: int) -> Seq<(u64, T)> {
    match line {
        PackLine::Numbered(seq, t) => seq![(seq, t)],
        PackLine::Plain(t) => seq![(i as u64, t)],
        _ => Seq::empty(),
    }
}

/// The values on the lines under their numbers.
pub open spec fn rows_on<T>(lines: Seq<PackLine<T>>) -> Seq<(u64, T)>
    decreases lines.len(),
{
    if lines.len() == 0 {
        Seq::empty()
    } else {
        rows_on(lines.drop_last()) + row_on(lines.last(), lines.len() - 1)
    }
}

pub open spec fn intact<T>(lines: Seq<PackLine<T>>) -> bool {
    forall|i: int| 0 <= i < lines.len() ==> !(#[trigger] lines[i] is Broken)
}

/// The values on the lines under their numbers, or the first line that holds none.
pub fn number_lines<T>(lines: Vec<PackLine<T>>) -> (r: Result<Vec<(u64, T)>, usize>)
    ensures
        match r {
            Ok(rows) => intact(lines@) && rows@ == rows_on(lines@),
            Err(i) => i < lines@.len() && lines@[i as int] is Broken && intact(
                lines@.take(i as int),
            ),
        },
{
    let ghost all = lines@;
    let mut rows: Vec<(u64, T)> = Vec::new();
    let mut i: usize = 0;
    let n: usize = lines.len();
    proof {
        assert(rows@ =~= rows_on(all.take(0)));
    }
    for line in it: lines
        invariant
            it.seq() == all,
            i == it.index(),
            n == all.len(),
            i <= n,
            intact(all.take(i as int)),
            rows@ == rows_on(all.take(i as int)),
    {
        let ghost before = rows@;
        let ghost upto = all.take(i + 1);
        proof {
            assert(upto.drop_last() =~= all.take(i as int));
            assert(upto.last() == all[i as int]);
        }
        match line {
            PackLine::Blank => {},
            PackLine::Numbered(seq, t) => {
                rows.push((seq, t));
            },
            PackLine::Plain(t) => {
                rows.push((i as u64, t));
            },
            PackLine::Broken => return Err(i),
        }
        i = i + 1;
        proof {
            assert(rows@ =~= before + row_on(upto.last(), i - 1));
        }
    }
    proof {
        assert(all.take(all.len() as int) =~= all);
    }
    Ok(rows)
}

/// Whether the file with this first line lacks numbers, where `doc` is what the line holds.
pub fn lacks_numbers(doc: &Option<Json>) -> (r: bool)
    ensures
        r == (match *doc {
            Some(v) => v.field("seq"@) is None,
            None => true,
        }),
{
    match doc {
        Some(v) => v.get("seq").is_none(),
        None => true,
    }
}

/// Whether the file with this first line lacks numbers; a file without lines does.
pub fn needs_upgrade(first_line: &Option<Vec<u8>>) -> (r: bool)
    ensures
        r == (match *first_line {
            Some(line) => match json_document(line@) {
                Some(v) => v.field("seq"@) is None,
                None => true,
            },
            None => true,
        }),
{
    match first_line {
        Some(line) => lacks_numbers(&parse_json(line.as_slice())),
        None => true,
    }
}

/// The features of a snapshot, in their order.
pub open spec fn feature_names() -> Seq<Seq<char>> {
    seq!["log_return_1"@, "log_return_window"@, "spread_pct"@, "imbalance"@]
}

pub fn feature_order() -> (r: Vec<String>)
    ensures
        texts(r@) == feature_names(),
{
    let mut r: Vec<String> = Vec::new();
    r.push("log_return_1".to_string());
    r.push("log_return_window".to_string());
    r.push("spread_pct".to_string());
    r.push("imbalance".to_string());
    proof {
        assert(texts(r@) =~= feature_names());
    }
    r
}

/// Length of the features of a snapshot.
pub const FEATURE_COUNT: usize = 4;

/// The kind of engine that a model version belongs to.
pub open spec fn engine_of(version: Seq<char>) -> Seq<char> {
    if has_part(version, "mock"@) {
        "mock"@
    } else {
        "onnx"@
    }
}

pub fn engine_kind(version: &str) -> (r: &'static str)
    ensures
        r@ == engine_of(version@),
{
    if contains_text(version, "mock") {
        "mock"
    } else {
        "onnx"
    }
}

/// The meta data of a capture.
pub open spec fn captured_meta(
    symbol: Seq<char>,
    from_ts_ms: i64,
    to_ts_ms: i64,
    window: usize,
    expected_len: Option<usize>,
    version: Seq<char>,
    min_gap_ms: u64,
    limit: Option<u64>,
    risk_config_hash: Option<Seq<char>>,
) -> MetaModel {
    MetaModel {
        symbol,
        from_ts_ms,
        to_ts_ms,
        feature_window: window,
        feature_version: 1,
        feature_order: feature_names(),
        expected_feature_len: match expected_len {
            Some(n) => n,
            None => FEATURE_COUNT,
        },
        min_gap_ms,
        limit,
        inference_engine: engine_of(version),
        risk_config_hash,
        model_version: if has_part(version, "mock"@) {
            None
        } else {
            Some(version)
        },
    }
}

/// The meta data of a capture with this engine.
pub fn capture_meta<E: InferenceEngine>(
    symbol: &str,
    from_ts_ms: i64,
    to_ts_ms: i64,
    window: usize,
    engine: &E,
    min_gap_ms: u64,
    limit: Option<u64>,
    risk_config_hash: Option<String>,
) -> (r: GoldenMeta)
    ensures
        r@ == captured_meta(
            symbol@,
            from_ts_ms,
            to_ts_ms,
            window,
            engine.expected_len(),
            engine.version(),
            min_gap_ms,
            limit,
            text_of(risk_config_hash),
        ),
{
    let version = engine.model_version();
    let expected_feature_len: usize = match engine.expected_feature_len() {
        Some(n) => n,
        None => FEATURE_COUNT,
    };
    let model_version = if contains_text(version, "mock") {
        None
    } else {
        Some(version.to_string())
    };
    GoldenMeta {
        symbol: symbol.to_string(),
        from_ts_ms,
        to_ts_ms,
        feature_window: window,
        feature_version: 1,
        feature_order: feature_order(),
        expected_feature_len,
        min_gap_ms,
        limit,
        inference_engine: engine_kind(version).to_string(),
        risk_config_hash,
        model_version,
    }
}

/// The meta data given to a pack that has none: what it does not say is left open.
pub fn legacy_meta(window: usize, features: &Vec<(u64, FeatureSnapshot)>) -> (r: GoldenMeta)
    ensures
        r@ == (MetaModel {
            symbol: "UNKNOWN"@,
            from_ts_ms: 0,
            to_ts_ms: 0,
            feature_window: window,
            feature_version: 1,
            feature_order: feature_names(),
            expected_feature_len: if features@.len() > 0 {
                features@[0].1.features@.len() as usize
            } else {
                FEATURE_COUNT
            },
            min_gap_ms: 0,
            limit: None,
            inference_engine: "mock"@,
            risk_config_hash: None,
            model_version: None,
        }),
{
    let expected_feature_len: usize = if features.len() > 0 {
        features[0].1.features.len()
    } else {
        FEATURE_COUNT
    };
    GoldenMeta {
        symbol: default_symbol(),
        from_ts_ms: 0,
        to_ts_ms: 0,
        feature_window: window,
        feature_version: 1,
        feature_order: feature_order(),
        expected_feature_len,
        min_gap_ms: 0,
        limit: None,
        inference_engine: "mock".to_string(),
        risk_config_hash: None,
        model_version: None,
    }
}

/// A pack as it was read.
#[derive(Debug)]
pub struct GoldenPack {
    /// Old packs have none.
    pub meta: Option<GoldenMeta>,
    pub raw_bbos: Vec<(u64, BboTick)>,
    pub features: Vec<(u64, FeatureSnapshot)>,
    /// Read only where decisions are checked.
    pub decisions: Vec<(u64, Decision)>,
}

/// Why a pack cannot be checked.
#[derive(Clone, Copy, Debug, PartialEq, Eq, Structural)]
pub enum PackError {
    /// Captured with another window.
    Window { meta: usize, current: usize },
    /// Captured with another feature length than the engine insists on.
    FeatureLen { meta: usize, engine: usize },
    /// Captured with another feature length than snapshots have.
    DefaultFeatureLen { meta: usize },
    /// Captured with other features.
    FeatureOrder,
    /// The quote at this place comes before the one that stands before it.
    NotMonotonic { place: usize },
    /// Another number of snapshots than expected.
    SnapshotCount { expected: usize, actual: usize },
    /// Another number of decisions than expected.
    DecisionCount { expected: usize, actual: usize },
}

/// Why the setup differs from the one that a pack was captured with.
pub open spec fn setup_fault(
    meta: Option<GoldenMeta>,
    window: usize,
    expected_len: Option<usize>,
) -> Option<PackError> {
    match meta {
        None => None,
        Some(m) => if m.feature_window != window {
            Some(PackError::Window { meta: m.feature_window, current: window })
        } else if expected_len matches Some(n) && m.expected_feature_len != n {
            Some(
                PackError::FeatureLen {
                    meta: m.expected_feature_len,
                    engine: expected_len->Some_0,
                },
            )
        } else if expected_len is None && m.expected_feature_len != FEATURE_COUNT {
            Some(PackError::DefaultFeatureLen { meta: m.expected_feature_len })
        } else if texts(m.feature_order@) != feature_names() {
            Some(PackError::FeatureOrder)
        } else {
            None
        },
    }
}

/// Whether decisions are checked: where that is wanted, and the pack was captured with the kind
/// of engine at hand.
pub open spec fn checks_decisions(
    meta: Option<GoldenMeta>,
    version: Seq<char>,
    wanted: bool,
) -> bool {
    match meta {
        Some(m) => wanted && m.inference_engine@ == engine_of(version),
        None => wanted,
    }
}

/// Whether decisions are checked, or why the setup is not that of the pack.
pub fn check_setup<E: InferenceEngine>(
    meta: &Option<GoldenMeta>,
    window: usize,
    engine: &E,
    verify_decisions: bool,
) -> (r: Result<bool, PackError>)
    ensures
        match setup_fault(*meta, window, engine.expected_len()) {
            Some(e) => r == Err::<bool, PackError>(e),
            None => r == Ok::<bool, PackError>(
                checks_decisions(*meta, engine.version(), verify_decisions),
            ),
        },
{
    match meta {
        None => Ok(verify_decisions),
        Some(m) => {
            if m.feature_window != window {
                return Err(PackError::Window { meta: m.feature_window, current: window });
            }
            match engine.expected_feature_len() {
                Some(n) => {
                    if m.expected_feature_len != n {
                        return Err(
                            PackError::FeatureLen { meta: m.expected_feature_len, engine: n },
                        );
                    }
                },
                None => {
                    if m.expected_feature_len != FEATURE_COUNT {
                        return Err(
                            PackError::DefaultFeatureLen { meta: m.expected_feature_len },
                        );
                    }
                },
            }
            if !same_texts(&m.feature_order, &feature_order()) {
                return Err(PackError::FeatureOrder);
            }
            let kind = engine_kind(engine.model_version());
            Ok(verify_decisions && same_text(m.inference_engine.as_str(), kind))
        },
    }
}

pub open spec fn ticks_of(raw: Seq<(u64, BboTick)>) -> Seq<BboTick> {
    raw.map_values(|p: (u64, BboTick)| p.1)
}

/// The first place from `i` on whose quote comes before the one that stands before it.
pub open spec fn falls_from(raw: Seq<(u64, BboTick)>, i: int) -> Option<int>
    decreases raw.len() - i,
{
    if i < 1 || i >= raw.len() {
        None
    } else if raw[i].1.ts_exchange < raw[i - 1].1.ts_exchange {
        Some(i)
    } else {
        falls_from(raw, i + 1)
    }
}

fn first_fall(raw: &Vec<(u64, BboTick)>) -> (r: Option<usize>)
    ensures
        match falls_from(raw@, 1) {
            Some(i) => r matches Some(j) && i == j,
            None => r is None,
        },
{
    if raw.len() < 2 {
        return None;
    }
    let mut i: usize = 1;
    while i < raw.len()
        invariant
            1 <= i <= raw@.len(),
            falls_from(raw@, 1) == falls_from(raw@, i as int),
        decreases raw@.len() - i,
    {
        if raw[i].1.ts_exchange < raw[i - 1].1.ts_exchange {
            return Some(i);
        }
        i = i + 1;
    }
    None
}

/// An engine with a bias to long that insists on this feature length.
pub open spec fn is_stand_in(mock: MockInferenceEngine, expected_len: Option<usize>) -> bool {
    &&& mock.p_up@ == single_ratio(7, 10)
    &&& mock.p_down@ == single_ratio(3, 10)
    &&& mock.expected_feature_len == expected_len
}

/// `run` is a replay of the quotes with a stand-in engine, without orders.
pub open spec fn is_check_run<F: Fn(Double) -> Double>(
    ln: F,
    raw: Seq<(u64, BboTick)>,
    window: usize,
    config: ExecutorConfig,
    expected_len: Option<usize>,
    min_gap_ms: u64,
    run: ReplayResult,
) -> bool {
    &&& run.bbo_ticks@ == gated(ticks_of(raw), min_gap_ms)
    &&& exists|mock: MockInferenceEngine| #[trigger]
        is_stand_in(mock, expected_len) && is_run(ln, window as nat, config, mock, false, run)
}

/// Replays the quotes of a pack. Whatever the engine, a mock engine with its feature length
/// stands in for it.
pub fn verify_synchronous<F: Fn(Double) -> Double, E: InferenceEngine>(
    raw_bbos: &Vec<(u64, BboTick)>,
    window: usize,
    config: ExecutorConfig,
    engine: &E,
    min_gap_ms: u64,
    ln: &F,
) -> (r: ReplayResult)
    requires
        forall|x: Double| #[trigger] call_requires(*ln, (x,)),
    ensures
        is_check_run(*ln, raw_bbos@, window, config, engine.expected_len(), min_gap_ms, r),
{
    let long = MockInferenceEngine::long_bias();
    let mock = match engine.expected_feature_len() {
        Some(n) => long.with_expected_feature_len(n),
        None => long,
    };
    let mut replay = Replay::new(window, config, mock, false, min_gap_ms);
    let ghost start = replay;
    let mut i: usize = 0;
    proof {
        replay.lemma_starts(*ln);
        assert(ticks_of(raw_bbos@).take(0) =~= Seq::<BboTick>::empty());
        assert(gated(ticks_of(raw_bbos@).take(0), min_gap_ms) =~= Seq::<BboTick>::empty());
    }
    while i < raw_bbos.len()
        invariant
            forall|x: Double| #[trigger] call_requires(*ln, (x,)),
            i <= raw_bbos@.len(),
            replay.follows(*ln),
            replay.same_setup(start),
            start.gap() == min_gap_ms,
            replay.kept() == gated(ticks_of(raw_bbos@).take(i as int), min_gap_ms),
        decreases raw_bbos@.len() - i,
    {
        proof {
            let upto = ticks_of(raw_bbos@).take(i + 1);
            assert(upto.drop_last() =~= ticks_of(raw_bbos@).take(i as int));
            assert(upto.last() == raw_bbos@[i as int].1);
        }
        let event = ReplayEvent::Bbo(raw_bbos[i].1.clone());
        replay.step(&event, ln);
        i = i + 1;
    }
    let r = replay.finish(ln);
    proof {
        assert(ticks_of(raw_bbos@).take(raw_bbos@.len() as int) =~= ticks_of(raw_bbos@));
        assert(is_stand_in(mock, engine.expected_len()));
        assert(is_run(*ln, window as nat, config, mock, false, r));
    }
    r
}

/// The outcome of checking a pack.
#[derive(Debug)]
pub struct VerificationResult {
    pub feature_errors: Vec<Issue<FeatureSnapshot, FeatureField>>,
    pub decision_errors: Vec<Issue<Decision, DecisionField>>,
    pub num_features_checked: usize,
    pub num_decisions_checked: usize,
    pub num_raw_events: usize,
    pub num_snapshots_expected: usize,
    pub num_snapshots_produced: usize,
    pub num_decisions_expected: usize,
    pub num_decisions_produced: usize,
    /// The pack has no meta data.
    pub is_legacy: bool,
    pub meta: Option<GoldenMeta>,
}

impl VerificationResult {
    /// Everything was produced as expected.
    pub open spec fn clean(self) -> bool {
        self.feature_errors@.len() == 0 && self.decision_errors@.len() == 0
    }

    pub fn is_success(&self) -> (r: bool)
        ensures
            r == self.clean(),
    {
        self.feature_errors.len() == 0 && self.decision_errors.len() == 0
    }
}

pub open spec fn meta_view(meta: Option<GoldenMeta>) -> Option<MetaModel> {
    match meta {
        Some(m) => Some(m@),
        None => None,
    }
}

/// What checking a pack against these snapshots and decisions gives.
pub open spec fn is_outcome(
    pack: GoldenPack,
    checked: bool,
    snaps: Seq<FeatureSnapshot>,
    decisions: Seq<Decision>,
    r: Result<VerificationResult, PackError>,
) -> bool {
    if pack.features@.len() != snaps.len() {
        r == Err::<VerificationResult, PackError>(
            PackError::SnapshotCount {
                expected: pack.features@.len() as usize,
                actual: snaps.len() as usize,
            },
        )
    } else if checked && pack.decisions@.len() != decisions.len() {
        r == Err::<VerificationResult, PackError>(
            PackError::DecisionCount {
                expected: pack.decisions@.len() as usize,
                actual: decisions.len() as usize,
            },
        )
    } else {
        &&& r matches Ok(v)
        &&& issue_views::<FeatureSnapshot>(v.feature_errors@) == report_of(pack.features@, snaps)
        &&& checked ==> issue_views::<Decision>(v.decision_errors@) == report_of(
            pack.decisions@,
            decisions,
        )
        &&& !checked ==> v.decision_errors@.len() == 0
        &&& v.num_features_checked == snaps.len()
        &&& v.num_snapshots_expected == snaps.len()
        &&& v.num_snapshots_produced == snaps.len()
        &&& v.num_raw_events == pack.raw_bbos@.len()
        &&& v.num_decisions_checked == if checked {
            decisions.len()
        } else {
            0
        }
        &&& v.num_decisions_expected == v.num_decisions_checked
        &&& v.num_decisions_produced == v.num_decisions_checked
        &&& v.is_legacy == pack.meta is None
        &&& meta_view(v.meta) == meta_view(pack.meta)
    }
}

/// What checking a pack gives: the fault of the setup, the quote out of order, or the outcome of
/// a replay of its quotes.
pub open spec fn is_verdict<F: Fn(Double) -> Double>(
    ln: F,
    pack: GoldenPack,
    window: usize,
    config: ExecutorConfig,
    expected_len: Option<usize>,
    version: Seq<char>,
    verify_decisions: bool,
    r: Result<VerificationResult, PackError>,
) -> bool {
    match (setup_fault(pack.meta, window, expected_len), falls_from(pack.raw_bbos@, 1)) {
        (Some(e), _) => r == Err::<VerificationResult, PackError>(e),
        (None, Some(i)) => r == Err::<VerificationResult, PackError>(
            PackError::NotMonotonic { place: i as usize },
        ),
        (None, None) => is_checked(
            ln,
            pack,
            window,
            config,
            expected_len,
            checks_decisions(pack.meta, version, verify_decisions),
            r,
        ),
    }
}

/// The sampling gap that a pack was captured with.
pub open spec fn gap_of(meta: Option<GoldenMeta>) -> u64 {
    match meta {
        Some(m) => m.min_gap_ms,
        None => 0,
    }
}

/// `r` is the outcome of a replay of the quotes of the pack.
pub open spec fn is_checked<F: Fn(Double) -> Double>(
    ln: F,
    pack: GoldenPack,
    window: usize,
    config: ExecutorConfig,
    expected_len: Option<usize>,
    checked: bool,
    r: Result<VerificationResult, PackError>,
) -> bool {
    exists|run: ReplayResult| #[trigger]
        is_check_run(
            ln,
            pack.raw_bbos@,
            window,
            config,
            expected_len,
            gap_of(pack.meta),
            run,
        ) && is_outcome(pack, checked, run.snapshots@, run.decisions@, r)
}

fn outcome(pack: &GoldenPack, checked: bool, run: &ReplayResult) -> (r: Result<
    VerificationResult,
    PackError,
>)
    ensures
        is_outcome(*pack, checked, run.snapshots@, run.decisions@, r),
{
    let expected: usize = pack.features.len();
    let actual: usize = run.snapshots.len();
    if expected != actual {
        return Err(PackError::SnapshotCount { expected, actual });
    }
    let produced: usize = run.decisions.len();
    if checked && pack.decisions.len() != produced {
        return Err(
            PackError::DecisionCount { expected: pack.decisions.len(), actual: produced },
        );
    }
    let feature_errors = report(&pack.features, &run.snapshots);
    let decision_errors = if checked {
        report(&pack.decisions, &run.decisions)
    } else {
        Vec::new()
    };
    let decisions: usize = if checked {
        produced
    } else {
        0
    };
    let meta = match &pack.meta {
        Some(m) => Some(m.clone()),
        None => None,
    };
    Ok(
        VerificationResult {
            feature_errors,
            decision_errors,
            num_features_checked: expected,
            num_decisions_checked: decisions,
            num_raw_events: pack.raw_bbos.len(),
            num_snapshots_expected: expected,
            num_snapshots_produced: actual,
            num_decisions_expected: decisions,
            num_decisions_produced: decisions,
            is_legacy: pack.meta.is_none(),
            meta,
        },
    )
}

/// Checks a pack: replays its quotes and compares what comes out with what is expected.
pub fn verify_golden_pack<F: Fn(Double) -> Double, E: InferenceEngine>(
    pack: &GoldenPack,
    window: usize,
    config: ExecutorConfig,
    engine: &E,
    verify_decisions: bool,
    ln: &F,
) -> (r: Result<VerificationResult, PackError>)
    requires
        forall|x: Double| #[trigger] call_requires(*ln, (x,)),
    ensures
        is_verdict(
            *ln,
            *pack,
            window,
            config,
            engine.expected_len(),
            engine.version(),
            verify_decisions,
            r,
        ),
{
    let checked = match check_setup(&pack.meta, window, engine, verify_decisions) {
        Ok(b) => b,
        Err(e) => return Err(e),
    };
    if let Some(place) = first_fall(&pack.raw_bbos) {
        return Err(PackError::NotMonotonic { place });
    }
    let gap: u64 = match &pack.meta {
        Some(m) => m.min_gap_ms,
        None => 0,
    };
    let run = verify_synchronous(&pack.raw_bbos, window, config, engine, gap, ln);
    let r = outcome(pack, checked, &run);
    proof {
        assert(is_check_run(
            *ln,
            pack.raw_bbos@,
            window,
            config,
            engine.expected_len(),
            gap_of(pack.meta),
            run,
        ));
        assert(is_checked(*ln, *pack, window, config, engine.expected_len(), checked, r));
    }
    r
}

proof fn lemma_falls(raw: Seq<(u64, BboTick)>, i: int)
    requires
        1 <= i,
    ensures
        match falls_from(raw, i) {
            Some(j) => i <= j < raw.len() && raw[j].1.ts_exchange < raw[j - 1].1.ts_exchange,
            None => forall|j: int|
                i <= j < raw.len() ==> raw[j - 1].1.ts_exchange <= (
                #[trigger] raw[j]).1.ts_exchange,
        },
    decreases raw.len() - i,
{
    if i < raw.len() {
        lemma_falls(raw, i + 1);
    }
}

/// The setup is the one that a pack with this meta data was captured with.
pub open spec fn fits_setup(m: GoldenMeta, window: usize, expected_len: Option<usize>) -> bool {
    &&& m.feature_window == window
    &&& m.expected_feature_len == match expected_len {
        Some(n) => n,
        None => 4,
    }
    &&& m.feature_order@.len() == 4
    &&& m.feature_order@[0]@ == "log_return_1"@
    &&& m.feature_order@[1]@ == "log_return_window"@
    &&& m.feature_order@[2]@ == "spread_pct"@
    &&& m.feature_order@[3]@ == "imbalance"@
}

/// Each expected snapshot was produced under its number and agrees with the one produced: in its
/// moment, symbol, readiness, latency and version, and, within the tolerances, in its spread and
/// in every feature.
pub open spec fn snapshots_agree(
    expected: Seq<(u64, FeatureSnapshot)>,
    snaps: Seq<FeatureSnapshot>,
) -> bool {
    forall|i: int|
        0 <= i < expected.len() ==> {
            let e = (#[trigger] expected[i]).1;
            let a = snaps[expected[i].0 as int];
            &&& expected[i].0 < snaps.len()
            &&& e.ts_exchange == a.ts_exchange
            &&& e.symbol@ == a.symbol@
            &&& e.ready == a.ready
            &&& e.data_latency_ms == a.data_latency_ms
            &&& near(e.spread_pct@, a.spread_pct@)
            &&& e.feature_version == a.feature_version
            &&& e.features@.len() == a.features@.len()
            &&& forall|k: int|
                0 <= k < e.features@.len() ==> near((#[trigger] e.features@[k])@, a.features@[k]@)
        }
}

/// Each expected decision was made under its number and agrees with the one made: in its moment,
/// symbol, action, model version and reasons, and, within the tolerances, in its confidence.
pub open spec fn decisions_agree(
    expected: Seq<(u64, Decision)>,
    decisions: Seq<Decision>,
) -> bool {
    forall|i: int|
        0 <= i < expected.len() ==> {
            let e = (#[trigger] expected[i]).1;
            let a = decisions[expected[i].0 as int];
            &&& expected[i].0 < decisions.len()
            &&& e.ts_exchange == a.ts_exchange
            &&& e.symbol@ == a.symbol@
            &&& e.action == a.action
            &&& near(e.confidence@, a.confidence@)
            &&& e.model_version@ == a.model_version@
            &&& e.reason_codes@.len() == a.reason_codes@.len()
            &&& forall|k: int|
                0 <= k < e.reason_codes@.len() ==> (#[trigger] e.reason_codes@[k])@
                    == a.reason_codes@[k]@
        }
}

proof fn lemma_snapshots_agree(
    expected: Seq<(u64, FeatureSnapshot)>,
    snaps: Seq<FeatureSnapshot>,
)
    requires
        snaps.len() <= u64::MAX,
    ensures
        report_of(expected, snaps).len() == 0 <==> snapshots_agree(expected, snaps) && forall|k: int|
            0 <= k < snaps.len() ==> #[trigger] listed(expected, k as u64),
{
    law_clean_report(expected, snaps);
    assert forall|i: int| 0 <= i < expected.len() implies (FeatureSnapshot::mismatch(
        (#[trigger] expected[i]).1,
        snaps[expected[i].0 as int],
    ) is None <==> {
        let e = expected[i].1;
        let a = snaps[expected[i].0 as int];
        &&& e.ts_exchange == a.ts_exchange
        &&& e.symbol@ == a.symbol@
        &&& e.ready == a.ready
        &&& e.data_latency_ms == a.data_latency_ms
        &&& near(e.spread_pct@, a.spread_pct@)
        &&& e.feature_version == a.feature_version
        &&& e.features@.len() == a.features@.len()
        &&& forall|k: int|
            0 <= k < e.features@.len() ==> near((#[trigger] e.features@[k])@, a.features@[k]@)
    }) by {
        law_equal_snapshots_agree(expected[i].1, snaps[expected[i].0 as int]);
    }
}

proof fn lemma_decisions_agree(expected: Seq<(u64, Decision)>, decisions: Seq<Decision>)
    requires
        decisions.len() <= u64::MAX,
    ensures
        report_of(expected, decisions).len() == 0 <==> decisions_agree(expected, decisions)
            && forall|k: int|
            0 <= k < decisions.len() ==> #[trigger] listed(expected, k as u64),
{
    law_clean_report(expected, decisions);
    assert forall|i: int| 0 <= i < expected.len() implies (Decision::mismatch(
        (#[trigger] expected[i]).1,
        decisions[expected[i].0 as int],
    ) is None <==> {
        let e = expected[i].1;
        let a = decisions[expected[i].0 as int];
        &&& e.ts_exchange == a.ts_exchange
        &&& e.symbol@ == a.symbol@
        &&& e.action == a.action
        &&& near(e.confidence@, a.confidence@)
        &&& e.model_version@ == a.model_version@
        &&& e.reason_codes@.len() == a.reason_codes@.len()
        &&& forall|k: int|
            0 <= k < e.reason_codes@.len() ==> (#[trigger] e.reason_codes@[k])@
                == a.reason_codes@[k]@
    }) by {
        law_equal_decisions_agree(expected[i].1, decisions[expected[i].0 as int]);
    }
}

/// A pack is replayed only where the setup is the one that it was captured with and its quotes
/// are in order, and only where as many snapshots come out as are expected is it compared. The
/// replayed quotes are at least the sampling gap of the pack apart. The outcome is clean exactly
/// where every expected snapshot, and where decisions are checked every expected decision, agrees
/// with the one produced under its number, and nothing else was produced.
pub proof fn law_clean_pack_agrees<F: Fn(Double) -> Double>(
    ln: F,
    pack: GoldenPack,
    window: usize,
    config: ExecutorConfig,
    expected_len: Option<usize>,
    version: Seq<char>,
    verify_decisions: bool,
    v: VerificationResult,
) -> (run: ReplayResult)
    requires
        is_verdict(ln, pack, window, config, expected_len, version, verify_decisions, Ok(v)),
    ensures
        pack.meta matches Some(m) ==> fits_setup(m, window, expected_len),
        forall|i: int|
            1 <= i < pack.raw_bbos@.len() ==> pack.raw_bbos@[i - 1].1.ts_exchange <= (
            #[trigger] pack.raw_bbos@[i]).1.ts_exchange,
        is_check_run(
            ln,
            pack.raw_bbos@,
            window,
            config,
            expected_len,
            match pack.meta {
                Some(m) => m.min_gap_ms,
                None => 0,
            },
            run,
        ),
        pack.meta matches Some(m) ==> m.min_gap_ms > 0 ==> forall|k: int|
            1 <= k < run.bbo_ticks@.len() ==> (#[trigger] run.bbo_ticks@[k]).ts_exchange
                - run.bbo_ticks@[k - 1].ts_exchange >= m.min_gap_ms,
        pack.meta is None ==> run.bbo_ticks@.len() == pack.raw_bbos@.len(),
        pack.features@.len() == run.snapshots@.len(),
        ({
            let checked = verify_decisions && (pack.meta matches Some(m) ==> m.inference_engine@
                == if has_part(version, "mock"@) {
                "mock"@
            } else {
                "onnx"@
            });
            &&& checked ==> pack.decisions@.len() == run.decisions@.len()
            &&& v.feature_errors@.len() == 0 && v.decision_errors@.len() == 0 <==> {
                &&& snapshots_agree(pack.features@, run.snapshots@)
                &&& forall|k: int|
                    0 <= k < run.snapshots@.len() ==> #[trigger] listed(pack.features@, k as u64)
                &&& checked ==> decisions_agree(pack.decisions@, run.decisions@) && forall|k: int|
                    0 <= k < run.decisions@.len() ==> #[trigger] listed(
                        pack.decisions@,
                        k as u64,
                    )
            }
            &&& v.num_decisions_checked == if checked {
                pack.decisions@.len()
            } else {
                0
            }
        }),
        v.num_features_checked == pack.features@.len(),
        v.num_raw_events == pack.raw_bbos@.len(),
{
    let checked = checks_decisions(pack.meta, version, verify_decisions);
    lemma_falls(pack.raw_bbos@, 1);
    if let Some(m) = pack.meta {
        let names = texts(m.feature_order@);
        assert(names == feature_names());
        assert(names.len() == 4);
        assert(names[0] == m.feature_order@[0]@ && names[1] == m.feature_order@[1]@ && names[2]
            == m.feature_order@[2]@ && names[3] == m.feature_order@[3]@);
    }
    let run = choose|run: ReplayResult| #[trigger]
        is_check_run(
            ln,
            pack.raw_bbos@,
            window,
            config,
            expected_len,
            gap_of(pack.meta),
            run,
        ) && is_outcome(
            pack,
            checked,
            run.snapshots@,
            run.decisions@,
            Ok::<VerificationResult, PackError>(v),
        );
    lemma_snapshots_agree(pack.features@, run.snapshots@);
    lemma_decisions_agree(pack.decisions@, run.decisions@);
    assert(issue_views::<FeatureSnapshot>(v.feature_errors@).len() == v.feature_errors@.len());
    assert(issue_views::<Decision>(v.decision_errors@).len() == v.decision_errors@.len());
    let gap = gap_of(pack.meta);
    let ticks = ticks_of(pack.raw_bbos@);
    assert forall|k: int| 1 <= k < run.bbo_ticks@.len() && gap > 0 implies (
    #[trigger] run.bbo_ticks@[k]).ts_exchange - run.bbo_ticks@[k - 1].ts_exchange >= gap by {
        law_gate_spaces_quotes(ticks, gap, k);
    }
    law_gate_is_idempotent(ticks, gap);
    run
}

/// A pack that does not fit the setup, or whose quotes are out of order, is refused; where it
/// fits, only another number of snapshots or decisions can be the reason.
pub proof fn law_unfit_pack_is_refused<F: Fn(Double) -> Double>(
    ln: F,
    pack: GoldenPack,
    window: usize,
    config: ExecutorConfig,
    expected_len: Option<usize>,
    version: Seq<char>,
    verify_decisions: bool,
    e: PackError,
)
    requires
        is_verdict(ln, pack, window, config, expected_len, version, verify_decisions, Err(e)),
    ensures
        match e {
            PackError::Window { meta, current } => pack.meta matches Some(m) && m.feature_window
                == meta && current == window && meta != window,
            PackError::FeatureLen { meta, engine } => pack.meta matches Some(m)
                && m.expected_feature_len == meta && expected_len == Some(engine) && meta
                != engine,
            PackError::DefaultFeatureLen { meta } => pack.meta matches Some(m)
                && m.expected_feature_len == meta && expected_len is None && meta != 4,
            PackError::FeatureOrder => pack.meta matches Some(m) && !fits_setup(
                m,
                window,
                expected_len,
            ),
            PackError::NotMonotonic { place } => 1 <= place < pack.raw_bbos@.len()
                && pack.raw_bbos@[place as int].1.ts_exchange < pack.raw_bbos@[place
                - 1].1.ts_exchange,
            PackError::SnapshotCount { expected, actual } => expected != actual,
            PackError::DecisionCount { expected, actual } => expected != actual
                && verify_decisions,
        },
{
    lemma_falls(pack.raw_bbos@, 1);
    assert(pack.raw_bbos.len() == pack.raw_bbos@.len());
    let checked = checks_decisions(pack.meta, version, verify_decisions);
    if let Some(m) = pack.meta {
        if fits_setup(m, window, expected_len) {
            assert(texts(m.feature_order@) =~= feature_names());
        }
    }
    if setup_fault(pack.meta, window, expected_len) is None && falls_from(pack.raw_bbos@, 1)
        is None {
        let run = choose|run: ReplayResult| #[trigger]
            is_check_run(
                ln,
                pack.raw_bbos@,
                window,
                config,
                expected_len,
                gap_of(pack.meta),
                run,
            ) && is_outcome(
                pack,
                checked,
                run.snapshots@,
                run.decisions@,
                Err::<VerificationResult, PackError>(e),
            );
        assert(pack.features.len() == pack.features@.len());
        assert(pack.decisions.len() == pack.decisions@.len());
        assert(run.snapshots.len() == run.snapshots@.len());
        assert(run.decisions.len() == run.decisions@.len());
    }
}

/// The meta data of a capture fits the setup that it was captured with, and keeps its sampling
/// gap, symbol and range.
pub proof fn law_captured_meta_fits(
    m: GoldenMeta,
    symbol: Seq<char>,
    from_ts_ms: i64,
    to_ts_ms: i64,
    window: usize,
    expected_len: Option<usize>,
    version: Seq<char>,
    min_gap_ms: u64,
    limit: Option<u64>,
    risk_config_hash: Option<Seq<char>>,
)
    requires
        m@ == captured_meta(
            symbol,
            from_ts_ms,
            to_ts_ms,
            window,
            expected_len,
            version,
            min_gap_ms,
            limit,
            risk_config_hash,
        ),
    ensures
        fits_setup(m, window, expected_len),
        m.min_gap_ms == min_gap_ms,
        m.limit == limit,
        m.symbol@ == symbol,
        m.from_ts_ms == from_ts_ms,
        m.to_ts_ms == to_ts_ms,
        m.feature_version == 1,
        has_part(version, "mock"@) ==> m.inference_engine@ == "mock"@ && m.model_version is None,
        !has_part(version, "mock"@) ==> m.inference_engine@ == "onnx"@ && (m.model_version matches
            Some(v) && v@ == version),
{
    let names = texts(m.feature_order@);
    assert(m@.feature_order == names);
    assert(names == feature_names());
    assert(names.len() == 4);
    assert(names[0] == m.feature_order@[0]@ && names[1] == m.feature_order@[1]@ && names[2]
        == m.feature_order@[2]@ && names[3] == m.feature_order@[3]@);
}

/// A captured pack numbers its quotes, snapshots and decisions by their places, from zero on.
pub proof fn law_packs_are_numbered(
    ticks: Vec<BboTick>,
    bbos: Vec<GoldenBbo>,
    snaps: Vec<FeatureSnapshot>,
    features: Vec<GoldenFeature>,
    made: Vec<Decision>,
    decisions: Vec<GoldenDecision>,
    i: int,
)
    requires
        call_ensures(golden_bbos, (&ticks,), bbos),
        call_ensures(golden_features, (&snaps,), features),
        call_ensures(golden_decisions, (&made,), decisions),
    ensures
        bbos@.len() == ticks@.len(),
        features@.len() == snaps@.len(),
        decisions@.len() == made@.len(),
        0 <= i < ticks@.len() ==> bbos@[i].seq == i && bbos@[i].tick == ticks@[i],
        0 <= i < snaps@.len() ==> features@[i].seq == i && features@[i].snapshot@ == snaps@[i]@,
        0 <= i < made@.len() ==> decisions@[i].seq == i && decisions@[i].decision@ == made@[i]@,
{
}

} // verus!
