//! What is written of a replay.

use super::engine::ReplayResult;
use crate::common::events::texts;
use crate::common::{Action, Decision, FeatureSnapshot};
use crate::num::double::double_int;
use crate::num::model::{double_format, larger, narrowed, quotient, smaller, sum, widened, zero, Num};
use crate::num::round::least;
use crate::num::{Double, Single};
use crate::symbols::SymbolMap;
use crate::text::digits::{decimal_text, unsigned_text};
use crate::text::words::{lowercase, same_text, to_lower};
use vstd::prelude::*;
use vstd::string::*;

verus! {

/// Format of the files with features and decisions.
#[derive(Clone, Copy, Debug, PartialEq, Eq, Structural)]
pub enum ExportFormat {
    Csv,
    Jsonl,
    Parquet,
}

impl Default for ExportFormat {
    fn default() -> (r: Self)
        ensures
            r == ExportFormat::Csv,
    {
        ExportFormat::Csv
    }
}

/// The format that a lower-case name denotes.
pub open spec fn format_named(name: Seq<char>) -> Option<ExportFormat> {
    if name == "csv"@ {
        Some(ExportFormat::Csv)
    } else if name == "jsonl"@ {
        Some(ExportFormat::Jsonl)
    } else if name == "parquet"@ {
        Some(ExportFormat::Parquet)
    } else {
        None
    }
}

/// The format with this name in lower case.
pub fn named_format(name: &str) -> (r: Option<ExportFormat>)
    ensures
        r == format_named(name@),
{
    if same_text(name, "csv") {
        Some(ExportFormat::Csv)
    } else if same_text(name, "jsonl") {
        Some(ExportFormat::Jsonl)
    } else if same_text(name, "parquet") {
        Some(ExportFormat::Parquet)
    } else {
        None
    }
}

pub open spec fn extension_of(f: ExportFormat) -> Seq<char> {
    match f {
        ExportFormat::Csv => "csv"@,
        ExportFormat::Jsonl => "jsonl"@,
        ExportFormat::Parquet => "parquet"@,
    }
}

impl ExportFormat {
    /// Reads a format, whatever the case of its letters; the error is the text that is none.
    pub fn from_str(s: &str) -> (r: Result<Self, String>)
        ensures
            match format_named(lowercase(s@)) {
                Some(f) => r == Ok::<Self, String>(f),
                None => r matches Err(e) && e@ == s@,
            },
    {
        match named_format(to_lower(s).as_str()) {
            Some(f) => Ok(f),
            None => Err(s.to_string()),
        }
    }

    /// The extension of files of the format.
    pub fn extension(self) -> (r: &'static str)
        ensures
            r@ == extension_of(self),
    {
        match self {
            ExportFormat::Csv => "csv",
            ExportFormat::Jsonl => "jsonl",
            ExportFormat::Parquet => "parquet",
        }
    }
}

/// What is written of a run, and where.
#[derive(Clone, Debug)]
pub struct RunExport {
    pub export_dir: String,
    pub export_format: ExportFormat,
    pub write_decisions: bool,
    /// The quotes are written too.
    pub log_raw_ticks: bool,
}

/// A pack to be captured: `golden/<name>` under a directory.
#[derive(Clone, Debug)]
pub struct GoldenCapture {
    pub name: String,
    pub base_dir: String,
}

/// A file of an export.
#[derive(Clone, Copy, Debug, PartialEq, Eq, Structural)]
pub enum ExportFile {
    Features,
    Decisions,
    RawBbos,
    GoldenRawBbos,
    GoldenFeatures,
    GoldenDecisions,
    GoldenMeta,
    DecisionReasons,
    Summary,
}

pub open spec fn file_if(cond: bool, file: ExportFile) -> Seq<ExportFile> {
    if cond {
        seq![file]
    } else {
        Seq::empty()
    }
}

/// The files of an export, in the order in which they are written.
pub open spec fn export_files(
    r: ReplayResult,
    opts: RunExport,
    golden: bool,
    meta: bool,
) -> Seq<ExportFile> {
    file_if(r.snapshots@.len() > 0, ExportFile::Features) + file_if(
        opts.write_decisions && r.decisions@.len() > 0,
        ExportFile::Decisions,
    ) + file_if(opts.log_raw_ticks && r.bbo_ticks@.len() > 0, ExportFile::RawBbos) + file_if(
        golden,
        ExportFile::GoldenRawBbos,
    ) + file_if(golden, ExportFile::GoldenFeatures) + file_if(golden, ExportFile::GoldenDecisions)
        + file_if(golden && meta, ExportFile::GoldenMeta) + seq![
        ExportFile::DecisionReasons,
        ExportFile::Summary,
    ]
}

/// Whether an export needs a format that is not there.
pub open spec fn needs_parquet(r: ReplayResult, opts: RunExport) -> bool {
    opts.export_format == ExportFormat::Parquet && (r.snapshots@.len() > 0
        || opts.write_decisions && r.decisions@.len() > 0)
}

/// Parquet files are not written.
#[derive(Clone, Copy, Debug, PartialEq, Eq, Structural)]
pub struct ParquetUnsupported;

fn push_if(files: &mut Vec<ExportFile>, cond: bool, file: ExportFile)
    ensures
        final(files)@ == old(files)@ + file_if(cond, file),
{
    let ghost before = files@;
    if cond {
        files.push(file);
    }
    proof {
        assert(files@ =~= before + file_if(cond, file));
    }
}

/// The files of an export, in the order in which they are written.
pub fn export_plan(r: &ReplayResult, opts: &RunExport, golden: bool, meta: bool) -> (plan: Result<
    Vec<ExportFile>,
    ParquetUnsupported,
>)
    ensures
        match plan {
            Ok(files) => !needs_parquet(*r, *opts) && files@ == export_files(
                *r,
                *opts,
                golden,
                meta,
            ),
            Err(_) => needs_parquet(*r, *opts),
        },
{
    let features = r.snapshots.len() > 0;
    let decisions = opts.write_decisions && r.decisions.len() > 0;
    if opts.export_format == ExportFormat::Parquet && (features || decisions) {
        return Err(ParquetUnsupported);
    }
    let raw = opts.log_raw_ticks && r.bbo_ticks.len() > 0;
    let mut files: Vec<ExportFile> = Vec::new();
    push_if(&mut files, features, ExportFile::Features);
    push_if(&mut files, decisions, ExportFile::Decisions);
    push_if(&mut files, raw, ExportFile::RawBbos);
    push_if(&mut files, golden, ExportFile::GoldenRawBbos);
    push_if(&mut files, golden, ExportFile::GoldenFeatures);
    push_if(&mut files, golden, ExportFile::GoldenDecisions);
    push_if(&mut files, golden && meta, ExportFile::GoldenMeta);
    proof {
        assert(Seq::<ExportFile>::empty() + file_if(features, ExportFile::Features) =~= file_if(
            features,
            ExportFile::Features,
        ));
    }
    let ghost before = files@;
    files.push(ExportFile::DecisionReasons);
    files.push(ExportFile::Summary);
    proof {
        assert(files@ =~= before + seq![ExportFile::DecisionReasons, ExportFile::Summary]);
    }
    Ok(files)
}

/// A value in a column.
#[derive(Debug)]
pub enum Cell {
    Signed(i64),
    Unsigned(u32),
    Single(Single),
    Double(Double),
    Text(String),
}

pub enum CellModel {
    Signed(i64),
    Unsigned(u32),
    Single(Single),
    Double(Double),
    Text(Seq<char>),
}

impl View for Cell {
    type V = CellModel;

    open spec fn view(&self) -> CellModel {
        match *self {
            Cell::Signed(v) => CellModel::Signed(v),
            Cell::Unsigned(v) => CellModel::Unsigned(v),
            Cell::Single(v) => CellModel::Single(v),
            Cell::Double(v) => CellModel::Double(v),
            Cell::Text(s) => CellModel::Text(s@),
        }
    }
}

pub open spec fn cell_views(v: Seq<Cell>) -> Seq<CellModel> {
    v.map_values(|c: Cell| c@)
}

/// The names of the feature columns behind the fixed ones.
pub open spec fn feature_columns(n: nat) -> Seq<Seq<char>> {
    seq!["ts_exchange"@, "symbol"@, "feature_version"@, "spread_pct"@, "data_latency_ms"@]
        + Seq::new(n, |i: int| "f"@ + decimal_text(i))
}

/// The header of a table of snapshots; the first one says how many features there are.
pub fn feature_header(snaps: &Vec<FeatureSnapshot>) -> (r: Vec<String>)
    ensures
        texts(r@) == feature_columns(
            if snaps@.len() > 0 {
                snaps@[0].features@.len()
            } else {
                0
            },
        ),
{
    let n: usize = if snaps.len() > 0 {
        snaps[0].features.len()
    } else {
        0
    };
    let mut r: Vec<String> = Vec::new();
    r.push("ts_exchange".to_string());
    r.push("symbol".to_string());
    r.push("feature_version".to_string());
    r.push("spread_pct".to_string());
    r.push("data_latency_ms".to_string());
    let mut i: usize = 0;
    proof {
        assert(texts(r@) =~= feature_columns(0));
    }
    while i < n
        invariant
            i <= n,
            texts(r@) == feature_columns(i as nat),
        decreases n - i,
    {
        let ghost before = r@;
        let mut name = "f".to_string();
        name.append(unsigned_text(i as u64).as_str());
        let ghost text = name@;
        r.push(name);
        i = i + 1;
        proof {
            assert(texts(r@) =~= texts(before).push(text));
            assert(texts(r@) =~= feature_columns(i as nat));
        }
    }
    r
}

pub open spec fn feature_cells(s: FeatureSnapshot) -> Seq<CellModel> {
    seq![
        CellModel::Signed(s.ts_exchange),
        CellModel::Text(s.symbol@),
        CellModel::Unsigned(s.feature_version),
        CellModel::Single(s.spread_pct),
        CellModel::Unsigned(s.data_latency_ms),
    ] + s.features@.map_values(|x: Single| CellModel::Single(x))
}

/// The row of a snapshot.
pub fn feature_row(s: &FeatureSnapshot) -> (r: Vec<Cell>)
    ensures
        cell_views(r@) == feature_cells(*s),
{
    let mut r: Vec<Cell> = Vec::new();
    r.push(Cell::Signed(s.ts_exchange));
    r.push(Cell::Text(s.symbol.clone()));
    r.push(Cell::Unsigned(s.feature_version));
    r.push(Cell::Single(s.spread_pct));
    r.push(Cell::Unsigned(s.data_latency_ms));
    let mut i: usize = 0;
    while i < s.features.len()
        invariant
            i <= s.features@.len(),
            r@.len() == 5 + i,
            forall|j: int| 0 <= j < r@.len() ==> (#[trigger] r@[j])@ == feature_cells(*s)[j],
        decreases s.features@.len() - i,
    {
        r.push(Cell::Single(s.features[i]));
        i = i + 1;
    }
    proof {
        assert(cell_views(r@) =~= feature_cells(*s));
    }
    r
}

/// The header of a table of decisions.
pub fn decision_header() -> (r: Vec<String>)
    ensures
        texts(r@) == seq![
            "ts_exchange"@,
            "symbol"@,
            "action"@,
            "confidence"@,
            "model_version"@,
            "reason_codes"@,
        ],
{
    let mut r: Vec<String> = Vec::new();
    r.push("ts_exchange".to_string());
    r.push("symbol".to_string());
    r.push("action".to_string());
    r.push("confidence".to_string());
    r.push("model_version".to_string());
    r.push("reason_codes".to_string());
    proof {
        assert(texts(r@) =~= seq![
            "ts_exchange"@,
            "symbol"@,
            "action"@,
            "confidence"@,
            "model_version"@,
            "reason_codes"@,
        ]);
    }
    r
}

pub open spec fn action_name(a: Action) -> Seq<char> {
    match a {
        Action::NoTrade => "no_trade"@,
        Action::Long => "long"@,
        Action::Short => "short"@,
    }
}

/// The name of an action in exports.
pub fn action_text(a: Action) -> (r: &'static str)
    ensures
        r@ == action_name(a),
{
    match a {
        Action::NoTrade => "no_trade",
        Action::Long => "long",
        Action::Short => "short",
    }
}

/// A list of texts as a JSON document; `None` where it cannot be written.
pub uninterp spec fn json_list(v: Seq<Seq<char>>) -> Option<Seq<char>>;

/// Writes a list of texts with [`serde_json::to_string`]; `None` where that fails. How texts are
/// escaped is left to the name.
#[verifier::external_body]
fn write_json_list(v: &Vec<String>) -> (r: Option<String>)
    ensures
        match r {
            Some(s) => json_list(texts(v@)) == Some(s@),
            None => json_list(texts(v@)) is None,
        },
{
    serde_json::to_string(v).ok()
}

pub open spec fn list_or_empty(written: Option<Seq<char>>) -> Seq<char> {
    match written {
        Some(s) => s,
        None => "[]"@,
    }
}

pub open spec fn decision_cells(d: Decision, reasons: Seq<char>) -> Seq<CellModel> {
    seq![
        CellModel::Signed(d.ts_exchange),
        CellModel::Text(d.symbol@),
        CellModel::Text(action_name(d.action)),
        CellModel::Single(d.confidence),
        CellModel::Text(d.model_version@),
        CellModel::Text(reasons),
    ]
}

/// The row of a decision whose reasons are written as `reasons`.
pub fn decision_row_with(d: &Decision, reasons: String) -> (r: Vec<Cell>)
    ensures
        cell_views(r@) == decision_cells(*d, reasons@),
{
    let mut r: Vec<Cell> = Vec::new();
    let ghost text = reasons@;
    r.push(Cell::Signed(d.ts_exchange));
    r.push(Cell::Text(d.symbol.clone()));
    r.push(Cell::Text(action_text(d.action).to_string()));
    r.push(Cell::Single(d.confidence));
    r.push(Cell::Text(d.model_version.clone()));
    r.push(Cell::Text(reasons));
    proof {
        assert(cell_views(r@) =~= decision_cells(*d, text));
    }
    r
}

/// The row of a decision; its reasons are a JSON list.
pub fn decision_row(d: &Decision) -> (r: Vec<Cell>)
    ensures
        cell_views(r@) == decision_cells(
            *d,
            list_or_empty(json_list(texts(d.reason_codes@))),
        ),
{
    let reasons = match write_json_list(&d.reason_codes) {
        Some(s) => s,
        None => "[]".to_string(),
    };
    decision_row_with(d, reasons)
}

/// How often a text stands in a list.
pub open spec fn times_in(v: Seq<Seq<char>>, s: Seq<char>) -> nat
    decreases v.len(),
{
    if v.len() == 0 {
        0
    } else {
        times_in(v.drop_last(), s) + if v.last() == s {
            1nat
        } else {
            0
        }
    }
}

/// All reasons of the decisions, in their order.
pub open spec fn all_reasons(decisions: Seq<Decision>) -> Seq<Seq<char>>
    decreases decisions.len(),
{
    if decisions.len() == 0 {
        Seq::empty()
    } else {
        all_reasons(decisions.drop_last()) + texts(decisions.last().reason_codes@)
    }
}

/// The map counts each text of the list, up to the largest number that it can hold.
pub open spec fn counts_all(m: Map<Seq<char>, u64>, v: Seq<Seq<char>>) -> bool {
    forall|s: Seq<char>|
        if times_in(v, s) > 0 {
            #[trigger] m.contains_key(s) && m[s] == least(times_in(v, s), u64::MAX as nat)
        } else {
            !m.contains_key(s)
        }
}

/// How often each reason is given.
pub fn reason_histogram(decisions: &Vec<Decision>) -> (r: SymbolMap<u64>)
    ensures
        counts_all(r@, all_reasons(decisions@)),
{
    let mut m: SymbolMap<u64> = SymbolMap::new();
    let mut i: usize = 0;
    proof {
        assert(all_reasons(decisions@.take(0)) =~= Seq::<Seq<char>>::empty());
    }
    while i < decisions.len()
        invariant
            i <= decisions@.len(),
            counts_all(m@, all_reasons(decisions@.take(i as int))),
        decreases decisions@.len() - i,
    {
        let codes = &decisions[i].reason_codes;
        let ghost before = all_reasons(decisions@.take(i as int));
        let ghost upto = decisions@.take(i + 1);
        proof {
            assert(upto.drop_last() =~= decisions@.take(i as int));
            assert(upto.last() == decisions@[i as int]);
            assert(before + texts(codes@).take(0) =~= before);
        }
        let mut j: usize = 0;
        while j < codes.len()
            invariant
                j <= codes@.len(),
                counts_all(m@, before + texts(codes@).take(j as int)),
            decreases codes@.len() - j,
        {
            let code = codes[j].as_str();
            let ghost seen = before + texts(codes@).take(j as int);
            let ghost more = before + texts(codes@).take(j + 1);
            let n: u64 = match m.get(code) {
                Some(n) => *n,
                None => 0,
            };
            proof {
                assert(more.drop_last() =~= seen);
                assert(more.last() == code@);
            }
            let ghost m0 = m@;
            m.insert(code, if n < u64::MAX { n + 1 } else { n });
            proof {
                assert forall|s: Seq<char>|
                    if times_in(more, s) > 0 {
                        #[trigger] m@.contains_key(s) && m@[s] == least(times_in(more, s), u64::MAX as nat)
                    } else {
                        !m@.contains_key(s)
                    } by {
                    assert(if times_in(seen, s) > 0 {
                        m0.contains_key(s) && m0[s] == least(times_in(seen, s), u64::MAX as nat)
                    } else {
                        !m0.contains_key(s)
                    });
                }
            }
            j = j + 1;
        }
        proof {
            assert(texts(codes@).take(codes@.len() as int) =~= texts(codes@));
        }
        i = i + 1;
    }
    proof {
        assert(decisions@.take(decisions@.len() as int) =~= decisions@);
    }
    m
}

/// Figures of a replay.
#[derive(Clone, Copy, Debug, PartialEq, Eq, Structural)]
pub struct ExportSummary {
    pub num_events: u64,
    pub num_snapshots: u64,
    pub num_decisions: u64,
    pub num_orders: u64,
    pub min_latency_ms: Option<u32>,
    pub avg_latency_ms: Option<Double>,
    pub max_latency_ms: Option<u32>,
    pub min_spread_pct: Option<Single>,
    pub avg_spread_pct: Option<Single>,
    pub max_spread_pct: Option<Single>,
}

/// The smallest latency from the first snapshot on.
pub open spec fn least_latency(snaps: Seq<FeatureSnapshot>) -> u32
    recommends
        snaps.len() > 0,
    decreases snaps.len(),
{
    if snaps.len() <= 1 {
        snaps[0].data_latency_ms
    } else {
        let before = least_latency(snaps.drop_last());
        if snaps.last().data_latency_ms < before {
            snaps.last().data_latency_ms
        } else {
            before
        }
    }
}

/// The largest latency.
pub open spec fn most_latency(snaps: Seq<FeatureSnapshot>) -> u32
    recommends
        snaps.len() > 0,
    decreases snaps.len(),
{
    if snaps.len() <= 1 {
        snaps[0].data_latency_ms
    } else {
        let before = most_latency(snaps.drop_last());
        if snaps.last().data_latency_ms > before {
            snaps.last().data_latency_ms
        } else {
            before
        }
    }
}

/// The latencies added up one by one in double precision.
pub open spec fn latency_sum(snaps: Seq<FeatureSnapshot>) -> Num
    decreases snaps.len(),
{
    if snaps.len() == 0 {
        zero()
    } else {
        sum(
            double_format(),
            latency_sum(snaps.drop_last()),
            double_int(snaps.last().data_latency_ms as int),
        )
    }
}

/// The spreads added up one by one in double precision.
pub open spec fn spread_sum(snaps: Seq<FeatureSnapshot>) -> Num
    decreases snaps.len(),
{
    if snaps.len() == 0 {
        zero()
    } else {
        sum(
            double_format(),
            spread_sum(snaps.drop_last()),
            widened(snaps.last().spread_pct@),
        )
    }
}

/// The smallest spread; those that are not a number are passed over.
pub open spec fn least_spread(snaps: Seq<FeatureSnapshot>) -> Num
    decreases snaps.len(),
{
    if snaps.len() == 0 {
        Num::Nan
    } else {
        smaller(least_spread(snaps.drop_last()), snaps.last().spread_pct@)
    }
}

/// The largest spread; those that are not a number are passed over.
pub open spec fn most_spread(snaps: Seq<FeatureSnapshot>) -> Num
    decreases snaps.len(),
{
    if snaps.len() == 0 {
        Num::Nan
    } else {
        larger(most_spread(snaps.drop_last()), snaps.last().spread_pct@)
    }
}

pub open spec fn mean_of(total: Num, n: nat) -> Num {
    quotient(double_format(), total, double_int(n as int))
}

/// The figures of a replay; latencies and spreads only where there are snapshots.
pub open spec fn is_summary(r: ReplayResult, s: ExportSummary) -> bool {
    let snaps = r.snapshots@;
    &&& s.num_events == r.bbo_ticks@.len()
    &&& s.num_snapshots == snaps.len()
    &&& s.num_decisions == r.decisions@.len()
    &&& s.num_orders == r.orders@.len()
    &&& if snaps.len() == 0 {
        &&& s.min_latency_ms is None
        &&& s.avg_latency_ms is None
        &&& s.max_latency_ms is None
        &&& s.min_spread_pct is None
        &&& s.avg_spread_pct is None
        &&& s.max_spread_pct is None
    } else {
        &&& s.min_latency_ms == Some(least_latency(snaps))
        &&& s.max_latency_ms == Some(most_latency(snaps))
        &&& s.avg_latency_ms matches Some(x) && x@ == mean_of(latency_sum(snaps), snaps.len())
        &&& s.min_spread_pct matches Some(x) && x@ == least_spread(snaps)
        &&& s.max_spread_pct matches Some(x) && x@ == most_spread(snaps)
        &&& s.avg_spread_pct matches Some(x) && x@ == narrowed(
            mean_of(spread_sum(snaps), snaps.len()),
        )
    }
}

/// The figures of a replay.
pub fn build_summary(r: &ReplayResult) -> (s: ExportSummary)
    ensures
        is_summary(*r, s),
{
    let snaps = &r.snapshots;
    let n: usize = snaps.len();
    let mut s = ExportSummary {
        num_events: r.bbo_ticks.len() as u64,
        num_snapshots: n as u64,
        num_decisions: r.decisions.len() as u64,
        num_orders: r.orders.len() as u64,
        min_latency_ms: None,
        avg_latency_ms: None,
        max_latency_ms: None,
        min_spread_pct: None,
        avg_spread_pct: None,
        max_spread_pct: None,
    };
    if n == 0 {
        return s;
    }
    let mut min_latency: u32 = snaps[0].data_latency_ms;
    let mut max_latency: u32 = snaps[0].data_latency_ms;
    let mut latency = Double::zero();
    let mut spread = Double::zero();
    let mut low = Single::nan();
    let mut high = Single::nan();
    let mut i: usize = 0;
    proof {
        assert(snaps@.take(0) =~= Seq::<FeatureSnapshot>::empty());
    }
    while i < n
        invariant
            n == snaps@.len(),
            0 <= i <= n,
            n > 0,
            i == 0 ==> min_latency == snaps@[0].data_latency_ms && max_latency == min_latency,
            i > 0 ==> min_latency == least_latency(snaps@.take(i as int)),
            i > 0 ==> max_latency == most_latency(snaps@.take(i as int)),
            latency@ == latency_sum(snaps@.take(i as int)),
            spread@ == spread_sum(snaps@.take(i as int)),
            low@ == least_spread(snaps@.take(i as int)),
            high@ == most_spread(snaps@.take(i as int)),
        decreases n - i,
    {
        let x = &snaps[i];
        proof {
            let upto = snaps@.take(i + 1);
            assert(upto.drop_last() =~= snaps@.take(i as int));
            assert(upto.last() == snaps@[i as int]);
            if i == 0 {
                assert(upto[0] == snaps@[0]);
            }
        }
        if x.data_latency_ms < min_latency {
            min_latency = x.data_latency_ms;
        }
        if x.data_latency_ms > max_latency {
            max_latency = x.data_latency_ms;
        }
        latency = latency.plus(Double::from_unsigned(x.data_latency_ms as u64));
        spread = spread.plus(Double::from_single(x.spread_pct));
        low = low.smallest(x.spread_pct);
        high = high.largest(x.spread_pct);
        i = i + 1;
    }
    proof {
        assert(snaps@.take(n as int) =~= snaps@);
    }
    let count = Double::from_unsigned(n as u64);
    s.min_latency_ms = Some(min_latency);
    s.max_latency_ms = Some(max_latency);
    s.avg_latency_ms = Some(latency.over(count));
    s.min_spread_pct = Some(low);
    s.max_spread_pct = Some(high);
    s.avg_spread_pct = Some(spread.over(count).to_single());
    s
}

} // verus!
