//! What exports promise of the runs that they tell of.

use super::engine::ReplayResult;
use super::export::{
    all_reasons, counts_all, decision_cells, export_files, extension_of, feature_cells,
    feature_columns, format_named, is_summary, latency_sum, least_latency, least_spread,
    most_latency, most_spread, spread_sum, times_in, CellModel, ExportFile, ExportFormat,
    ExportSummary, RunExport,
};
use super::paper::PaperResult;
use super::paper_export::{
    account_cells, account_columns, drawdown_of, fill_cells, fill_columns, is_paper_summary,
    paper_files, PaperFile, PaperSummary,
};
use crate::common::events::texts;
use crate::common::{Action, Decision, FeatureSnapshot};
use crate::num::double::double_int;
use crate::num::model::{
    difference, double_format, larger, less, narrowed, product, quotient, same, smaller, sum,
    widened, zero, Num,
};
use crate::sim_broker::{AccountSnapshot, Fill};
use crate::text::digits::decimal_text;
use vstd::prelude::*;

verus! {

proof fn lemma_latency_bounds(snaps: Seq<FeatureSnapshot>)
    requires
        snaps.len() > 0,
    ensures
        forall|i: int|
            0 <= i < snaps.len() ==> least_latency(snaps) <= (
            #[trigger] snaps[i]).data_latency_ms <= most_latency(snaps),
        exists|i: int| 0 <= i < snaps.len() && (#[trigger] snaps[i]).data_latency_ms
            == least_latency(snaps),
        exists|i: int| 0 <= i < snaps.len() && (#[trigger] snaps[i]).data_latency_ms
            == most_latency(snaps),
    decreases snaps.len(),
{
    let n = snaps.len() - 1;
    if n > 0 {
        let before = snaps.drop_last();
        lemma_latency_bounds(before);
        assert forall|i: int| 0 <= i < snaps.len() implies least_latency(snaps) <= (
        #[trigger] snaps[i]).data_latency_ms <= most_latency(snaps) by {
            if i < n {
                assert(before[i] == snaps[i]);
            }
        }
        let a = choose|i: int| 0 <= i < before.len() && (#[trigger] before[i]).data_latency_ms
            == least_latency(before);
        let b = choose|i: int| 0 <= i < before.len() && (#[trigger] before[i]).data_latency_ms
            == most_latency(before);
        assert(snaps[a] == before[a] && snaps[b] == before[b]);
        assert(snaps[n] == snaps.last());
    } else {
        assert(snaps[0].data_latency_ms == least_latency(snaps));
        assert(snaps[0].data_latency_ms == most_latency(snaps));
    }
}

/// The summary counts what the run holds. No latency lies outside its bounds, and each bound is
/// the latency of some snapshot.
pub proof fn law_summary_bounds_the_latencies(r: ReplayResult, s: ExportSummary)
    requires
        is_summary(r, s),
    ensures
        s.num_events == r.bbo_ticks@.len(),
        s.num_snapshots == r.snapshots@.len(),
        s.num_decisions == r.decisions@.len(),
        s.num_orders == r.orders@.len(),
        r.snapshots@.len() == 0 <==> s.min_latency_ms is None,
        r.snapshots@.len() == 0 <==> s.max_latency_ms is None,
        r.snapshots@.len() == 0 <==> s.avg_latency_ms is None,
        r.snapshots@.len() > 0 ==> {
            &&& forall|i: int|
                0 <= i < r.snapshots@.len() ==> s.min_latency_ms->Some_0 <= (
                #[trigger] r.snapshots@[i]).data_latency_ms <= s.max_latency_ms->Some_0
            &&& exists|i: int|
                0 <= i < r.snapshots@.len() && (#[trigger] r.snapshots@[i]).data_latency_ms
                    == s.min_latency_ms->Some_0
            &&& exists|i: int|
                0 <= i < r.snapshots@.len() && (#[trigger] r.snapshots@[i]).data_latency_ms
                    == s.max_latency_ms->Some_0
        },
{
    if r.snapshots@.len() > 0 {
        lemma_latency_bounds(r.snapshots@);
    }
}

proof fn lemma_spread_bounds(snaps: Seq<FeatureSnapshot>)
    requires
        snaps.len() > 0,
        forall|i: int| 0 <= i < snaps.len() ==> !((#[trigger] snaps[i]).spread_pct@ is Nan),
    ensures
        !(least_spread(snaps) is Nan),
        !(most_spread(snaps) is Nan),
        forall|i: int|
            0 <= i < snaps.len() ==> !less((#[trigger] snaps[i]).spread_pct@, least_spread(snaps))
                && !less(most_spread(snaps), snaps[i].spread_pct@),
        exists|i: int| 0 <= i < snaps.len() && (#[trigger] snaps[i]).spread_pct@ == least_spread(
            snaps,
        ),
        exists|i: int| 0 <= i < snaps.len() && (#[trigger] snaps[i]).spread_pct@ == most_spread(
            snaps,
        ),
    decreases snaps.len(),
{
    let n = snaps.len() - 1;
    let before = snaps.drop_last();
    assert(snaps[n] == snaps.last());
    assert(!(snaps[n].spread_pct@ is Nan));
    if n > 0 {
        assert forall|i: int| 0 <= i < before.len() implies !((#[trigger] before[i]).spread_pct@
            is Nan) by {
            assert(before[i] == snaps[i]);
        }
        lemma_spread_bounds(before);
        assert forall|i: int| 0 <= i < snaps.len() implies !less(
            (#[trigger] snaps[i]).spread_pct@,
            least_spread(snaps),
        ) && !less(most_spread(snaps), snaps[i].spread_pct@) by {
            if i < n {
                assert(before[i] == snaps[i]);
                assert(!less(before[i].spread_pct@, least_spread(before)));
                assert(!less(most_spread(before), before[i].spread_pct@));
                assert(!(snaps[i].spread_pct@ is Nan));
            }
        }
        let a = choose|i: int| 0 <= i < before.len() && (#[trigger] before[i]).spread_pct@
            == least_spread(before);
        let b = choose|i: int| 0 <= i < before.len() && (#[trigger] before[i]).spread_pct@
            == most_spread(before);
        assert(snaps[a] == before[a] && snaps[b] == before[b]);
    } else {
        assert(least_spread(before) is Nan && most_spread(before) is Nan);
    }
}

/// No spread lies outside the bounds of the summary, and each bound is the spread of some
/// snapshot.
pub proof fn law_summary_bounds_the_spreads(r: ReplayResult, s: ExportSummary)
    requires
        is_summary(r, s),
        r.snapshots@.len() > 0,
        forall|i: int|
            0 <= i < r.snapshots@.len() ==> !((#[trigger] r.snapshots@[i]).spread_pct@ is Nan),
    ensures
        s.min_spread_pct is Some && s.max_spread_pct is Some && s.avg_spread_pct is Some,
        forall|i: int|
            0 <= i < r.snapshots@.len() ==> !less(
                (#[trigger] r.snapshots@[i]).spread_pct@,
                s.min_spread_pct->Some_0@,
            ) && !less(s.max_spread_pct->Some_0@, r.snapshots@[i].spread_pct@),
        exists|i: int|
            0 <= i < r.snapshots@.len() && (#[trigger] r.snapshots@[i]).spread_pct@
                == s.min_spread_pct->Some_0@,
        exists|i: int|
            0 <= i < r.snapshots@.len() && (#[trigger] r.snapshots@[i]).spread_pct@
                == s.max_spread_pct->Some_0@,
{
    lemma_spread_bounds(r.snapshots@);
}

/// Latencies are added up one by one.
pub open spec fn with_latency(total: Num, s: FeatureSnapshot) -> Num {
    sum(double_format(), total, double_int(s.data_latency_ms as int))
}

/// Spreads are added up one by one in double precision.
pub open spec fn with_spread(total: Num, s: FeatureSnapshot) -> Num {
    sum(double_format(), total, widened(s.spread_pct@))
}

proof fn lemma_sums_fold(snaps: Seq<FeatureSnapshot>)
    ensures
        latency_sum(snaps) == snaps.fold_left(
            zero(),
            |t: Num, s: FeatureSnapshot| with_latency(t, s),
        ),
        spread_sum(snaps) == snaps.fold_left(
            zero(),
            |t: Num, s: FeatureSnapshot| with_spread(t, s),
        ),
    decreases snaps.len(),
{
    if snaps.len() > 0 {
        lemma_sums_fold(snaps.drop_last());
    }
}

/// The averages are the sums over all snapshots, divided by how many there are.
pub proof fn law_summary_averages(r: ReplayResult, s: ExportSummary)
    requires
        is_summary(r, s),
        r.snapshots@.len() > 0,
    ensures
        ({
            let f = double_format();
            let n = double_int(r.snapshots@.len() as int);
            let latency = r.snapshots@.fold_left(
                zero(),
                |t: Num, s: FeatureSnapshot| with_latency(t, s),
            );
            let spread = r.snapshots@.fold_left(
                zero(),
                |t: Num, s: FeatureSnapshot| with_spread(t, s),
            );
            &&& s.avg_latency_ms matches Some(x)
            &&& x@ == quotient(f, latency, n)
            &&& s.avg_spread_pct matches Some(y)
            &&& y@ == narrowed(quotient(f, spread, n))
        }),
{
    lemma_sums_fold(r.snapshots@);
}

/// A reason is counted as often as it occurs in the decisions, and no other reason is listed.
pub proof fn law_histogram_counts_occurrences(
    m: Map<Seq<char>, u64>,
    decisions: Seq<Decision>,
    reason: Seq<char>,
)
    requires
        counts_all(m, all_reasons(decisions)),
    ensures
        ({
            let n = reasons_in(decisions).to_multiset().count(reason);
            &&& m.contains_key(reason) <==> n > 0
            &&& 0 < n <= u64::MAX ==> m[reason] == n
        }),
{
    lemma_reasons(decisions);
    lemma_times(all_reasons(decisions), reason);
}

/// All reasons of all decisions.
pub open spec fn reasons_in(decisions: Seq<Decision>) -> Seq<Seq<char>> {
    decisions.map_values(
        |d: Decision| d.reason_codes@.map_values(|s: String| s@),
    ).flatten_alt()
}

proof fn lemma_reasons(decisions: Seq<Decision>)
    ensures
        all_reasons(decisions) == reasons_in(decisions),
    decreases decisions.len(),
{
    let lists = decisions.map_values(|d: Decision| d.reason_codes@.map_values(|s: String| s@));
    if decisions.len() > 0 {
        lemma_reasons(decisions.drop_last());
        assert(lists.drop_last() =~= decisions.drop_last().map_values(
            |d: Decision| d.reason_codes@.map_values(|s: String| s@),
        ));
        assert(lists.last() =~= texts(decisions.last().reason_codes@));
    } else {
        assert(lists.len() == 0);
    }
}

proof fn lemma_times(v: Seq<Seq<char>>, s: Seq<char>)
    ensures
        times_in(v, s) == v.to_multiset().count(s),
    decreases v.len(),
{
    broadcast use vstd::seq_lib::group_to_multiset_ensures;

    if v.len() > 0 {
        lemma_times(v.drop_last(), s);
        assert(v.drop_last().push(v.last()) =~= v);
    } else {
        assert(v =~= Seq::empty());
    }
}

/// A file is written exactly where there is something to write into it and it is asked for; those
/// of a golden pack come together. Reasons and summary are always written.
pub proof fn law_export_writes_what_is_asked(
    r: ReplayResult,
    opts: RunExport,
    golden: bool,
    meta: bool,
)
    ensures
        ({
            let files = export_files(r, opts, golden, meta);
            &&& files.contains(ExportFile::Features) <==> r.snapshots@.len() > 0
            &&& files.contains(ExportFile::Decisions) <==> opts.write_decisions
                && r.decisions@.len() > 0
            &&& files.contains(ExportFile::RawBbos) <==> opts.log_raw_ticks && r.bbo_ticks@.len()
                > 0
            &&& files.contains(ExportFile::GoldenRawBbos) <==> golden
            &&& files.contains(ExportFile::GoldenFeatures) <==> golden
            &&& files.contains(ExportFile::GoldenDecisions) <==> golden
            &&& files.contains(ExportFile::GoldenMeta) <==> golden && meta
            &&& files.contains(ExportFile::DecisionReasons)
            &&& files.contains(ExportFile::Summary)
        }),
{
    let files = export_files(r, opts, golden, meta);
    let (a, b, c) = (
        r.snapshots@.len() > 0,
        opts.write_decisions && r.decisions@.len() > 0,
        opts.log_raw_ticks && r.bbo_ticks@.len() > 0,
    );
    let i: int = if a {
        1
    } else {
        0
    };
    let j: int = i + if b {
        1int
    } else {
        0
    };
    let k: int = j + if c {
        1int
    } else {
        0
    };
    let l: int = k + if golden {
        3int
    } else {
        0
    };
    let m: int = l + if golden && meta {
        1int
    } else {
        0
    };
    assert(files.len() == m + 2);
    assert(a ==> files[0] == ExportFile::Features);
    assert(b ==> files[i] == ExportFile::Decisions);
    assert(c ==> files[j] == ExportFile::RawBbos);
    assert(golden ==> files[k] == ExportFile::GoldenRawBbos && files[k + 1]
        == ExportFile::GoldenFeatures && files[k + 2] == ExportFile::GoldenDecisions);
    assert(golden && meta ==> files[l] == ExportFile::GoldenMeta);
    assert(files[m] == ExportFile::DecisionReasons && files[m + 1] == ExportFile::Summary);
}

/// The name of a format, in whatever case, is also its extension.
pub proof fn law_formats_are_named_by_their_extension(f: ExportFormat)
    ensures
        format_named(extension_of(f)) == Some(f),
        extension_of(ExportFormat::Csv) == "csv"@,
        extension_of(ExportFormat::Jsonl) == "jsonl"@,
        extension_of(ExportFormat::Parquet) == "parquet"@,
{
    reveal_strlit("csv");
    reveal_strlit("jsonl");
    reveal_strlit("parquet");
    assert("csv"@.len() == 3 && "jsonl"@.len() == 5 && "parquet"@.len() == 7);
}

/// A row of features has a cell for each column: moment, symbol, version, spread and latency, then
/// the features in their order.
pub proof fn law_feature_cells_stand_under_their_columns(s: FeatureSnapshot, i: int)
    requires
        0 <= i < s.features@.len(),
    ensures
        ({
            let columns = feature_columns(s.features@.len());
            let cells = feature_cells(s);
            &&& columns.len() == cells.len()
            &&& columns[0] == "ts_exchange"@ && cells[0] == CellModel::Signed(s.ts_exchange)
            &&& columns[1] == "symbol"@ && cells[1] == CellModel::Text(s.symbol@)
            &&& columns[2] == "feature_version"@ && cells[2] == CellModel::Unsigned(
                s.feature_version,
            )
            &&& columns[3] == "spread_pct"@ && cells[3] == CellModel::Single(s.spread_pct)
            &&& columns[4] == "data_latency_ms"@ && cells[4] == CellModel::Unsigned(
                s.data_latency_ms,
            )
            &&& columns[5 + i] == "f"@ + decimal_text(i) && cells[5 + i] == CellModel::Single(
                s.features@[i],
            )
        }),
{
}

/// A row of a decision: moment, symbol, action, confidence, model version and reasons.
pub proof fn law_decision_cells(d: Decision, reasons: Seq<char>)
    ensures
        ({
            let cells = decision_cells(d, reasons);
            &&& cells.len() == 6
            &&& cells[0] == CellModel::Signed(d.ts_exchange)
            &&& cells[1] == CellModel::Text(d.symbol@)
            &&& d.action == Action::Long ==> cells[2] == CellModel::Text("long"@)
            &&& d.action == Action::Short ==> cells[2] == CellModel::Text("short"@)
            &&& d.action == Action::NoTrade ==> cells[2] == CellModel::Text("no_trade"@)
            &&& cells[3] == CellModel::Single(d.confidence)
            &&& cells[4] == CellModel::Text(d.model_version@)
            &&& cells[5] == CellModel::Text(reasons)
        }),
{
}

/// A row of a fill has a cell for each column.
pub proof fn law_fill_cells_stand_under_their_columns(f: Fill)
    ensures
        ({
            let columns = fill_columns();
            let cells = fill_cells(f);
            &&& columns.len() == 10 && cells.len() == 10
            &&& columns[0] == "ts_exchange"@ && cells[0] == CellModel::Signed(f.ts_exchange)
            &&& columns[1] == "symbol"@ && cells[1] == CellModel::Text(f.symbol@)
            &&& columns[2] == "order_id"@ && cells[2] == CellModel::Text(f.order_id@)
            &&& columns[3] == "action"@ && cells[3] == CellModel::Text(f.action@)
            &&& columns[4] == "qty"@ && cells[4] == CellModel::Double(f.qty)
            &&& columns[5] == "fill_price"@ && cells[5] == CellModel::Double(f.fill_price)
            &&& columns[6] == "notional"@ && cells[6] == CellModel::Double(f.notional)
            &&& columns[7] == "fee"@ && cells[7] == CellModel::Double(f.fee)
            &&& columns[8] == "slippage_bps"@ && cells[8] == CellModel::Single(f.slippage_bps)
            &&& columns[9] == "reason_code"@ && cells[9] == CellModel::Text(f.reason_code@)
        }),
{
}

/// A row of an account has a cell for each column.
pub proof fn law_account_cells_stand_under_their_columns(a: AccountSnapshot)
    ensures
        ({
            let columns = account_columns();
            let cells = account_cells(a);
            &&& columns.len() == 14 && cells.len() == 14
            &&& columns[0] == "ts_exchange"@ && cells[0] == CellModel::Signed(a.ts_exchange)
            &&& columns[1] == "symbol"@ && cells[1] == CellModel::Text(a.symbol@)
            &&& columns[2] == "cash_usdt"@ && cells[2] == CellModel::Double(a.cash_usdt)
            &&& columns[3] == "position_side"@ && cells[3] == CellModel::Text(a.position_side@)
            &&& columns[4] == "position_qty"@ && cells[4] == CellModel::Double(a.position_qty)
            &&& columns[5] == "entry_price"@ && cells[5] == CellModel::Double(a.entry_price)
            &&& columns[6] == "mark_price"@ && cells[6] == CellModel::Double(a.mark_price)
            &&& columns[7] == "unrealized_pnl"@ && cells[7] == CellModel::Double(
                a.unrealized_pnl,
            )
            &&& columns[8] == "realized_pnl"@ && cells[8] == CellModel::Double(a.realized_pnl)
            &&& columns[9] == "equity_usdt"@ && cells[9] == CellModel::Double(a.equity_usdt)
            &&& columns[10] == "fees_paid"@ && cells[10] == CellModel::Double(a.fees_paid)
            &&& columns[11] == "trades_total"@ && cells[11] == CellModel::Unsigned(
                a.trades_total,
            )
            &&& columns[12] == "wins_total"@ && cells[12] == CellModel::Unsigned(a.wins_total)
            &&& columns[13] == "losses_total"@ && cells[13] == CellModel::Unsigned(
                a.losses_total,
            )
        }),
{
}

/// Fills and accounts are written where there are any, and the summary always, last.
pub proof fn law_paper_files(r: PaperResult)
    ensures
        ({
            let files = paper_files(r);
            &&& files.contains(PaperFile::Fills) <==> r.fills@.len() > 0
            &&& files.contains(PaperFile::Accounts) <==> r.account_snapshots@.len() > 0
            &&& files.len() > 0 && files.last() == PaperFile::Summary
        }),
{
    let files = paper_files(r);
    if r.fills@.len() > 0 {
        assert(files[0] == PaperFile::Fills);
        if r.account_snapshots@.len() > 0 {
            assert(files[1] == PaperFile::Accounts);
        }
    } else if r.account_snapshots@.len() > 0 {
        assert(files[0] == PaperFile::Accounts);
    }
}

/// The highest equity among the accounts.
pub open spec fn is_peak(accounts: Seq<AccountSnapshot>, peak: Num) -> bool {
    &&& exists|i: int|
        0 <= i < accounts.len() && (#[trigger] accounts[i]).equity_usdt@ == peak
    &&& forall|i: int|
        0 <= i < accounts.len() ==> !less(peak, (#[trigger] accounts[i]).equity_usdt@)
}

/// The loss from a peak as a share of it.
pub open spec fn fall_from(peak: Num, equity: Num) -> Num {
    quotient(double_format(), difference(double_format(), peak, equity), peak)
}

/// No equity is a not-a-number.
pub open spec fn all_numbers(accounts: Seq<AccountSnapshot>) -> bool {
    forall|i: int| 0 <= i < accounts.len() ==> !((#[trigger] accounts[i]).equity_usdt@ is Nan)
}

proof fn lemma_drawdown(accounts: Seq<AccountSnapshot>)
    requires
        all_numbers(accounts),
    ensures
        ({
            let d = drawdown_of(accounts);
            &&& !(d.fall is Nan)
            &&& !(d.peak is Nan)
            &&& !less(d.fall, zero())
            &&& forall|i: int|
                0 <= i < accounts.len() ==> !less(d.peak, (#[trigger] accounts[i]).equity_usdt@)
            &&& accounts.len() > 0 && d.peak is Fin ==> is_peak(accounts, d.peak)
            &&& d.fall == zero() || exists|j: int, peak: Num|
                0 <= j < accounts.len() && #[trigger] is_peak(accounts.take(j + 1), peak)
                    && d.fall == fall_from(peak, (#[trigger] accounts[j]).equity_usdt@)
        }),
    decreases accounts.len(),
{
    if accounts.len() > 0 {
        let n = accounts.len() - 1;
        let before = accounts.drop_last();
        assert forall|i: int| 0 <= i < before.len() implies !((
        #[trigger] before[i]).equity_usdt@ is Nan) by {
            assert(before[i] == accounts[i]);
        }
        lemma_drawdown(before);
        let d = drawdown_of(before);
        let e = accounts[n].equity_usdt@;
        let now = drawdown_of(accounts);
        assert(!(e is Nan));
        assert forall|i: int| 0 <= i < accounts.len() implies !less(
            now.peak,
            (#[trigger] accounts[i]).equity_usdt@,
        ) by {
            if i < n {
                assert(before[i] == accounts[i]);
                assert(!less(d.peak, before[i].equity_usdt@));
                assert(!(accounts[i].equity_usdt@ is Nan));
            }
        }
        if now.peak is Fin {
            if less(d.peak, e) {
                assert(accounts[n].equity_usdt@ == now.peak);
            } else {
                if before.len() == 0 {
                    assert(d.peak is Inf);
                }
                let i = choose|i: int|
                    0 <= i < before.len() && (#[trigger] before[i]).equity_usdt@ == d.peak;
                assert(accounts[i].equity_usdt@ == now.peak);
            }
            assert(is_peak(accounts, now.peak));
        }
        assert(accounts.take(n + 1) =~= accounts);
        if now.fall != d.fall {
            assert(is_peak(accounts.take(n + 1), now.peak));
            assert(now.fall == fall_from(now.peak, accounts[n].equity_usdt@));
        } else if d.fall != zero() {
            let (j, peak) = choose|j: int, peak: Num|
                0 <= j < before.len() && #[trigger] is_peak(before.take(j + 1), peak) && d.fall
                    == fall_from(peak, (#[trigger] before[j]).equity_usdt@);
            assert(before.take(j + 1) =~= accounts.take(j + 1));
            assert(is_peak(accounts.take(j + 1), peak));
            assert(accounts[j] == before[j]);
        }
    }
}

proof fn lemma_drawdown_grows(accounts: Seq<AccountSnapshot>, j: int)
    requires
        all_numbers(accounts),
        0 <= j < accounts.len(),
        drawdown_of(accounts.take(j + 1)).peak is Fin,
        less(zero(), drawdown_of(accounts.take(j + 1)).peak),
    ensures
        !less(
            drawdown_of(accounts).fall,
            fall_from(drawdown_of(accounts.take(j + 1)).peak, accounts[j].equity_usdt@),
        ),
    decreases accounts.len(),
{
    let n = accounts.len() - 1;
    let before = accounts.drop_last();
    lemma_drawdown(accounts);
    assert forall|i: int| 0 <= i < before.len() implies !((#[trigger] before[i]).equity_usdt@
        is Nan) by {
        assert(before[i] == accounts[i]);
    }
    lemma_drawdown(before);
    if j < n {
        assert(before.take(j + 1) =~= accounts.take(j + 1));
        assert(before[j] == accounts[j]);
        lemma_drawdown_grows(before, j);
    } else {
        assert(accounts.take(j + 1) =~= accounts);
    }
}

/// The largest drawdown is in percent, at least as large as the loss from the highest equity so
/// far at any moment, and, unless it is nothing, the loss at some moment.
pub proof fn law_drawdown_is_the_largest_fall(r: PaperResult, s: PaperSummary, j: int, peak: Num)
    requires
        is_paper_summary(r, s),
        all_numbers(r.account_snapshots@),
        0 <= j < r.account_snapshots@.len(),
        is_peak(r.account_snapshots@.take(j + 1), peak),
        peak is Fin,
        less(zero(), peak),
    ensures
        exists|fall: Num|
            {
                &&& s.max_drawdown_pct@ == #[trigger] product(
                    double_format(),
                    fall,
                    double_int(100),
                )
                &&& !less(fall, zero())
                &&& !less(fall, fall_from(peak, r.account_snapshots@[j].equity_usdt@))
                &&& fall == zero() || exists|i: int, top: Num|
                    0 <= i < r.account_snapshots@.len() && #[trigger] is_peak(
                        r.account_snapshots@.take(i + 1),
                        top,
                    ) && fall == fall_from(
                        top,
                        (#[trigger] r.account_snapshots@[i]).equity_usdt@,
                    )
            },
{
    let a = r.account_snapshots@;
    let upto = a.take(j + 1);
    assert forall|i: int| 0 <= i < upto.len() implies !((#[trigger] upto[i]).equity_usdt@
        is Nan) by {
        assert(upto[i] == a[i]);
    }
    lemma_drawdown(a);
    lemma_drawdown(upto);
    let p = drawdown_of(upto).peak;
    let i = choose|i: int| 0 <= i < upto.len() && (#[trigger] upto[i]).equity_usdt@ == peak;
    assert(!less(p, upto[i].equity_usdt@));
    if p is Fin {
        let k = choose|k: int| 0 <= k < upto.len() && (#[trigger] upto[k]).equity_usdt@ == p;
        assert(!less(peak, upto[k].equity_usdt@));
        assert(same(p, peak));
        assert(p == peak);
        lemma_drawdown_grows(a, j);
    } else {
        lemma_peak_is_attained(upto);
    }
    let fall = drawdown_of(a).fall;
    assert(s.max_drawdown_pct@ == product(double_format(), fall, double_int(100)));
}

proof fn lemma_peak_is_attained(accounts: Seq<AccountSnapshot>)
    requires
        all_numbers(accounts),
    ensures
        drawdown_of(accounts).peak matches Num::Inf { neg } && !neg ==> exists|i: int|
            0 <= i < accounts.len() && (#[trigger] accounts[i]).equity_usdt@ == drawdown_of(
                accounts,
            ).peak,
    decreases accounts.len(),
{
    if accounts.len() > 0 {
        let before = accounts.drop_last();
        assert forall|i: int| 0 <= i < before.len() implies !((
        #[trigger] before[i]).equity_usdt@ is Nan) by {
            assert(before[i] == accounts[i]);
        }
        lemma_peak_is_attained(before);
        let d = drawdown_of(before);
        let n = accounts.len() - 1;
        if less(d.peak, accounts[n].equity_usdt@) {
            assert(accounts[n].equity_usdt@ == drawdown_of(accounts).peak);
        } else if d.peak matches Num::Inf { neg } && !neg {
            let i = choose|i: int|
                0 <= i < before.len() && (#[trigger] before[i]).equity_usdt@ == d.peak;
            assert(accounts[i] == before[i]);
        }
    }
}

/// The summary of a simulation tells how it ended: the equity and the counts of the last account,
/// or the initial cash and nothing where there is none. The gain is what the equity ended with
/// less what it began with, the win rate the share of wins among the trades.
pub proof fn law_paper_summary_tells_the_end(r: PaperResult, s: PaperSummary)
    requires
        is_paper_summary(r, s),
    ensures
        ({
            let f = double_format();
            let a = r.account_snapshots@;
            let end = if a.len() > 0 {
                a.last().equity_usdt@
            } else {
                r.initial_cash_usdt@
            };
            &&& s.num_fills == r.fills@.len()
            &&& s.num_snapshots == a.len()
            &&& s.initial_cash@ == r.initial_cash_usdt@
            &&& s.final_equity@ == end
            &&& s.total_pnl@ == difference(f, end, r.initial_cash_usdt@)
            &&& a.len() > 0 ==> s.total_trades == a.last().trades_total && s.total_wins
                == a.last().wins_total && s.total_losses == a.last().losses_total && s.total_fees@
                == a.last().fees_paid@
            &&& a.len() == 0 ==> s.total_trades == 0 && s.total_wins == 0 && s.total_losses == 0
                && s.total_fees@ == zero()
            &&& s.total_trades > 0 ==> s.win_rate@ == quotient(
                f,
                double_int(s.total_wins as int),
                double_int(s.total_trades as int),
            )
            &&& s.total_trades == 0 ==> s.win_rate@ == zero()
        }),
{
}

/// The bounds of the spreads are the smallest and the largest one by one, numbers going before
/// not-a-numbers.
pub proof fn law_spread_bounds_are_taken_one_by_one(
    snaps: Seq<FeatureSnapshot>,
    s: FeatureSnapshot,
)
    ensures
        least_spread(Seq::empty()) is Nan,
        most_spread(Seq::empty()) is Nan,
        least_spread(snaps.push(s)) == smaller(least_spread(snaps), s.spread_pct@),
        most_spread(snaps.push(s)) == larger(most_spread(snaps), s.spread_pct@),
{
    assert(snaps.push(s).drop_last() =~= snaps);
}

/// The drawdown moves on with every account: the peak rises to a higher equity, and the fall grows
/// to a larger one from a peak that is finite and positive.
pub proof fn law_drawdown_moves_on(accounts: Seq<AccountSnapshot>, a: AccountSnapshot)
    ensures
        ({
            let old = drawdown_of(accounts);
            let new = drawdown_of(accounts.push(a));
            let e = a.equity_usdt@;
            let peak = if less(old.peak, e) {
                e
            } else {
                old.peak
            };
            let fall = fall_from(peak, e);
            &&& new.peak == peak
            &&& peak is Fin && less(zero(), peak) && less(old.fall, fall) ==> new.fall == fall
            &&& !(peak is Fin && less(zero(), peak) && less(old.fall, fall)) ==> new.fall
                == old.fall
            &&& drawdown_of(Seq::empty()).fall == zero()
            &&& drawdown_of(Seq::empty()).peak == (Num::Inf { neg: true })
        }),
{
    assert(accounts.push(a).drop_last() =~= accounts);
}

} // verus!
