//! What is written of a simulation.

use super::export::{cell_views, Cell, CellModel, ExportFormat, ParquetUnsupported};
use super::paper::PaperResult;
use crate::common::events::texts;
use crate::num::double::double_int;
use crate::num::model::{difference, double_format, less, product, quotient, zero, Num};
use crate::num::Double;
use crate::sim_broker::paper_broker::{AccountSnapshot, Fill};
use vstd::prelude::*;

verus! {

/// The columns of a table of fills.
pub open spec fn fill_columns() -> Seq<Seq<char>> {
    seq![
        "ts_exchange"@,
        "symbol"@,
        "order_id"@,
        "action"@,
        "qty"@,
        "fill_price"@,
        "notional"@,
        "fee"@,
        "slippage_bps"@,
        "reason_code"@,
    ]
}

pub fn fill_header() -> (r: Vec<String>)
    ensures
        texts(r@) == fill_columns(),
{
    let mut r: Vec<String> = Vec::new();
    r.push("ts_exchange".to_string());
    r.push("symbol".to_string());
    r.push("order_id".to_string());
    r.push("action".to_string());
    r.push("qty".to_string());
    r.push("fill_price".to_string());
    r.push("notional".to_string());
    r.push("fee".to_string());
    r.push("slippage_bps".to_string());
    r.push("reason_code".to_string());
    proof {
        assert(texts(r@) =~= fill_columns());
    }
    r
}

pub open spec fn fill_cells(f: Fill) -> Seq<CellModel> {
    seq![
        CellModel::Signed(f.ts_exchange),
        CellModel::Text(f.symbol@),
        CellModel::Text(f.order_id@),
        CellModel::Text(f.action@),
        CellModel::Double(f.qty),
        CellModel::Double(f.fill_price),
        CellModel::Double(f.notional),
        CellModel::Double(f.fee),
        CellModel::Single(f.slippage_bps),
        CellModel::Text(f.reason_code@),
    ]
}

/// The row of a fill.
pub fn fill_row(f: &Fill) -> (r: Vec<Cell>)
    ensures
        cell_views(r@) == fill_cells(*f),
{
    let mut r: Vec<Cell> = Vec::new();
    r.push(Cell::Signed(f.ts_exchange));
    r.push(Cell::Text(f.symbol.clone()));
    r.push(Cell::Text(f.order_id.clone()));
    r.push(Cell::Text(f.action.clone()));
    r.push(Cell::Double(f.qty));
    r.push(Cell::Double(f.fill_price));
    r.push(Cell::Double(f.notional));
    r.push(Cell::Double(f.fee));
    r.push(Cell::Single(f.slippage_bps));
    r.push(Cell::Text(f.reason_code.clone()));
    proof {
        assert(cell_views(r@) =~= fill_cells(*f));
    }
    r
}

/// The columns of a table of account snapshots.
pub open spec fn account_columns() -> Seq<Seq<char>> {
    seq![
        "ts_exchange"@,
        "symbol"@,
        "cash_usdt"@,
        "position_side"@,
        "position_qty"@,
        "entry_price"@,
        "mark_price"@,
        "unrealized_pnl"@,
        "realized_pnl"@,
        "equity_usdt"@,
        "fees_paid"@,
        "trades_total"@,
        "wins_total"@,
        "losses_total"@,
    ]
}

pub fn account_header() -> (r: Vec<String>)
    ensures
        texts(r@) == account_columns(),
{
    let mut r: Vec<String> = Vec::new();
    r.push("ts_exchange".to_string());
    r.push("symbol".to_string());
    r.push("cash_usdt".to_string());
    r.push("position_side".to_string());
    r.push("position_qty".to_string());
    r.push("entry_price".to_string());
    r.push("mark_price".to_string());
    r.push("unrealized_pnl".to_string());
    r.push("realized_pnl".to_string());
    r.push("equity_usdt".to_string());
    r.push("fees_paid".to_string());
    r.push("trades_total".to_string());
    r.push("wins_total".to_string());
    r.push("losses_total".to_string());
    proof {
        assert(texts(r@) =~= account_columns());
    }
    r
}

pub open spec fn account_cells(a: AccountSnapshot) -> Seq<CellModel> {
    seq![
        CellModel::Signed(a.ts_exchange),
        CellModel::Text(a.symbol@),
        CellModel::Double(a.cash_usdt),
        CellModel::Text(a.position_side@),
        CellModel::Double(a.position_qty),
        CellModel::Double(a.entry_price),
        CellModel::Double(a.mark_price),
        CellModel::Double(a.unrealized_pnl),
        CellModel::Double(a.realized_pnl),
        CellModel::Double(a.equity_usdt),
        CellModel::Double(a.fees_paid),
        CellModel::Unsigned(a.trades_total),
        CellModel::Unsigned(a.wins_total),
        CellModel::Unsigned(a.losses_total),
    ]
}

/// The row of an account snapshot.
pub fn account_row(a: &AccountSnapshot) -> (r: Vec<Cell>)
    ensures
        cell_views(r@) == account_cells(*a),
{
    let mut r: Vec<Cell> = Vec::new();
    r.push(Cell::Signed(a.ts_exchange));
    r.push(Cell::Text(a.symbol.clone()));
    r.push(Cell::Double(a.cash_usdt));
    r.push(Cell::Text(a.position_side.clone()));
    r.push(Cell::Double(a.position_qty));
    r.push(Cell::Double(a.entry_price));
    r.push(Cell::Double(a.mark_price));
    r.push(Cell::Double(a.unrealized_pnl));
    r.push(Cell::Double(a.realized_pnl));
    r.push(Cell::Double(a.equity_usdt));
    r.push(Cell::Double(a.fees_paid));
    r.push(Cell::Unsigned(a.trades_total));
    r.push(Cell::Unsigned(a.wins_total));
    r.push(Cell::Unsigned(a.losses_total));
    proof {
        assert(cell_views(r@) =~= account_cells(*a));
    }
    r
}

/// A file of a simulation.
#[derive(Clone, Copy, Debug, PartialEq, Eq, Structural)]
pub enum PaperFile {
    Fills,
    Accounts,
    Summary,
}

pub open spec fn paper_files(r: PaperResult) -> Seq<PaperFile> {
    (if r.fills@.len() > 0 {
        seq![PaperFile::Fills]
    } else {
        Seq::empty()
    }) + (if r.account_snapshots@.len() > 0 {
        seq![PaperFile::Accounts, PaperFile::Summary]
    } else {
        seq![PaperFile::Summary]
    })
}

/// The files of a simulation, in the order in which they are written.
pub fn paper_plan(r: &PaperResult, format: ExportFormat) -> (plan: Result<
    Vec<PaperFile>,
    ParquetUnsupported,
>)
    ensures
        match plan {
            Ok(files) => files@ == paper_files(*r) && (format == ExportFormat::Parquet
                ==> r.fills@.len() == 0 && r.account_snapshots@.len() == 0),
            Err(_) => format == ExportFormat::Parquet && (r.fills@.len() > 0
                || r.account_snapshots@.len() > 0),
        },
{
    let fills = r.fills.len() > 0;
    let accounts = r.account_snapshots.len() > 0;
    if format == ExportFormat::Parquet && (fills || accounts) {
        return Err(ParquetUnsupported);
    }
    let mut files: Vec<PaperFile> = Vec::new();
    if fills {
        files.push(PaperFile::Fills);
    }
    if accounts {
        files.push(PaperFile::Accounts);
    }
    files.push(PaperFile::Summary);
    proof {
        assert(files@ =~= paper_files(*r));
    }
    Ok(files)
}

/// Figures of a simulation.
#[derive(Clone, Copy, Debug, PartialEq, Eq, Structural)]
pub struct PaperSummary {
    pub num_fills: usize,
    pub num_snapshots: usize,
    pub total_trades: u32,
    pub total_wins: u32,
    pub total_losses: u32,
    pub win_rate: Double,
    pub initial_cash: Double,
    pub final_equity: Double,
    pub total_pnl: Double,
    pub total_fees: Double,
    pub max_drawdown_pct: Double,
}

/// The highest equity so far, and the largest fall below it as a fraction of it.
pub struct Drawdown {
    pub peak: Num,
    pub fall: Num,
}

pub open spec fn drawdown_next(d: Drawdown, equity: Num) -> Drawdown {
    let peak = if less(d.peak, equity) {
        equity
    } else {
        d.peak
    };
    let fall = quotient(double_format(), difference(double_format(), peak, equity), peak);
    Drawdown {
        peak,
        fall: if peak is Fin && less(zero(), peak) && less(d.fall, fall) {
            fall
        } else {
            d.fall
        },
    }
}

pub open spec fn drawdown_of(accounts: Seq<AccountSnapshot>) -> Drawdown
    decreases accounts.len(),
{
    if accounts.len() == 0 {
        Drawdown { peak: Num::Inf { neg: true }, fall: zero() }
    } else {
        drawdown_next(drawdown_of(accounts.drop_last()), accounts.last().equity_usdt@)
    }
}

/// The figures of a simulation: counts, fees and equity are those of the last snapshot.
pub open spec fn is_paper_summary(r: PaperResult, s: PaperSummary) -> bool {
    let a = r.account_snapshots@;
    let f = double_format();
    &&& s.num_fills == r.fills@.len()
    &&& s.num_snapshots == a.len()
    &&& s.initial_cash == r.initial_cash_usdt
    &&& if a.len() == 0 {
        &&& s.total_trades == 0
        &&& s.total_wins == 0
        &&& s.total_losses == 0
        &&& s.total_fees@ == zero()
        &&& s.final_equity == r.initial_cash_usdt
    } else {
        &&& s.total_trades == a.last().trades_total
        &&& s.total_wins == a.last().wins_total
        &&& s.total_losses == a.last().losses_total
        &&& s.total_fees == a.last().fees_paid
        &&& s.final_equity == a.last().equity_usdt
    }
    &&& s.win_rate@ == if s.total_trades == 0 {
        zero()
    } else {
        quotient(f, double_int(s.total_wins as int), double_int(s.total_trades as int))
    }
    &&& s.total_pnl@ == difference(f, s.final_equity@, s.initial_cash@)
    &&& s.max_drawdown_pct@ == product(f, drawdown_of(a).fall, double_int(100))
}

fn largest_fall(accounts: &Vec<AccountSnapshot>) -> (r: Double)
    ensures
        r@ == drawdown_of(accounts@).fall,
{
    let mut peak = Double::lowest();
    let mut fall = Double::zero();
    let mut i: usize = 0;
    proof {
        assert(accounts@.take(0) =~= Seq::<AccountSnapshot>::empty());
    }
    while i < accounts.len()
        invariant
            i <= accounts@.len(),
            peak@ == drawdown_of(accounts@.take(i as int)).peak,
            fall@ == drawdown_of(accounts@.take(i as int)).fall,
        decreases accounts@.len() - i,
    {
        proof {
            let upto = accounts@.take(i + 1);
            assert(upto.drop_last() =~= accounts@.take(i as int));
            assert(upto.last() == accounts@[i as int]);
        }
        let equity = accounts[i].equity_usdt;
        if equity.above(peak) {
            peak = equity;
        }
        if peak.is_finite() && peak.above(Double::zero()) {
            let now = peak.minus(equity).over(peak);
            if now.above(fall) {
                fall = now;
            }
        }
        i = i + 1;
    }
    proof {
        assert(accounts@.take(accounts@.len() as int) =~= accounts@);
    }
    fall
}

/// The figures of a simulation.
pub fn build_paper_summary(r: &PaperResult) -> (s: PaperSummary)
    ensures
        is_paper_summary(*r, s),
{
    let n: usize = r.account_snapshots.len();
    let mut trades: u32 = 0;
    let mut wins: u32 = 0;
    let mut losses: u32 = 0;
    let mut fees = Double::zero();
    let mut equity = r.initial_cash_usdt;
    if n > 0 {
        let last = &r.account_snapshots[n - 1];
        trades = last.trades_total;
        wins = last.wins_total;
        losses = last.losses_total;
        fees = last.fees_paid;
        equity = last.equity_usdt;
    }
    let win_rate = if trades > 0 {
        Double::from_unsigned(wins as u64).over(Double::from_unsigned(trades as u64))
    } else {
        Double::zero()
    };
    let fall = largest_fall(&r.account_snapshots);
    PaperSummary {
        num_fills: r.fills.len(),
        num_snapshots: n,
        total_trades: trades,
        total_wins: wins,
        total_losses: losses,
        win_rate,
        initial_cash: r.initial_cash_usdt,
        final_equity: equity,
        total_pnl: equity.minus(r.initial_cash_usdt),
        total_fees: fees,
        max_drawdown_pct: fall.times(Double::from_unsigned(100)),
    }
}

} // verus!
