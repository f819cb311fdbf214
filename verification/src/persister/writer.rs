//! Buffers of rows, and when they are flushed.

use super::model::{is_bbo_row, is_trade_row, BBOTickRow, MarketEvent, TradeTickRow};
use vstd::prelude::*;

verus! {

/// Row of the raw feed.
#[derive(Debug)]
pub enum MarketRow {
    Trade(TradeTickRow),
    BBO(BBOTickRow),
}

/// Trades, and best bids and offers, are flushed from this many on.
pub const MARKET_BATCH_SIZE: usize = 1000;

/// Context rows are flushed from this many on.
pub const CONTEXT_BATCH_SIZE: usize = 10_000;

/// Depth rows are flushed from this many on.
pub const DEPTH_BATCH_SIZE: usize = 1000;

/// Liquidation rows are flushed from this many on.
pub const LIQ_BATCH_SIZE: usize = 1000;

/// Time after which waiting rows are flushed, in milliseconds.
pub const FLUSH_INTERVAL_MS: u64 = 1000;

/// Pause after a failed write, in milliseconds.
pub const FAILED_WRITE_PAUSE_MS: u64 = 500;

/// First pause after a failed connection, in milliseconds.
pub const FIRST_PAUSE_MS: u64 = 250;

/// Longest pause after failed connections, in milliseconds.
pub const LONGEST_PAUSE_MS: u64 = 5000;

/// The row of a message: its trade where it is one, else its best bid and offer.
pub fn row_of(e: &MarketEvent, ts_ingest_ms: i64) -> (r: Option<MarketRow>)
    ensures
        match r {
            Some(MarketRow::Trade(row)) => is_trade_row(*e, ts_ingest_ms, Some(row)),
            Some(MarketRow::BBO(row)) => is_trade_row(*e, ts_ingest_ms, None) && is_bbo_row(
                *e,
                ts_ingest_ms,
                Some(row),
            ),
            None => is_trade_row(*e, ts_ingest_ms, None) && is_bbo_row(*e, ts_ingest_ms, None),
        },
{
    match e.to_trade_row(ts_ingest_ms) {
        Some(row) => Some(MarketRow::Trade(row)),
        None => match e.to_bbo_row(ts_ingest_ms) {
            Some(row) => Some(MarketRow::BBO(row)),
            None => None,
        },
    }
}

/// From the limit on a write is due with every row.
pub open spec fn size_due<T>(limit: nat, pending: Seq<T>) -> bool {
    pending.len() >= limit
}

/// A write is due when the interval is over or the channel closed, where any rows wait.
pub open spec fn time_due<T>(pending: Seq<T>) -> bool {
    pending.len() > 0
}

/// The rows that wait after a write: none where it succeeded, all where it failed.
pub open spec fn left_after<T>(pending: Seq<T>, ok: bool) -> Seq<T> {
    if ok {
        Seq::empty()
    } else {
        pending
    }
}

/// Rows waiting to be written. Only a successful write empties it.
#[derive(Debug)]
#[verifier::reject_recursive_types(T)]
pub struct RowBuffer<T> {
    rows: Vec<T>,
    limit: usize,
}

impl<T> RowBuffer<T> {
    pub closed spec fn pending(self) -> Seq<T> {
        self.rows@
    }

    pub closed spec fn size_limit(self) -> nat {
        self.limit as nat
    }

    pub fn new(limit: usize) -> (r: Self)
        ensures
            r.pending() == Seq::<T>::empty(),
            r.size_limit() == limit,
    {
        RowBuffer { rows: Vec::new(), limit }
    }

    /// Adds a row; whether a write is due now.
    pub fn push(&mut self, row: T) -> (due: bool)
        ensures
            final(self).pending() == old(self).pending().push(row),
            final(self).size_limit() == old(self).size_limit(),
            due == size_due(old(self).size_limit(), final(self).pending()),
    {
        self.rows.push(row);
        self.rows.len() >= self.limit
    }

    /// Whether a write is due when the interval is over or the channel closed.
    pub fn due(&self) -> (r: bool)
        ensures
            r == time_due(self.pending()),
    {
        self.rows.len() > 0
    }

    /// The rows to write.
    pub fn rows(&self) -> (r: &Vec<T>)
        ensures
            r@ == self.pending(),
    {
        &self.rows
    }

    /// Notes the outcome of a write: the rows go when it succeeded and stay when it failed.
    pub fn written(&mut self, ok: bool)
        ensures
            final(self).size_limit() == old(self).size_limit(),
            final(self).pending() == left_after(old(self).pending(), ok),
    {
        if ok {
            self.rows.clear();
        }
    }
}

/// The buffers of the raw feed.
#[derive(Debug)]
pub struct WriterBuffers {
    pub trades: RowBuffer<TradeTickRow>,
    pub quotes: RowBuffer<BBOTickRow>,
}

/// Which buffer is due.
#[derive(Clone, Copy, Debug, PartialEq, Eq, Structural)]
pub enum Due {
    Nothing,
    Trades,
    Quotes,
}

impl WriterBuffers {
    pub fn new() -> (r: Self)
        ensures
            r.trades.pending() == Seq::<TradeTickRow>::empty(),
            r.quotes.pending() == Seq::<BBOTickRow>::empty(),
            r.trades.size_limit() == MARKET_BATCH_SIZE,
            r.quotes.size_limit() == MARKET_BATCH_SIZE,
    {
        WriterBuffers {
            trades: RowBuffer::new(MARKET_BATCH_SIZE),
            quotes: RowBuffer::new(MARKET_BATCH_SIZE),
        }
    }

    /// Adds a row to its buffer; whether that one is due now.
    pub fn push(&mut self, row: MarketRow) -> (r: Due)
        ensures
            match row {
                MarketRow::Trade(t) => {
                    &&& final(self).trades.pending() == old(self).trades.pending().push(t)
                    &&& final(self).quotes == old(self).quotes
                    &&& r == if size_due(
                        old(self).trades.size_limit(),
                        final(self).trades.pending(),
                    ) {
                        Due::Trades
                    } else {
                        Due::Nothing
                    }
                },
                MarketRow::BBO(b) => {
                    &&& final(self).quotes.pending() == old(self).quotes.pending().push(b)
                    &&& final(self).trades == old(self).trades
                    &&& r == if size_due(
                        old(self).quotes.size_limit(),
                        final(self).quotes.pending(),
                    ) {
                        Due::Quotes
                    } else {
                        Due::Nothing
                    }
                },
            },
            final(self).trades.size_limit() == old(self).trades.size_limit(),
            final(self).quotes.size_limit() == old(self).quotes.size_limit(),
    {
        match row {
            MarketRow::Trade(t) => if self.trades.push(t) {
                Due::Trades
            } else {
                Due::Nothing
            },
            MarketRow::BBO(b) => if self.quotes.push(b) {
                Due::Quotes
            } else {
                Due::Nothing
            },
        }
    }
}

/// What reaches a writer.
pub enum WriterInput<T> {
    Row(T),
    /// The interval is over, or the channel closed.
    Flush,
}

/// A table and its buffer: the batches that were inserted, the rows that wait, and how many
/// writes were tried.
pub struct TableModel<T> {
    pub batches: Seq<Seq<T>>,
    pub pending: Seq<T>,
    pub tried: nat,
}

pub open spec fn empty_table<T>() -> TableModel<T> {
    TableModel { batches: Seq::empty(), pending: Seq::empty(), tried: 0 }
}

/// A table after a write; `ok` says which of its writes succeed.
pub open spec fn after_write<T>(t: TableModel<T>, ok: spec_fn(nat) -> bool) -> TableModel<T> {
    TableModel {
        batches: if ok(t.tried) {
            t.batches.push(t.pending)
        } else {
            t.batches
        },
        pending: left_after(t.pending, ok(t.tried)),
        tried: t.tried + 1,
    }
}

/// A table after a row.
pub open spec fn after_row<T>(
    limit: nat,
    ok: spec_fn(nat) -> bool,
    t: TableModel<T>,
    row: T,
) -> TableModel<T> {
    let t = TableModel { pending: t.pending.push(row), ..t };
    if size_due(limit, t.pending) {
        after_write(t, ok)
    } else {
        t
    }
}

/// A table when the interval is over or the channel closed.
pub open spec fn after_flush<T>(ok: spec_fn(nat) -> bool, t: TableModel<T>) -> TableModel<T> {
    if time_due(t.pending) {
        after_write(t, ok)
    } else {
        t
    }
}

/// A table after all these inputs.
pub open spec fn table_of<T>(
    limit: nat,
    ok: spec_fn(nat) -> bool,
    inputs: Seq<WriterInput<T>>,
) -> TableModel<T>
    decreases inputs.len(),
{
    if inputs.len() == 0 {
        empty_table()
    } else {
        let t = table_of(limit, ok, inputs.drop_last());
        match inputs.last() {
            WriterInput::Row(row) => after_row(limit, ok, t, row),
            WriterInput::Flush => after_flush(ok, t),
        }
    }
}

/// The rows among the inputs.
pub open spec fn rows_in<T>(inputs: Seq<WriterInput<T>>) -> Seq<T>
    decreases inputs.len(),
{
    if inputs.len() == 0 {
        Seq::empty()
    } else {
        match inputs.last() {
            WriterInput::Row(row) => rows_in(inputs.drop_last()).push(row),
            WriterInput::Flush => rows_in(inputs.drop_last()),
        }
    }
}

/// The inserted rows and the waiting ones are these, in this order. No batch is empty; where
/// every write succeeds none is over the limit, and fewer rows than that wait.
pub open spec fn accounts_for<T>(
    limit: nat,
    ok: spec_fn(nat) -> bool,
    t: TableModel<T>,
    rows: Seq<T>,
) -> bool {
    &&& t.batches.flatten_alt() + t.pending == rows
    &&& forall|i: int| 0 <= i < t.batches.len() ==> 1 <= (#[trigger] t.batches[i]).len()
    &&& (forall|k: nat| #[trigger] ok(k)) ==> t.pending.len() < limit && forall|i: int|
        0 <= i < t.batches.len() ==> (#[trigger] t.batches[i]).len() <= limit
}

proof fn lemma_row<T>(
    limit: nat,
    ok: spec_fn(nat) -> bool,
    t: TableModel<T>,
    rows: Seq<T>,
    row: T,
)
    requires
        limit > 0,
        accounts_for(limit, ok, t, rows),
    ensures
        accounts_for(limit, ok, after_row(limit, ok, t, row), rows.push(row)),
{
    let r = after_row(limit, ok, t, row);
    if r.batches != t.batches {
        assert(r.batches.drop_last() =~= t.batches);
    }
    assert(r.batches.flatten_alt() + r.pending =~= rows.push(row));
}

proof fn lemma_flush<T>(limit: nat, ok: spec_fn(nat) -> bool, t: TableModel<T>, rows: Seq<T>)
    requires
        limit > 0,
        accounts_for(limit, ok, t, rows),
    ensures
        accounts_for(limit, ok, after_flush(ok, t), rows),
        (forall|k: nat| #[trigger] ok(k)) ==> after_flush(ok, t).batches.flatten_alt() == rows,
{
    let r = after_flush(ok, t);
    if r.batches != t.batches {
        assert(r.batches.drop_last() =~= t.batches);
    }
    assert(r.batches.flatten_alt() + r.pending =~= rows);
    if forall|k: nat| #[trigger] ok(k) {
        assert(r.pending.len() == 0);
        assert(r.batches.flatten_alt() + r.pending =~= r.batches.flatten_alt());
    }
}

/// Every row is written exactly once and in order: whatever writes fail, the rows inserted and
/// the rows that wait are the rows received. Where every write succeeds, a batch goes as soon as
/// the limit is reached, and after the interval or the end every row received is in the table.
pub proof fn law_rows_are_written_once<T>(
    limit: nat,
    ok: spec_fn(nat) -> bool,
    inputs: Seq<WriterInput<T>>,
)
    requires
        limit > 0,
    ensures
        accounts_for(limit, ok, table_of(limit, ok, inputs), rows_in(inputs)),
        inputs.len() > 0 && inputs.last() is Flush && (forall|k: nat| #[trigger] ok(k))
            ==> table_of(limit, ok, inputs).batches.flatten_alt() == rows_in(inputs),
    decreases inputs.len(),
{
    if inputs.len() == 0 {
        let t = empty_table::<T>();
        assert(t.batches.flatten_alt() + t.pending =~= rows_in(inputs));
    } else {
        law_rows_are_written_once(limit, ok, inputs.drop_last());
        let t = table_of(limit, ok, inputs.drop_last());
        match inputs.last() {
            WriterInput::Row(row) => lemma_row(limit, ok, t, rows_in(inputs.drop_last()), row),
            WriterInput::Flush => lemma_flush(limit, ok, t, rows_in(inputs.drop_last())),
        }
    }
}

/// The tables of the raw feed.
pub struct FeedModel {
    pub trades: TableModel<TradeTickRow>,
    pub quotes: TableModel<BBOTickRow>,
}

/// The tables of the raw feed after all these inputs.
pub open spec fn feed_of(
    ok_trades: spec_fn(nat) -> bool,
    ok_quotes: spec_fn(nat) -> bool,
    inputs: Seq<WriterInput<MarketRow>>,
) -> FeedModel
    decreases inputs.len(),
{
    let limit = MARKET_BATCH_SIZE as nat;
    if inputs.len() == 0 {
        FeedModel { trades: empty_table(), quotes: empty_table() }
    } else {
        let f = feed_of(ok_trades, ok_quotes, inputs.drop_last());
        match inputs.last() {
            WriterInput::Row(MarketRow::Trade(row)) => FeedModel {
                trades: after_row(limit, ok_trades, f.trades, row),
                ..f
            },
            WriterInput::Row(MarketRow::BBO(row)) => FeedModel {
                quotes: after_row(limit, ok_quotes, f.quotes, row),
                ..f
            },
            WriterInput::Flush => FeedModel {
                trades: after_flush(ok_trades, f.trades),
                quotes: after_flush(ok_quotes, f.quotes),
            },
        }
    }
}

/// The trades among the inputs.
pub open spec fn trades_in(inputs: Seq<WriterInput<MarketRow>>) -> Seq<TradeTickRow>
    decreases inputs.len(),
{
    if inputs.len() == 0 {
        Seq::empty()
    } else {
        match inputs.last() {
            WriterInput::Row(MarketRow::Trade(row)) => trades_in(inputs.drop_last()).push(row),
            _ => trades_in(inputs.drop_last()),
        }
    }
}

/// The best bids and offers among the inputs.
pub open spec fn quotes_in(inputs: Seq<WriterInput<MarketRow>>) -> Seq<BBOTickRow>
    decreases inputs.len(),
{
    if inputs.len() == 0 {
        Seq::empty()
    } else {
        match inputs.last() {
            WriterInput::Row(MarketRow::BBO(row)) => quotes_in(inputs.drop_last()).push(row),
            _ => quotes_in(inputs.drop_last()),
        }
    }
}

/// Of the raw feed every trade is written exactly once to the trades and every best bid and offer
/// exactly once to the quotes, in batches of at most a thousand rows where every write succeeds;
/// then all rows are in their tables after the interval or the end.
pub proof fn law_feed_is_written_once(
    ok_trades: spec_fn(nat) -> bool,
    ok_quotes: spec_fn(nat) -> bool,
    inputs: Seq<WriterInput<MarketRow>>,
)
    ensures
        ({
            let f = feed_of(ok_trades, ok_quotes, inputs);
            let limit = MARKET_BATCH_SIZE as nat;
            &&& accounts_for(limit, ok_trades, f.trades, trades_in(inputs))
            &&& accounts_for(limit, ok_quotes, f.quotes, quotes_in(inputs))
            &&& inputs.len() > 0 && inputs.last() is Flush ==> {
                &&& (forall|k: nat| #[trigger] ok_trades(k)) ==> f.trades.batches.flatten_alt()
                    == trades_in(inputs)
                &&& (forall|k: nat| #[trigger] ok_quotes(k)) ==> f.quotes.batches.flatten_alt()
                    == quotes_in(inputs)
            }
        }),
    decreases inputs.len(),
{
    let limit = MARKET_BATCH_SIZE as nat;
    if inputs.len() == 0 {
        let f = feed_of(ok_trades, ok_quotes, inputs);
        assert(f.trades.batches.flatten_alt() + f.trades.pending =~= trades_in(inputs));
        assert(f.quotes.batches.flatten_alt() + f.quotes.pending =~= quotes_in(inputs));
    } else {
        let rest = inputs.drop_last();
        law_feed_is_written_once(ok_trades, ok_quotes, rest);
        let f = feed_of(ok_trades, ok_quotes, rest);
        match inputs.last() {
            WriterInput::Row(MarketRow::Trade(row)) => lemma_row(
                limit,
                ok_trades,
                f.trades,
                trades_in(rest),
                row,
            ),
            WriterInput::Row(MarketRow::BBO(row)) => lemma_row(
                limit,
                ok_quotes,
                f.quotes,
                quotes_in(rest),
                row,
            ),
            WriterInput::Flush => {
                lemma_flush(limit, ok_trades, f.trades, trades_in(rest));
                lemma_flush(limit, ok_quotes, f.quotes, quotes_in(rest));
            },
        }
    }
}

/// A message is a trade or a best bid and offer or neither, and never both: one with a trade
/// row is not looked at for a best bid and offer.
pub proof fn law_one_row_per_message(e: MarketEvent, ts: i64, a: TradeTickRow)
    requires
        is_trade_row(e, ts, Some(a)),
    ensures
        !is_trade_row(e, ts, None),
{
}

/// Rows are written as soon as as many wait as the limit says: a thousand trades, quotes, depth
/// snapshots or liquidations, ten thousand context rows; and after a second whatever waits. A
/// successful write leaves nothing waiting, a failed one everything.
pub proof fn law_writes_come_when_due<T>(limit: nat, pending: Seq<T>)
    ensures
        size_due(limit, pending) <==> pending.len() >= limit,
        time_due(pending) <==> pending.len() > 0,
        left_after(pending, true).len() == 0,
        left_after(pending, false) == pending,
        MARKET_BATCH_SIZE == 1000,
        DEPTH_BATCH_SIZE == 1000,
        LIQ_BATCH_SIZE == 1000,
        CONTEXT_BATCH_SIZE == 10_000,
        FLUSH_INTERVAL_MS == 1000,
{
}

} // verus!
