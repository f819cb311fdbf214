//! Rows for the log tables.

use crate::common::events::{clone_texts, texts};
use crate::common::{Action, LogEvent, OrderSide};
use crate::num::{Double, Single};
use vstd::prelude::*;

verus! {

/// Row of `trade_ticks`.
#[derive(Debug)]
pub struct TradeTickRow {
    pub ts_exchange: i64,
    pub ts_ingest: i64,
    pub trade_id: u64,
    pub symbol: String,
    pub price: Double,
    pub quantity: Double,
    pub is_buyer_maker: bool,
}

/// Row of `bbo_ticks`.
#[derive(Debug)]
pub struct BboTickRow {
    pub ts_exchange: i64,
    pub ts_ingest: i64,
    pub update_id: u64,
    pub symbol: String,
    pub bid_price: Double,
    pub bid_qty: Double,
    pub ask_price: Double,
    pub ask_qty: Double,
}

/// Row of `feature_snapshots`.
#[derive(Debug)]
pub struct FeatureSnapshotRow {
    pub ts_exchange: i64,
    pub ts_ingest: i64,
    pub symbol: String,
    pub features: Vec<Single>,
    pub ready: u8,
    pub data_latency_ms: u32,
    pub spread_pct: Single,
    pub feature_version: u32,
}

/// Row of `decisions`.
#[derive(Debug)]
pub struct DecisionRow {
    pub ts_exchange: i64,
    pub ts_ingest: i64,
    pub symbol: String,
    pub action: String,
    pub confidence: Single,
    pub reason_codes: Vec<String>,
    pub model_version: String,
}

/// Row of `order_commands`.
#[derive(Debug)]
pub struct OrderCommandRow {
    pub ts_ingest: i64,
    pub client_order_id: String,
    pub symbol: String,
    pub side: String,
    pub qty: Double,
    pub price: Option<Double>,
}

/// The name of an action in the log.
pub open spec fn action_name(a: Action) -> Seq<char> {
    match a {
        Action::Long => "Long"@,
        Action::Short => "Short"@,
        Action::NoTrade => "NoTrade"@,
    }
}

pub fn action_str(a: &Action) -> (r: &'static str)
    ensures
        r@ == action_name(*a),
{
    match a {
        Action::Long => "Long",
        Action::Short => "Short",
        Action::NoTrade => "NoTrade",
    }
}

/// The name of an order side in the log.
pub open spec fn side_name(s: OrderSide) -> Seq<char> {
    match s {
        OrderSide::Buy => "Buy"@,
        OrderSide::Sell => "Sell"@,
    }
}

pub fn side_str(s: &OrderSide) -> (r: &'static str)
    ensures
        r@ == side_name(*s),
{
    match s {
        OrderSide::Buy => "Buy",
        OrderSide::Sell => "Sell",
    }
}

pub open spec fn is_trade_row(ev: LogEvent, row: TradeTickRow) -> bool {
    ev matches LogEvent::TradeTick { ts_ingest, tick } && row == (TradeTickRow {
        ts_exchange: tick.ts_exchange,
        ts_ingest,
        trade_id: tick.exchange_id,
        symbol: tick.symbol,
        price: tick.price,
        quantity: tick.qty,
        is_buyer_maker: tick.is_buyer_maker,
    })
}

pub open spec fn is_bbo_row(ev: LogEvent, row: BboTickRow) -> bool {
    ev matches LogEvent::BboTick { ts_ingest, tick } && row == (BboTickRow {
        ts_exchange: tick.ts_exchange,
        ts_ingest,
        update_id: tick.update_id,
        symbol: tick.symbol,
        bid_price: tick.bid_price,
        bid_qty: tick.bid_qty,
        ask_price: tick.ask_price,
        ask_qty: tick.ask_qty,
    })
}

pub open spec fn is_snapshot_row(ev: LogEvent, row: FeatureSnapshotRow) -> bool {
    ev matches LogEvent::FeatureSnapshot { ts_ingest, snap } && {
        &&& row.ts_exchange == snap.ts_exchange
        &&& row.ts_ingest == ts_ingest
        &&& row.symbol@ == snap.symbol@
        &&& row.features@ == snap.features@
        &&& row.ready == if snap.ready {
            1u8
        } else {
            0u8
        }
        &&& row.data_latency_ms == snap.data_latency_ms
        &&& row.spread_pct == snap.spread_pct
        &&& row.feature_version == snap.feature_version
    }
}

pub open spec fn is_decision_row(ev: LogEvent, row: DecisionRow) -> bool {
    ev matches LogEvent::Decision { ts_ingest, dec } && {
        &&& row.ts_exchange == dec.ts_exchange
        &&& row.ts_ingest == ts_ingest
        &&& row.symbol@ == dec.symbol@
        &&& row.action@ == action_name(dec.action)
        &&& row.confidence == dec.confidence
        &&& texts(row.reason_codes@) == texts(dec.reason_codes@)
        &&& row.model_version@ == dec.model_version@
    }
}

pub open spec fn is_order_row(ev: LogEvent, row: OrderCommandRow) -> bool {
    ev matches LogEvent::OrderCommand { ts_ingest, cmd } && {
        &&& row.ts_ingest == ts_ingest
        &&& row.client_order_id@ == cmd.client_order_id@
        &&& row.symbol@ == cmd.symbol@
        &&& row.side@ == side_name(cmd.side)
        &&& row.qty == cmd.qty
        &&& row.price == cmd.price
    }
}

/// The events of one kind, in their order.
pub open spec fn picked(batch: Seq<LogEvent>, kind: spec_fn(LogEvent) -> bool) -> Seq<LogEvent> {
    batch.filter(kind)
}

pub open spec fn trades(batch: Seq<LogEvent>) -> Seq<LogEvent> {
    picked(batch, |e: LogEvent| e is TradeTick)
}

pub open spec fn quotes(batch: Seq<LogEvent>) -> Seq<LogEvent> {
    picked(batch, |e: LogEvent| e is BboTick)
}

pub open spec fn snapshots(batch: Seq<LogEvent>) -> Seq<LogEvent> {
    picked(batch, |e: LogEvent| e is FeatureSnapshot)
}

pub open spec fn decisions(batch: Seq<LogEvent>) -> Seq<LogEvent> {
    picked(batch, |e: LogEvent| e is Decision)
}

pub open spec fn orders(batch: Seq<LogEvent>) -> Seq<LogEvent> {
    picked(batch, |e: LogEvent| e is OrderCommand)
}

/// Each row is the row of the event at its place.
pub open spec fn rows_match<R>(
    events: Seq<LogEvent>,
    rows: Seq<R>,
    is_row: spec_fn(LogEvent, R) -> bool,
) -> bool {
    &&& rows.len() == events.len()
    &&& forall|i: int| 0 <= i < rows.len() ==> #[trigger] is_row(events[i], rows[i])
}

/// The rows of a batch, one list for each table.
#[derive(Debug)]
pub struct BatchRows {
    pub trades: Vec<TradeTickRow>,
    pub quotes: Vec<BboTickRow>,
    pub snapshots: Vec<FeatureSnapshotRow>,
    pub decisions: Vec<DecisionRow>,
    pub orders: Vec<OrderCommandRow>,
}

impl BatchRows {
    /// Each table gets the rows of its events, in the order of the batch.
    pub open spec fn holds(self, batch: Seq<LogEvent>) -> bool {
        &&& rows_match(
            trades(batch),
            self.trades@,
            |e: LogEvent, r: TradeTickRow| is_trade_row(e, r),
        )
        &&& rows_match(
            quotes(batch),
            self.quotes@,
            |e: LogEvent, r: BboTickRow| is_bbo_row(e, r),
        )
        &&& rows_match(
            snapshots(batch),
            self.snapshots@,
            |e: LogEvent, r: FeatureSnapshotRow| is_snapshot_row(e, r),
        )
        &&& rows_match(
            decisions(batch),
            self.decisions@,
            |e: LogEvent, r: DecisionRow| is_decision_row(e, r),
        )
        &&& rows_match(
            orders(batch),
            self.orders@,
            |e: LogEvent, r: OrderCommandRow| is_order_row(e, r),
        )
    }
}

proof fn lemma_take_next(batch: Seq<LogEvent>, i: int, kind: spec_fn(LogEvent) -> bool)
    requires
        0 <= i < batch.len(),
    ensures
        picked(batch.take(i + 1), kind) == if kind(batch[i]) {
            picked(batch.take(i), kind).push(batch[i])
        } else {
            picked(batch.take(i), kind)
        },
{
    reveal(Seq::filter);
    let next = batch.take(i + 1);
    assert(next.drop_last() =~= batch.take(i));
    assert(next.last() == batch[i]);
}

/// The rows of a batch, one list for each table.
pub fn rows_of(batch: &[LogEvent]) -> (r: BatchRows)
    ensures
        r.holds(batch@),
{
    let mut r = BatchRows {
        trades: Vec::new(),
        quotes: Vec::new(),
        snapshots: Vec::new(),
        decisions: Vec::new(),
        orders: Vec::new(),
    };
    let mut i: usize = 0;
    proof {
        reveal(Seq::filter);
        assert(batch@.take(0) =~= Seq::<LogEvent>::empty());
    }
    while i < batch.len()
        invariant
            i <= batch@.len(),
            r.holds(batch@.take(i as int)),
        decreases batch@.len() - i,
    {
        let ghost ev = batch@[i as int];
        proof {
            lemma_take_next(batch@, i as int, |e: LogEvent| e is TradeTick);
            lemma_take_next(batch@, i as int, |e: LogEvent| e is BboTick);
            lemma_take_next(batch@, i as int, |e: LogEvent| e is FeatureSnapshot);
            lemma_take_next(batch@, i as int, |e: LogEvent| e is Decision);
            lemma_take_next(batch@, i as int, |e: LogEvent| e is OrderCommand);
        }
        match &batch[i] {
            LogEvent::TradeTick { ts_ingest, tick } => {
                let row = TradeTickRow {
                    ts_exchange: tick.ts_exchange,
                    ts_ingest: *ts_ingest,
                    trade_id: tick.exchange_id,
                    symbol: tick.symbol.clone(),
                    price: tick.price,
                    quantity: tick.qty,
                    is_buyer_maker: tick.is_buyer_maker,
                };
                r.trades.push(row);
            },
            LogEvent::BboTick { ts_ingest, tick } => {
                let row = BboTickRow {
                    ts_exchange: tick.ts_exchange,
                    ts_ingest: *ts_ingest,
                    update_id: tick.update_id,
                    symbol: tick.symbol.clone(),
                    bid_price: tick.bid_price,
                    bid_qty: tick.bid_qty,
                    ask_price: tick.ask_price,
                    ask_qty: tick.ask_qty,
                };
                r.quotes.push(row);
            },
            LogEvent::FeatureSnapshot { ts_ingest, snap } => {
                let features = snap.features.clone();
                proof {
                    assert(features@ =~= snap.features@);
                }
                let row = FeatureSnapshotRow {
                    ts_exchange: snap.ts_exchange,
                    ts_ingest: *ts_ingest,
                    symbol: snap.symbol.clone(),
                    features,
                    ready: if snap.ready {
                        1
                    } else {
                        0
                    },
                    data_latency_ms: snap.data_latency_ms,
                    spread_pct: snap.spread_pct,
                    feature_version: snap.feature_version,
                };
                r.snapshots.push(row);
            },
            LogEvent::Decision { ts_ingest, dec } => {
                let row = DecisionRow {
                    ts_exchange: dec.ts_exchange,
                    ts_ingest: *ts_ingest,
                    symbol: dec.symbol.clone(),
                    action: action_str(&dec.action).to_string(),
                    confidence: dec.confidence,
                    reason_codes: clone_texts(&dec.reason_codes),
                    model_version: dec.model_version.clone(),
                };
                r.decisions.push(row);
            },
            LogEvent::OrderCommand { ts_ingest, cmd } => {
                let row = OrderCommandRow {
                    ts_ingest: *ts_ingest,
                    client_order_id: cmd.client_order_id.clone(),
                    symbol: cmd.symbol.clone(),
                    side: side_str(&cmd.side).to_string(),
                    qty: cmd.qty,
                    price: cmd.price,
                };
                r.orders.push(row);
            },
            LogEvent::ExecutionResult => {},
        }
        i = i + 1;
    }
    proof {
        assert(batch@.take(batch@.len() as int) =~= batch@);
    }
    r
}

} // verus!
