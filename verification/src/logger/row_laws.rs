//! What the rows of log events promise.

use super::rows::{decisions, orders, quotes, snapshots, trades, BatchRows};
use crate::common::events::texts;
use crate::common::{Action, LogEvent, OrderSide};
use vstd::prelude::*;

verus! {

proof fn lemma_single(e: LogEvent)
    ensures
        trades(seq![e]) == if e is TradeTick {
            seq![e]
        } else {
            Seq::empty()
        },
        quotes(seq![e]) == if e is BboTick {
            seq![e]
        } else {
            Seq::empty()
        },
        snapshots(seq![e]) == if e is FeatureSnapshot {
            seq![e]
        } else {
            Seq::empty()
        },
        decisions(seq![e]) == if e is Decision {
            seq![e]
        } else {
            Seq::empty()
        },
        orders(seq![e]) == if e is OrderCommand {
            seq![e]
        } else {
            Seq::empty()
        },
{
    reveal_with_fuel(Seq::filter, 2);
    let one = seq![e];
    assert(one.drop_last() =~= Seq::<LogEvent>::empty());
    assert(one.last() == e);
    assert(Seq::<LogEvent>::empty().push(e) =~= one);
}

/// Every event goes to the table of its kind and to no other; results of executions go to none.
pub proof fn law_events_go_to_their_table(r: BatchRows, e: LogEvent)
    requires
        r.holds(seq![e]),
    ensures
        r.trades@.len() == if e is TradeTick {
            1nat
        } else {
            0
        },
        r.quotes@.len() == if e is BboTick {
            1nat
        } else {
            0
        },
        r.snapshots@.len() == if e is FeatureSnapshot {
            1nat
        } else {
            0
        },
        r.decisions@.len() == if e is Decision {
            1nat
        } else {
            0
        },
        r.orders@.len() == if e is OrderCommand {
            1nat
        } else {
            0
        },
{
    lemma_single(e);
}

/// The row of a trade tells the trade.
pub proof fn law_trade_rows(r: BatchRows, e: LogEvent)
    requires
        r.holds(seq![e]),
        e is TradeTick,
    ensures
        e matches LogEvent::TradeTick { ts_ingest, tick } && {
            let row = r.trades@[0];
            &&& row.ts_exchange == tick.ts_exchange
            &&& row.ts_ingest == ts_ingest
            &&& row.trade_id == tick.exchange_id
            &&& row.symbol@ == tick.symbol@
            &&& row.price == tick.price
            &&& row.quantity == tick.qty
            &&& row.is_buyer_maker == tick.is_buyer_maker
        },
{
    lemma_single(e);
    let is_row = |e: LogEvent, r: super::rows::TradeTickRow| super::rows::is_trade_row(e, r);
    assert(is_row(trades(seq![e])[0], r.trades@[0]));
}

/// The row of a quote tells the quote, bids as bids and asks as asks.
pub proof fn law_quote_rows(r: BatchRows, e: LogEvent)
    requires
        r.holds(seq![e]),
        e is BboTick,
    ensures
        e matches LogEvent::BboTick { ts_ingest, tick } && {
            let row = r.quotes@[0];
            &&& row.ts_exchange == tick.ts_exchange
            &&& row.ts_ingest == ts_ingest
            &&& row.update_id == tick.update_id
            &&& row.symbol@ == tick.symbol@
            &&& row.bid_price == tick.bid_price
            &&& row.bid_qty == tick.bid_qty
            &&& row.ask_price == tick.ask_price
            &&& row.ask_qty == tick.ask_qty
        },
{
    lemma_single(e);
    let is_row = |e: LogEvent, r: super::rows::BboTickRow| super::rows::is_bbo_row(e, r);
    assert(is_row(quotes(seq![e])[0], r.quotes@[0]));
}

/// The row of a snapshot tells the snapshot; readiness is one or zero.
pub proof fn law_snapshot_rows(r: BatchRows, e: LogEvent)
    requires
        r.holds(seq![e]),
        e is FeatureSnapshot,
    ensures
        e matches LogEvent::FeatureSnapshot { ts_ingest, snap } && {
            let row = r.snapshots@[0];
            &&& row.ts_exchange == snap.ts_exchange
            &&& row.ts_ingest == ts_ingest
            &&& row.symbol@ == snap.symbol@
            &&& row.features@ == snap.features@
            &&& snap.ready ==> row.ready == 1
            &&& !snap.ready ==> row.ready == 0
            &&& row.data_latency_ms == snap.data_latency_ms
            &&& row.spread_pct == snap.spread_pct
            &&& row.feature_version == snap.feature_version
        },
{
    lemma_single(e);
    let is_row = |e: LogEvent, r: super::rows::FeatureSnapshotRow|
        super::rows::is_snapshot_row(e, r);
    assert(is_row(snapshots(seq![e])[0], r.snapshots@[0]));
}

/// The row of a decision tells the decision, its action by name.
pub proof fn law_decision_rows(r: BatchRows, e: LogEvent)
    requires
        r.holds(seq![e]),
        e is Decision,
    ensures
        e matches LogEvent::Decision { ts_ingest, dec } && {
            let row = r.decisions@[0];
            &&& row.ts_exchange == dec.ts_exchange
            &&& row.ts_ingest == ts_ingest
            &&& row.symbol@ == dec.symbol@
            &&& dec.action == Action::Long ==> row.action@ == "Long"@
            &&& dec.action == Action::Short ==> row.action@ == "Short"@
            &&& dec.action == Action::NoTrade ==> row.action@ == "NoTrade"@
            &&& row.confidence == dec.confidence
            &&& texts(row.reason_codes@) == texts(dec.reason_codes@)
            &&& row.model_version@ == dec.model_version@
        },
{
    lemma_single(e);
    let is_row = |e: LogEvent, r: super::rows::DecisionRow| super::rows::is_decision_row(e, r);
    assert(is_row(decisions(seq![e])[0], r.decisions@[0]));
}

/// The row of an order tells the order, its side by name.
pub proof fn law_order_rows(r: BatchRows, e: LogEvent)
    requires
        r.holds(seq![e]),
        e is OrderCommand,
    ensures
        e matches LogEvent::OrderCommand { ts_ingest, cmd } && {
            let row = r.orders@[0];
            &&& row.ts_ingest == ts_ingest
            &&& row.client_order_id@ == cmd.client_order_id@
            &&& row.symbol@ == cmd.symbol@
            &&& cmd.side == OrderSide::Buy ==> row.side@ == "Buy"@
            &&& cmd.side == OrderSide::Sell ==> row.side@ == "Sell"@
            &&& row.qty == cmd.qty
            &&& row.price == cmd.price
        },
{
    lemma_single(e);
    let is_row = |e: LogEvent, r: super::rows::OrderCommandRow| super::rows::is_order_row(e, r);
    assert(is_row(orders(seq![e])[0], r.orders@[0]));
}

/// Rows come in the order of the events: a further event adds a row to its own table, and only
/// there.
pub proof fn law_rows_come_in_order(batch: Seq<LogEvent>, e: LogEvent)
    ensures
        trades(batch.push(e)) == if e is TradeTick {
            trades(batch).push(e)
        } else {
            trades(batch)
        },
        quotes(batch.push(e)) == if e is BboTick {
            quotes(batch).push(e)
        } else {
            quotes(batch)
        },
        snapshots(batch.push(e)) == if e is FeatureSnapshot {
            snapshots(batch).push(e)
        } else {
            snapshots(batch)
        },
        decisions(batch.push(e)) == if e is Decision {
            decisions(batch).push(e)
        } else {
            decisions(batch)
        },
        orders(batch.push(e)) == if e is OrderCommand {
            orders(batch).push(e)
        } else {
            orders(batch)
        },
{
    reveal(Seq::filter);
    assert(batch.push(e).drop_last() =~= batch);
}

} // verus!
