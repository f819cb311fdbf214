//! Event types shared by the services. All timestamps are epoch milliseconds (UTC).

use super::types::{Action, OrderSide, OrderType};
use crate::num::{Double, Single};
use crate::text::words::same_text;
use vstd::prelude::*;

verus! {

/// The characters of each string.
pub open spec fn texts(v: Seq<String>) -> Seq<Seq<char>> {
    v.map_values(|s: String| s@)
}

/// Executed trade.
#[derive(Debug)]
pub struct TradeTick {
    pub ts_exchange: i64,
    pub ts_ingest: i64,
    pub exchange_id: u64,
    pub symbol: String,
    pub price: Double,
    pub qty: Double,
    pub is_buyer_maker: bool,
}

impl Clone for TradeTick {
    fn clone(&self) -> (r: Self)
        ensures
            r == *self,
    {
        TradeTick {
            ts_exchange: self.ts_exchange,
            ts_ingest: self.ts_ingest,
            exchange_id: self.exchange_id,
            symbol: self.symbol.clone(),
            price: self.price,
            qty: self.qty,
            is_buyer_maker: self.is_buyer_maker,
        }
    }
}

/// Best bid and offer.
#[derive(Debug)]
pub struct BboTick {
    pub ts_exchange: i64,
    pub ts_ingest: i64,
    pub update_id: u64,
    pub symbol: String,
    pub bid_price: Double,
    pub bid_qty: Double,
    pub ask_price: Double,
    pub ask_qty: Double,
}

impl Clone for BboTick {
    fn clone(&self) -> (r: Self)
        ensures
            r == *self,
    {
        BboTick {
            ts_exchange: self.ts_exchange,
            ts_ingest: self.ts_ingest,
            update_id: self.update_id,
            symbol: self.symbol.clone(),
            bid_price: self.bid_price,
            bid_qty: self.bid_qty,
            ask_price: self.ask_price,
            ask_qty: self.ask_qty,
        }
    }
}

/// Feature vector of one symbol at one moment.
#[derive(Debug)]
pub struct FeatureSnapshot {
    pub ts_exchange: i64,
    pub symbol: String,
    pub features: Vec<Single>,
    pub ready: bool,
    pub data_latency_ms: u32,
    pub spread_pct: Single,
    pub feature_version: u32,
}

#[verifier::ext_equal]
pub struct SnapshotModel {
    pub ts_exchange: i64,
    pub symbol: Seq<char>,
    pub features: Seq<Single>,
    pub ready: bool,
    pub data_latency_ms: u32,
    pub spread_pct: Single,
    pub feature_version: u32,
}

impl View for FeatureSnapshot {
    type V = SnapshotModel;

    open spec fn view(&self) -> SnapshotModel {
        SnapshotModel {
            ts_exchange: self.ts_exchange,
            symbol: self.symbol@,
            features: self.features@,
            ready: self.ready,
            data_latency_ms: self.data_latency_ms,
            spread_pct: self.spread_pct,
            feature_version: self.feature_version,
        }
    }
}

impl Clone for FeatureSnapshot {
    fn clone(&self) -> (r: Self)
        ensures
            r@ == self@,
    {
        let features = self.features.clone();
        proof {
            assert(features@ =~= self.features@);
        }
        FeatureSnapshot {
            ts_exchange: self.ts_exchange,
            symbol: self.symbol.clone(),
            features,
            ready: self.ready,
            data_latency_ms: self.data_latency_ms,
            spread_pct: self.spread_pct,
            feature_version: self.feature_version,
        }
    }
}

/// Decision on one snapshot.
#[derive(Debug)]
pub struct Decision {
    pub ts_exchange: i64,
    pub symbol: String,
    pub action: Action,
    pub confidence: Single,
    pub reason_codes: Vec<String>,
    pub model_version: String,
}

#[verifier::ext_equal]
pub struct DecisionModel {
    pub ts_exchange: i64,
    pub symbol: Seq<char>,
    pub action: Action,
    pub confidence: Single,
    pub reason_codes: Seq<Seq<char>>,
    pub model_version: Seq<char>,
}

impl View for Decision {
    type V = DecisionModel;

    open spec fn view(&self) -> DecisionModel {
        DecisionModel {
            ts_exchange: self.ts_exchange,
            symbol: self.symbol@,
            action: self.action,
            confidence: self.confidence,
            reason_codes: texts(self.reason_codes@),
            model_version: self.model_version@,
        }
    }
}

/// A copy of a list of strings.
pub fn clone_texts(v: &Vec<String>) -> (r: Vec<String>)
    ensures
        texts(r@) == texts(v@),
{
    let mut r: Vec<String> = Vec::new();
    let mut i: usize = 0;
    while i < v.len()
        invariant
            i <= v@.len(),
            r@.len() == i,
            forall|j: int| 0 <= j < i ==> r@[j]@ == v@[j]@,
        decreases v@.len() - i,
    {
        r.push(v[i].clone());
        i = i + 1;
    }
    proof {
        assert(texts(r@) =~= texts(v@));
    }
    r
}

/// Whether two lists hold the same texts.
pub fn same_texts(a: &Vec<String>, b: &Vec<String>) -> (r: bool)
    ensures
        r == (texts(a@) == texts(b@)),
{
    if a.len() != b.len() {
        proof {
            assert(texts(a@).len() != texts(b@).len());
        }
        return false;
    }
    let mut i: usize = 0;
    while i < a.len()
        invariant
            i <= a@.len(),
            a@.len() == b@.len(),
            forall|j: int| 0 <= j < i ==> #[trigger] a@[j]@ == b@[j]@,
        decreases a@.len() - i,
    {
        if !same_text(a[i].as_str(), b[i].as_str()) {
            proof {
                assert(texts(a@)[i as int] != texts(b@)[i as int]);
            }
            return false;
        }
        i = i + 1;
    }
    proof {
        assert(texts(a@) =~= texts(b@));
    }
    true
}

impl Clone for Decision {
    fn clone(&self) -> (r: Self)
        ensures
            r@ == self@,
    {
        Decision {
            ts_exchange: self.ts_exchange,
            symbol: self.symbol.clone(),
            action: self.action,
            confidence: self.confidence,
            reason_codes: clone_texts(&self.reason_codes),
            model_version: self.model_version.clone(),
        }
    }
}

/// Order to be carried out; `client_order_id` makes it idempotent.
#[derive(Debug)]
pub struct OrderCommand {
    pub client_order_id: String,
    pub symbol: String,
    pub side: OrderSide,
    pub order_type: OrderType,
    pub qty: Double,
    pub price: Option<Double>,
    pub reduce_only: Option<bool>,
    pub leverage: Option<u32>,
    pub sl: Option<Double>,
    pub tp: Option<Double>,
}

impl Clone for OrderCommand {
    fn clone(&self) -> (r: Self)
        ensures
            r == *self,
    {
        OrderCommand {
            client_order_id: self.client_order_id.clone(),
            symbol: self.symbol.clone(),
            side: self.side,
            order_type: self.order_type,
            qty: self.qty,
            price: self.price,
            reduce_only: self.reduce_only,
            leverage: self.leverage,
            sl: self.sl,
            tp: self.tp,
        }
    }
}

/// Event for the cold-path log; `ts_ingest` is when it was taken in.
#[derive(Debug)]
pub enum LogEvent {
    TradeTick { ts_ingest: i64, tick: TradeTick },
    BboTick { ts_ingest: i64, tick: BboTick },
    FeatureSnapshot { ts_ingest: i64, snap: FeatureSnapshot },
    Decision { ts_ingest: i64, dec: Decision },
    OrderCommand { ts_ingest: i64, cmd: OrderCommand },
    ExecutionResult,
}

} // verus!
