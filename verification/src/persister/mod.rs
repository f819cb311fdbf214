//! From market messages to database rows.

pub mod laws;
pub mod model;
pub mod settings;
pub mod writer;

pub use model::{
    BBOTickRow, DepthSnapshot, DepthSnapshotRow, LiquidationTick, LiquidationTickRow,
    MarketContextEvent, MarketContextRow, MarketEvent, TradeTickRow,
};
pub use settings::{WriterSettings, WriterVars};
pub use writer::{MarketRow, RowBuffer, WriterBuffers};
