//! Scale-invariant features of best-bid-and-offer ticks.

pub mod features;
pub mod payload;
pub mod ring_buffer;
pub mod state;

pub use features::{imbalance, log_return_1, log_return_window, spread_pct};
pub use ring_buffer::RingBuffer;
pub use state::{FeatureEngine, PerSymbolState};
