//! From exchange streams to normalised market messages.

pub mod clock;
pub mod context;
pub mod laws;
pub mod loose;
pub mod model;
pub mod publisher;
pub mod stream;
pub mod universe;

pub use context::{FuturesContext, FuturesEvent, Publication};
pub use model::{
    CombinedStream, DepthSnapshot, DepthUpdateEvent, ForceOrderBody, FuturesDepthEvent,
    FuturesForceOrderEvent, FuturesMarkPriceUpdate, FuturesOpenInterestUpdate, LiquidationTick,
    MarketContextEvent, Ticker24hr, TradeEvent,
};
pub use publisher::NatsPublisher;
pub use stream::{FuturesContextStreamManager, StreamManager};
