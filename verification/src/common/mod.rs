//! Event types and configuration shared by the services.

pub mod config;
pub mod events;
pub mod types;

pub use config::{FeatureEntry, FeaturesConfig, RiskConfig, SymbolsConfig};
pub use events::{BboTick, Decision, FeatureSnapshot, LogEvent, OrderCommand, TradeTick};
pub use types::{Action, OrderSide, OrderType};
