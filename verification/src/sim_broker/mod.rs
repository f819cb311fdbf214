//! Simulated trading: the paper broker, the wallets and the strategies.

pub mod broker_laws;
pub mod listener;
pub mod model;
pub mod paper_broker;
pub mod spot;
pub mod spot_laws;
pub mod strategy;
pub mod wallet;
pub mod wallet_laws;

pub use paper_broker::{
    AccountSnapshot, Fill, PaperBroker, PaperBrokerConfig, PaperBrokerVars, PositionSide,
    SymbolPortfolio,
};
