//! Market-data normalisation, feature computation, trade decisions, paper trading and
//! replay checks, with the behaviour of each function stated in its contract.

pub mod backoff;
pub mod common;
pub mod executor;
pub mod feature_engine;
pub mod ingestor;
pub mod json;
pub mod logger;
pub mod num;
pub mod persister;
pub mod rank;
pub mod replay;
pub mod sim_broker;
pub mod symbols;
pub mod text;
pub mod vars;
