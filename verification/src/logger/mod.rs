//! Cold-path batch logger.

pub mod batch;
pub mod config;
pub mod counters;
pub mod row_laws;
pub mod rows;

pub use batch::{FailureStep, LoggerBatch, LoggerInput, LoggerStep};
pub use config::{ClickHouseConfig, LoggerConfig, LoggerVars};
pub use counters::{Counter, LoggerCounters};
