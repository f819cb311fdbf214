//! Offline replay of recorded ticks, export, golden packs and paper trading.

pub mod compare;
pub mod engine;
pub mod export;
pub mod export_laws;
pub mod golden;
pub mod laws;
pub mod paper;
pub mod paper_export;
pub mod report;
pub mod run_laws;
pub mod settings;
pub mod source;
pub mod source_clickhouse;
pub mod source_jsonl;
pub mod times;

pub use compare::{compare_decisions, compare_features, float_eq};
pub use engine::{run_replay, ReplayResult};
pub use export::{ExportFormat, GoldenCapture, RunExport};
pub use golden::{verify_golden_pack, VerificationResult};
pub use paper::{run_paper_trading, PaperResult};
pub use source::ReplayEvent;
pub use source_clickhouse::ClickHouseReplaySource;
pub use source_jsonl::JsonlReplaySource;
