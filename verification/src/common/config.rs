//! Configuration values.

use crate::num::single::single_ratio;
use crate::num::Single;
use vstd::prelude::*;

verus! {

/// List of symbols.
#[derive(Clone, Debug)]
pub struct SymbolsConfig {
    pub symbols: Vec<String>,
}

/// Risk limits.
#[derive(Clone, Debug)]
pub struct RiskConfig {
    pub execution_enabled: bool,
    pub latency_max_ms: u32,
    pub spread_max_pct: Single,
    pub max_daily_loss_pct: Single,
    pub max_risk_per_trade_pct: Single,
    pub max_leverage: u32,
    /// Least confidence that allows a trade.
    pub confidence_min: Single,
    /// Time between trades in milliseconds.
    pub cooldown_ms: u64,
    /// Probability from which a position may be flipped.
    pub hysteresis_enter: Single,
    /// Confidence below which an open direction gives no trade.
    pub hysteresis_exit: Single,
}

/// 0.55
pub fn default_confidence_min() -> (r: Single)
    ensures
        r@ == single_ratio(55, 100),
{
    Single::ratio(55, 100)
}

/// Five seconds.
pub fn default_cooldown_ms() -> (r: u64)
    ensures
        r == 5000,
{
    5000
}

/// 0.62
pub fn default_hysteresis_enter() -> (r: Single)
    ensures
        r@ == single_ratio(62, 100),
{
    Single::ratio(62, 100)
}

/// 0.58
pub fn default_hysteresis_exit() -> (r: Single)
    ensures
        r@ == single_ratio(58, 100),
{
    Single::ratio(58, 100)
}

/// One feature of the feature list.
#[derive(Clone, Debug)]
pub struct FeatureEntry {
    pub name: String,
    pub dtype: String,
    pub window: String,
    pub missing_policy: String,
}

/// List of features.
#[derive(Clone, Debug)]
pub struct FeaturesConfig {
    pub version: u32,
    pub features: Vec<FeatureEntry>,
}

} // verus!
