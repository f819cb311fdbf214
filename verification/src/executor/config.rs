//! Limits of the gates and of the stabilisation.

use crate::common::RiskConfig;
use crate::num::single::single_ratio;
use crate::num::Single;
use crate::vars::{
    flag_or, integer_or, read_flag, read_single, read_u32, read_u64, single_or,
};
use vstd::prelude::*;

verus! {

/// Executor limits.
#[derive(Clone, Copy, Debug, PartialEq, Eq, Structural)]
pub struct ExecutorConfig {
    pub execution_enabled: bool,
    pub latency_max_ms: u32,
    pub spread_max_pct: Single,
    pub confidence_min: Single,
    pub cooldown_ms: u64,
    pub hysteresis_enter: Single,
    pub hysteresis_exit: Single,
    pub allow_short: bool,
}

/// The values of the environment variables that override the defaults.
#[derive(Clone, Debug)]
pub struct ExecutorVars {
    pub execution_enabled: Option<String>,
    pub latency_max_ms: Option<String>,
    pub spread_max_pct: Option<String>,
    pub confidence_min: Option<String>,
    pub cooldown_ms: Option<String>,
    pub hysteresis_enter: Option<String>,
    pub hysteresis_exit: Option<String>,
    pub allow_short: Option<String>,
}

impl ExecutorVars {
    /// No variable is set.
    pub fn unset() -> (r: Self)
        ensures
            r.execution_enabled is None,
            r.latency_max_ms is None,
            r.spread_max_pct is None,
            r.confidence_min is None,
            r.cooldown_ms is None,
            r.hysteresis_enter is None,
            r.hysteresis_exit is None,
            r.allow_short is None,
    {
        ExecutorVars {
            execution_enabled: None,
            latency_max_ms: None,
            spread_max_pct: None,
            confidence_min: None,
            cooldown_ms: None,
            hysteresis_enter: None,
            hysteresis_exit: None,
            allow_short: None,
        }
    }
}

impl ExecutorConfig {
    /// The limits of a risk configuration; shorts are allowed.
    pub fn from_risk(r: &RiskConfig) -> (c: Self)
        ensures
            c == (ExecutorConfig {
                execution_enabled: r.execution_enabled,
                latency_max_ms: r.latency_max_ms,
                spread_max_pct: r.spread_max_pct,
                confidence_min: r.confidence_min,
                cooldown_ms: r.cooldown_ms,
                hysteresis_enter: r.hysteresis_enter,
                hysteresis_exit: r.hysteresis_exit,
                allow_short: true,
            }),
    {
        ExecutorConfig {
            execution_enabled: r.execution_enabled,
            latency_max_ms: r.latency_max_ms,
            spread_max_pct: r.spread_max_pct,
            confidence_min: r.confidence_min,
            cooldown_ms: r.cooldown_ms,
            hysteresis_enter: r.hysteresis_enter,
            hysteresis_exit: r.hysteresis_exit,
            allow_short: true,
        }
    }

    /// The defaults, each overridden by its environment variable where that parses.
    pub fn from_env_or_default(vars: &ExecutorVars) -> (c: Self)
        ensures
            c.execution_enabled == flag_or(vars.execution_enabled, false),
            c.latency_max_ms == integer_or(vars.latency_max_ms, u32::MAX as nat, 200),
            c.spread_max_pct@ == single_or(vars.spread_max_pct, single_ratio(20, 100)),
            c.confidence_min@ == single_or(vars.confidence_min, single_ratio(55, 100)),
            c.cooldown_ms == integer_or(vars.cooldown_ms, u64::MAX as nat, 5000),
            c.hysteresis_enter@ == single_or(vars.hysteresis_enter, single_ratio(62, 100)),
            c.hysteresis_exit@ == single_or(vars.hysteresis_exit, single_ratio(58, 100)),
            c.allow_short == flag_or(vars.allow_short, true),
    {
        ExecutorConfig {
            execution_enabled: read_flag(&vars.execution_enabled, false),
            latency_max_ms: read_u32(&vars.latency_max_ms, 200),
            spread_max_pct: read_single(&vars.spread_max_pct, Single::ratio(20, 100)),
            confidence_min: read_single(&vars.confidence_min, Single::ratio(55, 100)),
            cooldown_ms: read_u64(&vars.cooldown_ms, 5000),
            hysteresis_enter: read_single(&vars.hysteresis_enter, Single::ratio(62, 100)),
            hysteresis_exit: read_single(&vars.hysteresis_exit, Single::ratio(58, 100)),
            allow_short: read_flag(&vars.allow_short, true),
        }
    }
}

/// Without variables execution is off, the latency limit 200 ms, the spread limit 0.2, the least
/// confidence 0.55, the cooldown five seconds, the entry threshold 0.62, the exit threshold 0.58,
/// and shorts are allowed. A risk configuration gives its own limits.
pub proof fn law_limits_and_their_defaults(
    vars: ExecutorVars,
    c: ExecutorConfig,
    risk: RiskConfig,
    d: ExecutorConfig,
)
    requires
        call_ensures(ExecutorConfig::from_env_or_default, (&vars,), c),
        call_ensures(ExecutorConfig::from_risk, (&risk,), d),
    ensures
        vars.execution_enabled is None ==> !c.execution_enabled,
        vars.latency_max_ms is None ==> c.latency_max_ms == 200,
        vars.spread_max_pct is None ==> c.spread_max_pct@ == single_ratio(20, 100),
        vars.confidence_min is None ==> c.confidence_min@ == single_ratio(55, 100),
        vars.cooldown_ms is None ==> c.cooldown_ms == 5000,
        vars.hysteresis_enter is None ==> c.hysteresis_enter@ == single_ratio(62, 100),
        vars.hysteresis_exit is None ==> c.hysteresis_exit@ == single_ratio(58, 100),
        vars.allow_short is None ==> c.allow_short,
        d.execution_enabled == risk.execution_enabled,
        d.latency_max_ms == risk.latency_max_ms,
        d.spread_max_pct == risk.spread_max_pct,
        d.confidence_min == risk.confidence_min,
        d.cooldown_ms == risk.cooldown_ms,
        d.hysteresis_enter == risk.hysteresis_enter,
        d.hysteresis_exit == risk.hysteresis_exit,
        d.allow_short,
{
}

} // verus!
