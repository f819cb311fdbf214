//! Logger settings.

use crate::vars::{flag_or, integer_or, read_flag, read_u64, read_usize};
use vstd::prelude::*;

verus! {

/// Logger settings.
#[derive(Clone, Debug)]
pub struct LoggerConfig {
    pub enabled: bool,
    pub flush_interval_ms: u64,
    pub max_batch_size: usize,
    pub drop_on_full: bool,
    pub log_raw_ticks: bool,
    pub clickhouse: Option<ClickHouseConfig>,
}

/// ClickHouse connection and retries.
#[derive(Clone, Debug)]
pub struct ClickHouseConfig {
    pub url: String,
    pub database: String,
    pub username: String,
    pub password: String,
    pub send_retries: u32,
    pub retry_backoff_ms: u64,
}

/// The values of the environment variables that override the defaults.
#[derive(Clone, Debug)]
pub struct LoggerVars {
    pub enabled: Option<String>,
    pub flush_interval_ms: Option<String>,
    pub max_batch_size: Option<String>,
    pub drop_on_full: Option<String>,
    pub log_raw_ticks: Option<String>,
}

impl ClickHouseConfig {
    /// The settings where none are given.
    pub fn defaults() -> (r: Self)
        ensures
            r.url@ == "http://localhost:8123"@,
            r.database@ == "quantum"@,
            r.username@ == ""@,
            r.password@ == ""@,
            r.send_retries == 5,
            r.retry_backoff_ms == 200,
    {
        ClickHouseConfig {
            url: "http://localhost:8123".to_string(),
            database: "quantum".to_string(),
            username: "".to_string(),
            password: "".to_string(),
            send_retries: 5,
            retry_backoff_ms: 200,
        }
    }
}

impl LoggerConfig {
    /// The defaults, each overridden by its environment variable where that parses.
    pub fn from_env_or_default(vars: &LoggerVars) -> (c: Self)
        ensures
            c.enabled == flag_or(vars.enabled, true),
            c.flush_interval_ms == integer_or(vars.flush_interval_ms, u64::MAX as nat, 500),
            c.max_batch_size == integer_or(vars.max_batch_size, usize::MAX as nat, 2000),
            c.drop_on_full == flag_or(vars.drop_on_full, true),
            c.log_raw_ticks == flag_or(vars.log_raw_ticks, true),
            c.clickhouse is None,
    {
        LoggerConfig {
            enabled: read_flag(&vars.enabled, true),
            flush_interval_ms: read_u64(&vars.flush_interval_ms, 500),
            max_batch_size: read_usize(&vars.max_batch_size, 2000),
            drop_on_full: read_flag(&vars.drop_on_full, true),
            log_raw_ticks: read_flag(&vars.log_raw_ticks, true),
            clickhouse: None,
        }
    }

    /// Retries after a failed write: those of ClickHouse, or three.
    pub open spec fn retries(self) -> u32 {
        match self.clickhouse {
            Some(c) => c.send_retries,
            None => 3,
        }
    }

    /// Pause before a retry: that of ClickHouse, or 200 ms.
    pub open spec fn pause_ms(self) -> u64 {
        match self.clickhouse {
            Some(c) => c.retry_backoff_ms,
            None => 200,
        }
    }

    pub fn send_retries(&self) -> (r: u32)
        ensures
            r == self.retries(),
    {
        match &self.clickhouse {
            Some(c) => c.send_retries,
            None => 3,
        }
    }

    pub fn retry_backoff_ms(&self) -> (r: u64)
        ensures
            r == self.pause_ms(),
    {
        match &self.clickhouse {
            Some(c) => c.retry_backoff_ms,
            None => 200,
        }
    }
}

} // verus!
