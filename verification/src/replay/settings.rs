//! Settings of a replay.

use crate::common::config::FeaturesConfig;
use crate::executor::config::ExecutorConfig;
use crate::executor::inference::MockInferenceEngine;
use crate::num::single::single_ratio;
use crate::text::digits::{parse_size, unsigned_value};
use crate::text::parts::{digits_after, digits_behind, trim_end, trimmed_end};
use crate::text::words::same_text;
use vstd::prelude::*;

verus! {

/// Window where nothing says another.
pub const DEFAULT_REPLAY_WINDOW: usize = 60;

/// The size that a text denotes.
pub open spec fn size_value(s: Seq<char>) -> Option<usize> {
    match unsigned_value(s) {
        Some(v) => if v <= usize::MAX {
            Some(v as usize)
        } else {
            None
        },
        None => None,
    }
}

/// The first of two values that is there.
pub open spec fn first_of(a: Option<usize>, b: Option<usize>) -> Option<usize> {
    match a {
        Some(v) => Some(v),
        None => b,
    }
}

/// The size in a variable.
pub open spec fn size_in(var: Option<String>) -> Option<usize> {
    match var {
        Some(s) => size_value(s@),
        None => None,
    }
}

/// The window of the first feature, given in seconds as in `60s`.
pub open spec fn window_in(features: FeaturesConfig) -> Option<usize> {
    if features.features@.len() == 0 {
        None
    } else {
        size_value(trimmed_end(features.features@[0].window@, 's'))
    }
}

/// The window in the name of a pack: the number behind its last `w`.
pub open spec fn window_named(name: Option<String>) -> Option<usize> {
    match name {
        Some(s) => match digits_after(s@, 'w') {
            Some(d) => size_value(d),
            None => None,
        },
        None => None,
    }
}

fn size_from(var: &Option<String>) -> (r: Option<usize>)
    ensures
        r == size_in(*var),
{
    match var {
        Some(s) => parse_size(s.as_str()),
        None => None,
    }
}

fn window_from(features: &FeaturesConfig) -> (r: Option<usize>)
    ensures
        r == window_in(*features),
{
    if features.features.len() == 0 {
        None
    } else {
        let digits = trim_end(features.features[0].window.as_str(), 's');
        parse_size(digits.as_str())
    }
}

/// The window: that of the variable, else that of the first feature, else the default.
pub fn resolve_window(var: &Option<String>, features: &FeaturesConfig) -> (r: usize)
    ensures
        r == match first_of(size_in(*var), window_in(*features)) {
            Some(w) => w,
            None => DEFAULT_REPLAY_WINDOW,
        },
{
    match size_from(var) {
        Some(w) => w,
        None => match window_from(features) {
            Some(w) => w,
            None => DEFAULT_REPLAY_WINDOW,
        },
    }
}

/// The window of a pack without meta data: that in its name, else that of the variable, else
/// that of the first feature, else the default.
pub fn pack_window(
    name: &Option<String>,
    var: &Option<String>,
    features: &Option<FeaturesConfig>,
) -> (r: usize)
    ensures
        r == match first_of(
            first_of(window_named(*name), size_in(*var)),
            match *features {
                Some(f) => window_in(f),
                None => None,
            },
        ) {
            Some(w) => w,
            None => DEFAULT_REPLAY_WINDOW,
        },
{
    let named = match name {
        Some(s) => match digits_behind(s.as_str(), 'w') {
            Some(d) => parse_size(d.as_str()),
            None => None,
        },
        None => None,
    };
    if let Some(w) = named {
        return w;
    }
    if let Some(w) = size_from(var) {
        return w;
    }
    let listed = match features {
        Some(f) => window_from(f),
        None => None,
    };
    match listed {
        Some(w) => w,
        None => DEFAULT_REPLAY_WINDOW,
    }
}

/// The limits with those replaced that are given.
pub fn override_limits(
    config: ExecutorConfig,
    execution_enabled: Option<bool>,
    latency_max_ms: Option<u32>,
) -> (r: ExecutorConfig)
    ensures
        r == (ExecutorConfig {
            execution_enabled: match execution_enabled {
                Some(b) => b,
                None => config.execution_enabled,
            },
            latency_max_ms: match latency_max_ms {
                Some(l) => l,
                None => config.latency_max_ms,
            },
            ..config
        }),
{
    let mut r = config;
    if let Some(b) = execution_enabled {
        r.execution_enabled = b;
    }
    if let Some(l) = latency_max_ms {
        r.latency_max_ms = l;
    }
    r
}

/// The limits for checking a pack: without execution, unless it is asked for.
pub fn check_limits(config: ExecutorConfig, execution_enabled: Option<bool>) -> (r: ExecutorConfig)
    ensures
        r == (ExecutorConfig {
            execution_enabled: match execution_enabled {
                Some(b) => b,
                None => false,
            },
            ..config
        }),
{
    let mut r = config;
    r.execution_enabled = match execution_enabled {
        Some(b) => b,
        None => false,
    };
    r
}

/// Whether this engine can be asked for in a check.
pub open spec fn is_known_engine(name: Option<String>) -> bool {
    name matches Some(s) ==> s@ == "mock"@ || s@ == "onnx"@
}

/// The engine for checking a pack. A mock engine with a bias to long is taken for either name;
/// `None` for other names.
pub fn check_engine(name: &Option<String>) -> (r: Option<MockInferenceEngine>)
    ensures
        r is Some == is_known_engine(*name),
        r matches Some(e) ==> e.p_up@ == single_ratio(7, 10) && e.p_down@ == single_ratio(3, 10)
            && e.expected_feature_len is None,
{
    match name {
        Some(s) => if same_text(s.as_str(), "mock") || same_text(s.as_str(), "onnx") {
            Some(MockInferenceEngine::long_bias())
        } else {
            None
        },
        None => Some(MockInferenceEngine::long_bias()),
    }
}

} // verus!
