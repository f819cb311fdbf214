//! Model configuration and model meta data.

use crate::vars::{integer_or, read_text, read_u32, read_usize, text_or};
use vstd::prelude::*;

verus! {

/// Model configuration.
#[derive(Clone, Debug)]
pub struct ModelConfig {
    pub model_version: String,
    pub onnx_model_path: String,
    pub meta_path: String,
    pub warmup_runs: u32,
    pub expected_feature_len: usize,
    /// `binary_probs` or `logits`.
    pub output_kind: String,
}

/// Output section of the model meta data.
#[derive(Clone, Debug)]
pub struct ModelMetaOutput {
    pub kind: String,
    pub names: Vec<String>,
}

/// Model meta data.
#[derive(Clone, Debug)]
pub struct ModelMeta {
    pub model_version: String,
    pub feature_version: u32,
    pub feature_order: Vec<String>,
    pub expected_feature_len: usize,
    pub output: ModelMetaOutput,
}

/// The values of the environment variables that override the model configuration.
#[derive(Clone, Debug)]
pub struct ModelVars {
    pub onnx_model_path: Option<String>,
    pub meta_path: Option<String>,
    pub expected_feature_len: Option<String>,
    pub warmup_runs: Option<String>,
    pub output_kind: Option<String>,
}

impl ModelConfig {
    /// The configuration with the overrides of the environment applied.
    pub fn with_vars(&self, vars: &ModelVars) -> (r: Self)
        ensures
            r.model_version@ == self.model_version@,
            r.onnx_model_path@ == text_or(vars.onnx_model_path, self.onnx_model_path@),
            r.meta_path@ == text_or(vars.meta_path, self.meta_path@),
            r.expected_feature_len == integer_or(
                vars.expected_feature_len,
                usize::MAX as nat,
                self.expected_feature_len as nat,
            ),
            r.warmup_runs == integer_or(
                vars.warmup_runs,
                u32::MAX as nat,
                self.warmup_runs as nat,
            ),
            r.output_kind@ == text_or(vars.output_kind, self.output_kind@),
    {
        ModelConfig {
            model_version: self.model_version.clone(),
            onnx_model_path: read_text(
                &vars.onnx_model_path,
                self.onnx_model_path.as_str(),
            ),
            meta_path: read_text(&vars.meta_path, self.meta_path.as_str()),
            warmup_runs: read_u32(&vars.warmup_runs, self.warmup_runs),
            expected_feature_len: read_usize(
                &vars.expected_feature_len,
                self.expected_feature_len,
            ),
            output_kind: read_text(&vars.output_kind, self.output_kind.as_str()),
        }
    }
}

} // verus!
