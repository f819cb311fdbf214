//! Gates, inference, stabilisation: from a feature snapshot to a decision.

pub mod config;
pub mod decide;
pub mod inference;
pub mod model_config;
pub mod onnx_engine;
pub mod onnx_output;
pub mod order_id;
pub mod output_laws;

pub use config::{ExecutorConfig, ExecutorVars};
pub use decide::Executor;
pub use inference::{
    BoxedInferenceEngine, InferenceEngine, InferenceOutput, MockInferenceEngine,
    MockInferenceEngineFails, MockInferenceEngineFlip,
};
pub use model_config::{ModelConfig, ModelMeta, ModelMetaOutput, ModelVars};
pub use onnx_engine::OrtInferenceEngine;
