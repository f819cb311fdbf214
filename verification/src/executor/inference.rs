//! Inference engines.

use crate::num::model::{larger, less, same, zero, Num};
use crate::num::single::single_ratio;
use crate::num::Single;
use vstd::prelude::*;

verus! {

/// Output of an inference.
#[derive(Clone, Copy, Debug, PartialEq, Eq, Structural)]
pub struct InferenceOutput {
    pub p_up: Single,
    pub p_down: Single,
    pub confidence: Single,
    /// The engine failed; the other fields carry nothing.
    pub inference_error: bool,
}

/// The output with these probabilities, whose confidence is the larger one.
pub open spec fn is_output(out: InferenceOutput, p_up: Num, p_down: Num) -> bool {
    &&& out.p_up@ == p_up
    &&& out.p_down@ == p_down
    &&& out.confidence@ == larger(p_up, p_down)
    &&& !out.inference_error
}

/// The output of an engine that failed: zeros.
pub open spec fn is_failure(out: InferenceOutput) -> bool {
    &&& out.inference_error
    &&& out.p_up@ == zero()
    &&& out.p_down@ == zero()
    &&& out.confidence@ == zero()
}

impl InferenceOutput {
    pub fn new(p_up: Single, p_down: Single) -> (r: Self)
        ensures
            r.p_up == p_up,
            r.p_down == p_down,
            is_output(r, p_up@, p_down@),
    {
        InferenceOutput {
            p_up,
            p_down,
            confidence: p_up.largest(p_down),
            inference_error: false,
        }
    }

    /// The output of an engine that failed.
    pub fn failed() -> (r: Self)
        ensures
            is_failure(r),
    {
        InferenceOutput {
            p_up: Single::zero(),
            p_down: Single::zero(),
            confidence: Single::zero(),
            inference_error: true,
        }
    }
}

/// An engine that predicts from features.
pub trait InferenceEngine: Send + Sync {
    /// `out` may come from the engine for these features. An engine may keep a state of its own,
    /// so several outputs may be possible.
    spec fn predicts(&self, features: Seq<Single>, out: InferenceOutput) -> bool;

    /// The feature length that the engine insists on.
    spec fn expected_len(&self) -> Option<usize>;

    /// The version of its model.
    spec fn version(&self) -> Seq<char>;

    fn predict(&self, features: &[Single]) -> (out: InferenceOutput)
        ensures
            self.predicts(features@, out),
    ;

    /// When `Some`, snapshots of another feature length are not traded on.
    fn expected_feature_len(&self) -> (r: Option<usize>)
        ensures
            r == self.expected_len(),
    ;

    /// Goes into each decision.
    fn model_version(&self) -> (r: &str)
        ensures
            r@ == self.version(),
    ;
}

/// Engine with configured outputs.
#[derive(Clone, Copy, Debug, PartialEq, Eq, Structural)]
pub struct MockInferenceEngine {
    pub p_up: Single,
    pub p_down: Single,
    pub expected_feature_len: Option<usize>,
}

/// The probabilities that a [`MockInferenceEngine`] gives for these features.
pub open spec fn mock_probabilities(
    engine: MockInferenceEngine,
    features: Seq<Single>,
) -> (Num, Num) {
    if same(engine.p_up@, zero()) && same(engine.p_down@, zero()) && features.len() > 0 {
        if less(zero(), features[0]@) {
            (single_ratio(65, 100), single_ratio(35, 100))
        } else {
            (single_ratio(35, 100), single_ratio(65, 100))
        }
    } else {
        (engine.p_up@, engine.p_down@)
    }
}

impl MockInferenceEngine {
    pub fn new(p_up: Single, p_down: Single) -> (r: Self)
        ensures
            r == (MockInferenceEngine { p_up, p_down, expected_feature_len: None }),
    {
        MockInferenceEngine { p_up, p_down, expected_feature_len: None }
    }

    /// Long with confidence 0.7.
    pub fn long_bias() -> (r: Self)
        ensures
            r.p_up@ == single_ratio(7, 10),
            r.p_down@ == single_ratio(3, 10),
            r.expected_feature_len is None,
    {
        Self::new(Single::ratio(7, 10), Single::ratio(3, 10))
    }

    /// Short with confidence 0.7.
    pub fn short_bias() -> (r: Self)
        ensures
            r.p_up@ == single_ratio(3, 10),
            r.p_down@ == single_ratio(7, 10),
            r.expected_feature_len is None,
    {
        Self::new(Single::ratio(3, 10), Single::ratio(7, 10))
    }

    /// Confidence 0.5 on both sides.
    pub fn low_confidence() -> (r: Self)
        ensures
            r.p_up@ == single_ratio(5, 10),
            r.p_down@ == single_ratio(5, 10),
            r.expected_feature_len is None,
    {
        Self::new(Single::ratio(5, 10), Single::ratio(5, 10))
    }

    /// Long when the first feature is positive, else short.
    pub fn from_first_feature() -> (r: Self)
        ensures
            r.p_up@ == zero(),
            r.p_down@ == zero(),
            r.expected_feature_len is None,
    {
        Self::new(Single::zero(), Single::zero())
    }

    /// The same engine, insisting on a feature length.
    pub fn with_expected_feature_len(self, len: usize) -> (r: Self)
        ensures
            r == (MockInferenceEngine { expected_feature_len: Some(len), ..self }),
    {
        MockInferenceEngine {
            p_up: self.p_up,
            p_down: self.p_down,
            expected_feature_len: Some(len),
        }
    }
}

impl InferenceEngine for MockInferenceEngine {
    open spec fn predicts(&self, features: Seq<Single>, out: InferenceOutput) -> bool {
        let p = mock_probabilities(*self, features);
        is_output(out, p.0, p.1)
    }

    open spec fn expected_len(&self) -> Option<usize> {
        self.expected_feature_len
    }

    open spec fn version(&self) -> Seq<char> {
        "v1-mock"@
    }

    fn predict(&self, features: &[Single]) -> (out: InferenceOutput) {
        let nil = Single::zero();
        if self.p_up.equals(nil) && self.p_down.equals(nil) && features.len() > 0 {
            if features[0].above(nil) {
                InferenceOutput::new(Single::ratio(65, 100), Single::ratio(35, 100))
            } else {
                InferenceOutput::new(Single::ratio(35, 100), Single::ratio(65, 100))
            }
        } else {
            InferenceOutput::new(self.p_up, self.p_down)
        }
    }

    fn expected_feature_len(&self) -> (r: Option<usize>) {
        self.expected_feature_len
    }

    fn model_version(&self) -> (r: &str) {
        "v1-mock"
    }
}

/// Engine that always fails.
#[derive(Clone, Copy, Debug, PartialEq, Eq, Structural)]
pub struct MockInferenceEngineFails;

impl MockInferenceEngineFails {
    pub fn new() -> (r: Self)
        ensures
            r == MockInferenceEngineFails,
    {
        MockInferenceEngineFails
    }
}

impl Default for MockInferenceEngineFails {
    fn default() -> (r: Self)
        ensures
            r == MockInferenceEngineFails,
    {
        Self::new()
    }
}

impl InferenceEngine for MockInferenceEngineFails {
    open spec fn predicts(&self, features: Seq<Single>, out: InferenceOutput) -> bool {
        is_failure(out)
    }

    open spec fn expected_len(&self) -> Option<usize> {
        None
    }

    open spec fn version(&self) -> Seq<char> {
        "v1-mock"@
    }

    fn predict(&self, features: &[Single]) -> (out: InferenceOutput) {
        InferenceOutput::failed()
    }

    fn expected_feature_len(&self) -> (r: Option<usize>) {
        None
    }

    fn model_version(&self) -> (r: &str) {
        "v1-mock"
    }
}

/// Engine that gives long on its first call and short on later ones. It counts its calls behind
/// a shared reference: what the counter holds is not visible to contracts, which say how it is
/// made and that each call counts one more and goes by the count that it finds.
#[derive(Debug)]
pub struct MockInferenceEngineFlip {
    call_count: std::sync::atomic::AtomicUsize,
}

/// What a flipping engine returns on the call that `calls` others came before.
pub open spec fn flip_probabilities(calls: usize) -> (Num, Num) {
    if calls == 0 {
        (single_ratio(7, 10), single_ratio(3, 10))
    } else {
        (single_ratio(3, 10), single_ratio(7, 10))
    }
}

impl MockInferenceEngineFlip {
    /// The counter was made with this count.
    pub closed spec fn starts_at(self, calls: usize) -> bool {
        call_ensures(std::sync::atomic::AtomicUsize::new, (calls,), self.call_count)
    }

    /// One more call was counted, after `calls` others.
    pub closed spec fn counted(&self, calls: usize) -> bool {
        call_ensures(
            std::sync::atomic::AtomicUsize::fetch_add,
            (&self.call_count, 1usize, std::sync::atomic::Ordering::SeqCst),
            calls,
        )
    }

    /// An engine with no call counted.
    pub fn new() -> (r: Self)
        ensures
            r.starts_at(0),
    {
        MockInferenceEngineFlip { call_count: std::sync::atomic::AtomicUsize::new(0) }
    }

    /// The output of the call that `calls` others came before.
    pub fn output_after(calls: usize) -> (out: InferenceOutput)
        ensures
            is_output(out, flip_probabilities(calls).0, flip_probabilities(calls).1),
    {
        if calls == 0 {
            InferenceOutput::new(Single::ratio(7, 10), Single::ratio(3, 10))
        } else {
            InferenceOutput::new(Single::ratio(3, 10), Single::ratio(7, 10))
        }
    }
}

impl Default for MockInferenceEngineFlip {
    fn default() -> (r: Self)
        ensures
            r.starts_at(0),
    {
        Self::new()
    }
}

impl InferenceEngine for MockInferenceEngineFlip {
    open spec fn predicts(&self, features: Seq<Single>, out: InferenceOutput) -> bool {
        exists|calls: usize| #[trigger]
            self.counted(calls) && is_output(
                out,
                flip_probabilities(calls).0,
                flip_probabilities(calls).1,
            )
    }

    open spec fn expected_len(&self) -> Option<usize> {
        None
    }

    open spec fn version(&self) -> Seq<char> {
        "v1-mock"@
    }

    fn predict(&self, features: &[Single]) -> (out: InferenceOutput) {
        let calls: usize = self.call_count.fetch_add(1, std::sync::atomic::Ordering::SeqCst);
        assert(self.counted(calls));
        Self::output_after(calls)
    }

    fn expected_feature_len(&self) -> (r: Option<usize>) {
        None
    }

    fn model_version(&self) -> (r: &str) {
        "v1-mock"
    }
}

/// An engine whose type is chosen at run time.
pub struct BoxedInferenceEngine(pub Box<dyn InferenceEngine>);

impl InferenceEngine for BoxedInferenceEngine {
    open spec fn predicts(&self, features: Seq<Single>, out: InferenceOutput) -> bool {
        self.0.predicts(features, out)
    }

    open spec fn expected_len(&self) -> Option<usize> {
        self.0.expected_len()
    }

    open spec fn version(&self) -> Seq<char> {
        self.0.version()
    }

    fn predict(&self, features: &[Single]) -> (out: InferenceOutput) {
        self.0.predict(features)
    }

    fn expected_feature_len(&self) -> (r: Option<usize>) {
        self.0.expected_feature_len()
    }

    fn model_version(&self) -> (r: &str) {
        self.0.model_version()
    }
}

} // verus!
