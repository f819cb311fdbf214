//! The inference engine around a model that runs outside the library.

use super::inference::{is_failure, InferenceEngine, InferenceOutput};
use super::model_config::{ModelConfig, ModelMeta};
use super::onnx_output::{input_row, is_reading, read_output};
use crate::num::single::single_zero;
use crate::num::Single;
use vstd::prelude::*;

verus! {

/// Engine around a model: `run` gives the output tensor for an input row, or `None` where the
/// run fails, and `exp` is the exponential function.
#[verifier::reject_recursive_types(R)]
#[verifier::reject_recursive_types(X)]
pub struct OrtInferenceEngine<
    R: Fn(Vec<Single>) -> Option<Vec<Single>> + Send + Sync,
    X: Fn(Single) -> Single + Send + Sync,
> {
    run: R,
    exp: X,
    expected_feature_len: usize,
    model_version: String,
    output_kind: String,
}

/// `out` comes from a run of the model on these features.
pub open spec fn is_model_output<R, X>(
    run: R,
    exp: X,
    kind: Seq<char>,
    features: Seq<Single>,
    out: InferenceOutput,
) -> bool where
    R: Fn(Vec<Single>) -> Option<Vec<Single>> + Send + Sync,
    X: Fn(Single) -> Single + Send + Sync,
 {
    exists|row: Vec<Single>, tensor: Option<Vec<Single>>|
        row@ == features && #[trigger] call_ensures(run, (row,), tensor) && match tensor {
            Some(t) => is_reading(exp, kind, t@, out),
            None => is_failure(out),
        }
}

impl<
    R: Fn(Vec<Single>) -> Option<Vec<Single>> + Send + Sync,
    X: Fn(Single) -> Single + Send + Sync,
> OrtInferenceEngine<R, X> {
    #[verifier::type_invariant]
    spec fn inv(self) -> bool {
        &&& forall|row: Vec<Single>| #[trigger] call_requires(self.run, (row,))
        &&& forall|x: Single| #[trigger] call_requires(self.exp, (x,))
    }

    pub closed spec fn model(self) -> R {
        self.run
    }

    pub closed spec fn exponential(self) -> X {
        self.exp
    }

    pub closed spec fn feature_len(self) -> usize {
        self.expected_feature_len
    }

    pub closed spec fn model_text(self) -> Seq<char> {
        self.model_version@
    }

    pub closed spec fn kind(self) -> Seq<char> {
        self.output_kind@
    }

    /// The engine of a configuration and its meta data around a loaded model.
    pub fn new(config: &ModelConfig, meta: &ModelMeta, run: R, exp: X) -> (r: Self)
        requires
            forall|row: Vec<Single>| #[trigger] call_requires(run, (row,)),
            forall|x: Single| #[trigger] call_requires(exp, (x,)),
        ensures
            r.model() == run,
            r.exponential() == exp,
            r.feature_len() == meta.expected_feature_len,
            r.model_text() == meta.model_version@,
            r.kind() == config.output_kind@,
    {
        OrtInferenceEngine {
            run,
            exp,
            expected_feature_len: meta.expected_feature_len,
            model_version: meta.model_version.clone(),
            output_kind: config.output_kind.clone(),
        }
    }

    /// Runs the model on zeros as often as asked for; false as soon as a run fails.
    pub fn warmup(&self, runs: u32) -> (r: bool)
        ensures
            exists|f: Seq<Single>, outs: Seq<InferenceOutput>|
                is_zeros(f, self.feature_len()) && #[trigger] is_warmup(self, f, runs, outs, r),
    {
        let features = zeros(self.expected_feature_len);
        let ghost f = features@;
        let ghost mut outs: Seq<InferenceOutput> = Seq::empty();
        let mut k: u32 = 0;
        while k < runs
            invariant
                k <= runs,
                f == features@,
                is_zeros(f, self.feature_len()),
                outs.len() == k,
                forall|i: int|
                    0 <= i < outs.len() ==> self.predicts(f, #[trigger] outs[i])
                        && !outs[i].inference_error,
            decreases runs - k,
        {
            let out = self.predict(features.as_slice());
            proof {
                outs = outs.push(out);
            }
            if out.inference_error {
                assert(is_warmup(self, f, runs, outs, false));
                return false;
            }
            k = k + 1;
        }
        assert(is_warmup(self, f, runs, outs, true));
        true
    }
}

/// The outputs of a warm-up on `f`: as many as asked for, none failed; or those up to the first
/// that failed.
pub open spec fn is_warmup<E: InferenceEngine>(
    engine: &E,
    f: Seq<Single>,
    runs: u32,
    outs: Seq<InferenceOutput>,
    ok: bool,
) -> bool {
    &&& forall|i: int| 0 <= i < outs.len() ==> engine.predicts(f, #[trigger] outs[i])
    &&& if ok {
        outs.len() == runs && forall|i: int|
            0 <= i < outs.len() ==> !(#[trigger] outs[i]).inference_error
    } else {
        0 < outs.len() <= runs && outs.last().inference_error && forall|i: int|
            0 <= i < outs.len() - 1 ==> !(#[trigger] outs[i]).inference_error
    }
}

/// A row of `n` zeros.
pub open spec fn is_zeros(f: Seq<Single>, n: usize) -> bool {
    f.len() == n && forall|i: int| 0 <= i < f.len() ==> #[trigger] f[i] == single_zero()
}

fn zeros(n: usize) -> (r: Vec<Single>)
    ensures
        is_zeros(r@, n),
{
    let mut r: Vec<Single> = Vec::new();
    while r.len() < n
        invariant
            r@.len() <= n,
            forall|i: int| 0 <= i < r@.len() ==> #[trigger] r@[i] == single_zero(),
        decreases n - r@.len(),
    {
        r.push(Single::zero());
    }
    r
}

impl<
    R: Fn(Vec<Single>) -> Option<Vec<Single>> + Send + Sync,
    X: Fn(Single) -> Single + Send + Sync,
> InferenceEngine for OrtInferenceEngine<R, X> {
    open spec fn predicts(&self, features: Seq<Single>, out: InferenceOutput) -> bool {
        if features.len() != self.feature_len() {
            is_failure(out)
        } else {
            is_model_output(self.model(), self.exponential(), self.kind(), features, out)
        }
    }

    open spec fn expected_len(&self) -> Option<usize> {
        Some(self.feature_len())
    }

    open spec fn version(&self) -> Seq<char> {
        self.model_text()
    }

    fn predict(&self, features: &[Single]) -> (out: InferenceOutput) {
        proof {
            use_type_invariant(&*self);
        }
        let row = match input_row(self.expected_feature_len, features) {
            Some(row) => row,
            None => return InferenceOutput::failed(),
        };
        let ghost input = row;
        let tensor = (self.run)(row);
        let out = match &tensor {
            Some(t) => read_output(self.output_kind.as_str(), t.as_slice(), &self.exp),
            None => InferenceOutput::failed(),
        };
        proof {
            assert(call_ensures(self.run, (input,), tensor));
            assert(is_model_output(self.run, self.exp, self.output_kind@, features@, out));
        }
        out
    }

    fn expected_feature_len(&self) -> (r: Option<usize>) {
        Some(self.expected_feature_len)
    }

    fn model_version(&self) -> (r: &str) {
        self.model_version.as_str()
    }
}

} // verus!
