//! What the tensors around a model run mean.

use super::inference::{is_failure, is_output, InferenceOutput};
use crate::num::model::{
    at_most, difference, larger, quotient, single_format, sum, zero, Num,
};
use crate::num::single::single_ratio;
use crate::num::Single;
use crate::text::words::same_text;
use vstd::prelude::*;

verus! {

/// The input row of a model that takes `expected` features, or `None` for another number.
pub fn input_row(expected: usize, features: &[Single]) -> (r: Option<Vec<Single>>)
    ensures
        match r {
            Some(row) => features@.len() == expected && row@ == features@,
            None => features@.len() != expected,
        },
{
    if features.len() != expected {
        return None;
    }
    let mut row: Vec<Single> = Vec::new();
    let mut i: usize = 0;
    while i < features.len()
        invariant
            i <= features@.len(),
            row@ == features@.take(i as int),
        decreases features@.len() - i,
    {
        row.push(features[i]);
        i = i + 1;
    }
    proof {
        assert(features@.take(features@.len() as int) =~= features@);
    }
    Some(row)
}

/// Two exponentials scaled to sum up to one; halves where their sum is not positive.
pub open spec fn normalised(ea: Num, eb: Num) -> (Num, Num) {
    let total = sum(single_format(), ea, eb);
    if at_most(total, zero()) {
        (single_ratio(1, 2), single_ratio(1, 2))
    } else {
        (quotient(single_format(), ea, total), quotient(single_format(), eb, total))
    }
}

/// Two exponentials scaled to sum up to one.
pub fn normalise(ea: Single, eb: Single) -> (r: (Single, Single))
    ensures
        (r.0@, r.1@) == normalised(ea@, eb@),
{
    let total = ea.plus(eb);
    if total.within(Single::zero()) {
        (Single::ratio(1, 2), Single::ratio(1, 2))
    } else {
        (ea.over(total), eb.over(total))
    }
}

/// The pair is the softmax of the first two logits under the exponential function `exp`.
pub open spec fn is_softmax<F: Fn(Single) -> Single>(
    exp: F,
    logits: Seq<Single>,
    p: (Num, Num),
) -> bool {
    if logits.len() < 2 {
        p == (single_ratio(1, 2), single_ratio(1, 2))
    } else {
        let top = larger(logits[0]@, logits[1]@);
        exists|a: Single, b: Single, ea: Single, eb: Single|
            {
                &&& a@ == difference(single_format(), logits[0]@, top)
                &&& b@ == difference(single_format(), logits[1]@, top)
                &&& #[trigger] call_ensures(exp, (a,), ea)
                &&& #[trigger] call_ensures(exp, (b,), eb)
                &&& p == normalised(ea@, eb@)
            }
    }
}

/// Softmax of the first two logits; `exp` is the exponential function.
pub fn softmax_2<F: Fn(Single) -> Single>(logits: &[Single], exp: &F) -> (r: (Single, Single))
    requires
        forall|x: Single| #[trigger] call_requires(*exp, (x,)),
    ensures
        is_softmax(*exp, logits@, (r.0@, r.1@)),
{
    if logits.len() < 2 {
        return (Single::ratio(1, 2), Single::ratio(1, 2));
    }
    let top = logits[0].largest(logits[1]);
    let a = logits[0].minus(top);
    let b = logits[1].minus(top);
    let ea = exp(a);
    let eb = exp(b);
    proof {
        assert(call_ensures(*exp, (a,), ea));
        assert(call_ensures(*exp, (b,), eb));
    }
    normalise(ea, eb)
}

/// The output is what the probabilities lead to: a failure where one is not finite.
pub open spec fn is_result(out: InferenceOutput, p_down: Num, p_up: Num) -> bool {
    if p_down is Fin && p_up is Fin {
        is_output(out, p_up, p_down)
    } else {
        is_failure(out)
    }
}

/// The inference output with these probabilities; a failure where one is not finite.
pub fn checked_output(p_down: Single, p_up: Single) -> (out: InferenceOutput)
    ensures
        is_result(out, p_down@, p_up@),
{
    if !p_down.is_finite() || !p_up.is_finite() {
        InferenceOutput::failed()
    } else {
        InferenceOutput::new(p_up, p_down)
    }
}

/// The reading of an output tensor: logits, or else the probabilities of down and up.
pub open spec fn is_reading<F: Fn(Single) -> Single>(
    exp: F,
    output_kind: Seq<char>,
    tensor: Seq<Single>,
    out: InferenceOutput,
) -> bool {
    if output_kind == "logits"@ {
        exists|p: (Num, Num)| #[trigger]
            is_softmax(exp, tensor, p) && is_result(out, p.0, p.1)
    } else if tensor.len() < 2 {
        is_failure(out)
    } else {
        is_result(out, tensor[0]@, tensor[1]@)
    }
}

/// Reads the output tensor of a model: logits, or else the probabilities of down and up.
pub fn read_output<F: Fn(Single) -> Single>(
    output_kind: &str,
    tensor: &[Single],
    exp: &F,
) -> (out: InferenceOutput)
    requires
        forall|x: Single| #[trigger] call_requires(*exp, (x,)),
    ensures
        is_reading(*exp, output_kind@, tensor@, out),
{
    if same_text(output_kind, "logits") {
        let (p_down, p_up) = softmax_2(tensor, exp);
        proof {
            assert(is_softmax(*exp, tensor@, (p_down@, p_up@)));
        }
        checked_output(p_down, p_up)
    } else if tensor.len() < 2 {
        InferenceOutput::failed()
    } else {
        checked_output(tensor[0], tensor[1])
    }
}

} // verus!
