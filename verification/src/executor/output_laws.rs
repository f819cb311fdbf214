//! What outputs of engines and models promise.

use super::inference::{
    flip_probabilities, is_output, InferenceEngine, InferenceOutput, MockInferenceEngine,
};
use super::onnx_output::{is_reading, is_result, is_softmax, normalised};
use crate::num::laws::{law_commutative, law_difference_is_monotone, law_quotient_is_monotone};
use crate::num::model::{
    at_most, difference, larger, less, quotient, same, single_format, sum, zero, Num,
};
use crate::num::single::single_ratio;
use crate::num::Single;
use vstd::prelude::*;

verus! {

/// The confidence of an output is the larger of its two probabilities: none is above it, and it is
/// one of them.
pub proof fn law_confidence_is_the_larger_probability(
    out: InferenceOutput,
    p_up: Num,
    p_down: Num,
)
    requires
        is_output(out, p_up, p_down),
    ensures
        out.p_up@ == p_up,
        out.p_down@ == p_down,
        !out.inference_error,
        !less(out.confidence@, p_up),
        !less(out.confidence@, p_down),
        out.confidence@ == p_up || out.confidence@ == p_down,
        !(p_up is Nan) ==> !(out.confidence@ is Nan),
        !(p_down is Nan) ==> !(out.confidence@ is Nan),
{
}

/// A mock engine gives its own probabilities. One without any goes by the sign of the first
/// feature: up where it is positive, else down.
pub proof fn law_mock_outputs(
    e: MockInferenceEngine,
    features: Seq<Single>,
    out: InferenceOutput,
)
    requires
        e.predicts(features, out),
    ensures
        !out.inference_error,
        !same(e.p_up@, zero()) || !same(e.p_down@, zero()) || features.len() == 0 ==> out.p_up@
            == e.p_up@ && out.p_down@ == e.p_down@,
        same(e.p_up@, zero()) && same(e.p_down@, zero()) && features.len() > 0 ==> {
            &&& less(zero(), features[0]@) ==> out.p_up@ == single_ratio(65, 100) && out.p_down@
                == single_ratio(35, 100)
            &&& !less(zero(), features[0]@) ==> out.p_up@ == single_ratio(35, 100) && out.p_down@
                == single_ratio(65, 100)
        },
        out.confidence@ == larger(out.p_up@, out.p_down@),
{
}

/// The flipping engine is for up on the first call and for down on all later ones.
pub proof fn law_flip_turns_after_the_first_call(calls: usize)
    ensures
        calls == 0 ==> flip_probabilities(calls) == (single_ratio(7, 10), single_ratio(3, 10)),
        calls > 0 ==> flip_probabilities(calls) == (single_ratio(3, 10), single_ratio(7, 10)),
{
}

/// The probabilities of two exponentials: swapping them swaps the probabilities, the larger one
/// never has the smaller probability, and each is its share of the sum.
pub proof fn law_shares_follow_the_exponentials(ea: Num, eb: Num)
    ensures
        normalised(eb, ea) == (normalised(ea, eb).1, normalised(ea, eb).0),
        ({
            let total = sum(single_format(), ea, eb);
            less(zero(), total) ==> normalised(ea, eb).0 == quotient(single_format(), ea, total)
                && normalised(ea, eb).1 == quotient(single_format(), eb, total) && (at_most(ea, eb)
                ==> !less(normalised(ea, eb).1, normalised(ea, eb).0))
        }),
        at_most(sum(single_format(), ea, eb), zero()) ==> normalised(ea, eb) == (
            single_ratio(1, 2),
            single_ratio(1, 2),
        ),
{
    let f = single_format();
    law_commutative(f, ea, eb);
    let total = sum(f, ea, eb);
    if less(zero(), total) && at_most(ea, eb) {
        law_quotient_is_monotone(f, ea, eb, total);
    }
}

/// Under an exponential function that keeps the order and is positive, the smaller of two finite
/// logits never has the larger probability; with fewer than two logits it is even.
pub proof fn law_softmax_keeps_the_order<F: Fn(Single) -> Single>(
    exp: F,
    logits: Seq<Single>,
    p: (Num, Num),
)
    requires
        is_softmax(exp, logits, p),
        forall|u: Single, v: Single, eu: Single, ev: Single|
            #![trigger call_ensures(exp, (u,), eu), call_ensures(exp, (v,), ev)]
            call_ensures(exp, (u,), eu) && call_ensures(exp, (v,), ev) && at_most(u@, v@)
                ==> at_most(eu@, ev@) && less(zero(), eu@),
    ensures
        logits.len() < 2 ==> p == (single_ratio(1, 2), single_ratio(1, 2)),
        logits.len() >= 2 && logits[0]@ is Fin && logits[1]@ is Fin ==> {
            &&& at_most(logits[0]@, logits[1]@) ==> !less(p.1, p.0)
            &&& at_most(logits[1]@, logits[0]@) ==> !less(p.0, p.1)
        },
{
    if logits.len() >= 2 && logits[0]@ is Fin && logits[1]@ is Fin {
        let f = single_format();
        let (x, y) = (logits[0]@, logits[1]@);
        let top = larger(x, y);
        let (a, b, ea, eb) = choose|a: Single, b: Single, ea: Single, eb: Single|
            {
                &&& a@ == difference(f, x, top)
                &&& b@ == difference(f, y, top)
                &&& #[trigger] call_ensures(exp, (a,), ea)
                &&& #[trigger] call_ensures(exp, (b,), eb)
                &&& p == normalised(ea@, eb@)
            };
        lemma_finite_difference(x, top);
        lemma_finite_difference(y, top);
        let total = sum(f, ea@, eb@);
        law_shares_follow_the_exponentials(ea@, eb@);
        law_shares_follow_the_exponentials(eb@, ea@);
        law_commutative(f, ea@, eb@);
        if at_most(x, y) {
            law_difference_is_monotone(f, top, x, y);
            assert(at_most(a@, b@));
            lemma_positive_sum(ea@, eb@);
        }
        if at_most(y, x) {
            law_difference_is_monotone(f, top, y, x);
            assert(at_most(b@, a@));
            lemma_positive_sum(eb@, ea@);
        }
    }
}

proof fn lemma_finite_difference(x: Num, y: Num)
    requires
        x is Fin,
        y is Fin,
    ensures
        !(difference(single_format(), x, y) is Nan),
{
    reveal(sum);
}

proof fn lemma_positive_sum(x: Num, y: Num)
    requires
        less(zero(), x),
        at_most(x, y),
    ensures
        less(zero(), sum(single_format(), x, y)),
{
    reveal(sum);
    let f = single_format();
    if x is Fin && y is Fin {
        let v = x->Fin_units + y->Fin_units;
        vstd::arithmetic::power2::lemma2_to64();
        crate::num::laws::law_rounding_is_monotone(f, 1, 1, v, 1);
        assert(crate::num::model::magnitude_units(23, 1) == 1);
        crate::num::laws::law_representable_is_kept(f, false, 1);
        assert(1 < 255 * vstd::arithmetic::power2::pow2(23));
    }
}

/// A tensor of probabilities has down first and up second; fewer than two numbers, or one that is
/// not finite, is a failure with zeros.
pub proof fn law_tensors_have_down_before_up<F: Fn(Single) -> Single>(
    exp: F,
    kind: Seq<char>,
    tensor: Seq<Single>,
    out: InferenceOutput,
)
    requires
        is_reading(exp, kind, tensor, out),
        kind != "logits"@,
    ensures
        out.inference_error <==> tensor.len() < 2 || !(tensor[0]@ is Fin) || !(tensor[1]@ is Fin),
        out.inference_error ==> out.p_up@ == zero() && out.p_down@ == zero() && out.confidence@
            == zero(),
        !out.inference_error ==> out.p_down@ == tensor[0]@ && out.p_up@ == tensor[1]@
            && out.confidence@ == larger(out.p_up@, out.p_down@),
{
}

/// A tensor of logits is read as probabilities of down and up, in this order.
pub proof fn law_logits_have_down_before_up<F: Fn(Single) -> Single>(
    exp: F,
    kind: Seq<char>,
    tensor: Seq<Single>,
    out: InferenceOutput,
)
    requires
        is_reading(exp, kind, tensor, out),
        kind == "logits"@,
    ensures
        exists|p: (Num, Num)|
            #![trigger is_softmax(exp, tensor, p)]
            is_softmax(exp, tensor, p) && (if p.0 is Fin && p.1 is Fin {
                !out.inference_error && out.p_down@ == p.0 && out.p_up@ == p.1
            } else {
                out.inference_error
            }),
{
    let p = choose|p: (Num, Num)| #[trigger]
        is_softmax(exp, tensor, p) && is_result(out, p.0, p.1);
    assert(is_softmax(exp, tensor, p));
}

} // verus!
