//! Double-precision numbers.

use super::bits::{
    abs_bits, add_bits, convert_bits, div_bits, from_u64_bits, is_finite_bits, is_nan_bits,
    less_bits, mul_bits, negate_bits, ratio_bits, same_bits, truncate_bits, Layout,
};
use super::decimal::{parse_bits, parse_number};
use super::model::{
    absolute, at_most, decode, difference, double_format, from_int, larger, less, narrowed,
    negated, product, quotient, rounded, same, smaller, sum, truncated, widened, Num,
};
use super::single::{single_layout, Single};
use vstd::arithmetic::power2::pow2;
use vstd::prelude::*;

verus! {

/// A double-precision binary floating-point number, held as its bit pattern.
#[derive(Clone, Copy, Debug, PartialEq, Eq, Structural)]
pub struct Double {
    bits: u64,
}

impl View for Double {
    type V = Num;

    closed spec fn view(&self) -> Num {
        decode(double_format(), self.bits as nat)
    }
}

/// The view of an optional number.
pub open spec fn seen_double(x: Option<Double>) -> Option<Num> {
    match x {
        Some(v) => Some(v@),
        None => None,
    }
}

/// The double nearest to `v / w`.
#[verifier::opaque]
pub open spec fn double_ratio(v: nat, w: nat) -> Num {
    rounded(double_format(), false, v * pow2(1074), w)
}

/// The double nearest to an integer.
#[verifier::opaque]
pub open spec fn double_int(v: int) -> Num {
    from_int(double_format(), v)
}

pub(crate) fn double_layout() -> (l: Layout)
    ensures
        l.valid(),
        l.format() == double_format(),
        l.sign == 0x8000_0000_0000_0000,
{
    proof {
        vstd::arithmetic::power2::lemma2_to64_rest();
    }
    Layout {
        frac: 52,
        top: 2047,
        scale: 1074,
        unit: 0x10_0000_0000_0000,
        inf: 0x7ff0_0000_0000_0000,
        sign: 0x8000_0000_0000_0000,
    }
}

impl Double {
    pub closed spec fn spec_bits(self) -> u64 {
        self.bits
    }

    /// A double is what its bit pattern encodes.
    pub proof fn lemma_decoded(self)
        ensures
            self@ == decode(double_format(), self.spec_bits() as nat),
    {
    }

    /// The number that the bit pattern encodes.
    pub fn from_bits(bits: u64) -> (r: Double)
        ensures
            r.spec_bits() == bits,
            r@ == decode(double_format(), bits as nat),
    {
        Double { bits }
    }

    /// The bit pattern.
    pub fn to_bits(self) -> (bits: u64)
        ensures
            bits == self.spec_bits(),
            self@ == decode(double_format(), bits as nat),
    {
        self.bits
    }

    pub fn zero() -> (r: Double)
        ensures
            r@ == super::model::zero(),
            r.spec_bits() == 0,
    {
        proof {
            vstd::arithmetic::power2::lemma2_to64_rest();
            let sign: nat = (2047 + 1) * pow2(52);
            assert(sign == 0x8000_0000_0000_0000);
            assert(0nat % sign == 0);
        }
        Double { bits: 0 }
    }

    /// Negative infinity.
    pub fn lowest() -> (r: Double)
        ensures
            r@ == (super::model::Num::Inf { neg: true }),
    {
        proof {
            vstd::arithmetic::power2::lemma2_to64_rest();
            let sign: nat = (2047 + 1) * pow2(52);
            assert(sign == 0x8000_0000_0000_0000);
            assert(0xfff0_0000_0000_0000nat % sign == 0x7ff0_0000_0000_0000) by (nonlinear_arith)
                requires
                    sign == 0x8000_0000_0000_0000,
            ;
            assert(2047 * pow2(52) == 0x7ff0_0000_0000_0000);
        }
        Double { bits: 0xfff0_0000_0000_0000 }
    }

    /// The double nearest to `v / w`.
    pub fn ratio(v: u64, w: u64) -> (r: Double)
        requires
            w > 0,
        ensures
            r@ == double_ratio(v as nat, w as nat),
    {
        reveal(double_ratio);
        Double { bits: ratio_bits(double_layout(), false, v, w) }
    }

    /// The double nearest to an unsigned integer.
    pub fn from_unsigned(v: u64) -> (r: Double)
        ensures
            r@ == double_int(v as int),
    {
        reveal(double_int);
        Double { bits: from_u64_bits(double_layout(), false, v) }
    }

    /// The double nearest to a signed integer.
    pub fn from_signed(v: i64) -> (r: Double)
        ensures
            r@ == double_int(v as int),
    {
        reveal(double_int);
        let mag: u64 = if v == i64::MIN {
            0x8000_0000_0000_0000
        } else if v < 0 {
            (-v) as u64
        } else {
            v as u64
        };
        Double { bits: from_u64_bits(double_layout(), v < 0, mag) }
    }

    pub fn plus(self, other: Double) -> (r: Double)
        ensures
            r@ == sum(double_format(), self@, other@),
    {
        Double { bits: add_bits(double_layout(), self.bits, other.bits) }
    }

    pub fn minus(self, other: Double) -> (r: Double)
        ensures
            r@ == difference(double_format(), self@, other@),
    {
        let l = double_layout();
        Double { bits: add_bits(l, self.bits, negate_bits(l, other.bits)) }
    }

    pub fn times(self, other: Double) -> (r: Double)
        ensures
            r@ == product(double_format(), self@, other@),
    {
        Double { bits: mul_bits(double_layout(), self.bits, other.bits) }
    }

    pub fn over(self, other: Double) -> (r: Double)
        ensures
            r@ == quotient(double_format(), self@, other@),
    {
        Double { bits: div_bits(double_layout(), self.bits, other.bits) }
    }

    pub fn negate(self) -> (r: Double)
        ensures
            r@ == negated(self@),
    {
        Double { bits: negate_bits(double_layout(), self.bits) }
    }

    pub fn magnitude(self) -> (r: Double)
        ensures
            r@ == absolute(self@),
    {
        Double { bits: abs_bits(double_layout(), self.bits) }
    }

    /// `self < other`.
    pub fn below(self, other: Double) -> (r: bool)
        ensures
            r == less(self@, other@),
    {
        less_bits(double_layout(), self.bits, other.bits)
    }

    /// `self > other`.
    pub fn above(self, other: Double) -> (r: bool)
        ensures
            r == less(other@, self@),
    {
        less_bits(double_layout(), other.bits, self.bits)
    }

    /// `self == other` as numbers: zeros are equal, not-a-number is unequal to all.
    pub fn equals(self, other: Double) -> (r: bool)
        ensures
            r == same(self@, other@),
    {
        same_bits(double_layout(), self.bits, other.bits)
    }

    /// `self <= other`.
    pub fn within(self, other: Double) -> (r: bool)
        ensures
            r == at_most(self@, other@),
    {
        self.below(other) || self.equals(other)
    }

    pub fn is_finite(self) -> (r: bool)
        ensures
            r == self@ is Fin,
    {
        is_finite_bits(double_layout(), self.bits)
    }

    pub fn is_nan(self) -> (r: bool)
        ensures
            r == self@ is Nan,
    {
        is_nan_bits(double_layout(), self.bits)
    }

    /// Finite and greater than zero.
    pub fn is_finite_positive(self) -> (r: bool)
        ensures
            r == super::model::finite_positive(self@),
    {
        self.is_finite() && self.above(Double::zero())
    }

    pub fn largest(self, other: Double) -> (r: Double)
        ensures
            r == self || r == other,
            r@ == larger(self@, other@),
    {
        if self.is_nan() {
            other
        } else if other.is_nan() {
            self
        } else if self.below(other) {
            other
        } else {
            self
        }
    }

    pub fn smallest(self, other: Double) -> (r: Double)
        ensures
            r == self || r == other,
            r@ == smaller(self@, other@),
    {
        if self.is_nan() {
            other
        } else if other.is_nan() {
            self
        } else if other.below(self) {
            other
        } else {
            self
        }
    }

    /// Rounds to single precision.
    pub fn to_single(self) -> (r: Single)
        ensures
            r@ == narrowed(self@),
    {
        reveal(narrowed);
        let bits = convert_bits(single_layout(), double_layout(), self.bits, 925);
        Single::from_bits(bits as u32)
    }

    /// The double equal to a single.
    pub fn from_single(x: Single) -> (r: Double)
        ensures
            r@ == widened(x@),
    {
        reveal(widened);
        Double { bits: convert_bits(double_layout(), single_layout(), x.to_bits() as u64, -925) }
    }

    /// Reads a number in decimal notation.
    pub fn parse(s: &str) -> (r: Option<Double>)
        ensures
            match r {
                Some(x) => parse_number(double_format(), s@) == Some(x@),
                None => parse_number(double_format(), s@) is None,
            },
    {
        match parse_bits(double_layout(), s) {
            Some(bits) => Some(Double { bits }),
            None => None,
        }
    }

    /// Truncates to an unsigned integer, saturating.
    pub fn to_unsigned(self) -> (r: u64)
        ensures
            r == truncated(double_format(), self@),
    {
        truncate_bits(double_layout(), self.bits)
    }
}

} // verus!
