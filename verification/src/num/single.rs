//! Single-precision numbers.

use super::bits::{
    abs_bits, add_bits, div_bits, is_finite_bits, is_nan_bits, less_bits, negate_bits, ratio_bits,
    same_bits, Layout,
};
use super::decimal::{parse_bits, parse_number};
use super::model::{
    absolute, at_most, decode, difference, larger, less, quotient, rounded, same, single_format,
    smaller, sum, Num,
};
use vstd::arithmetic::power2::pow2;
use vstd::prelude::*;

verus! {

/// A single-precision binary floating-point number, held as its bit pattern.
#[derive(Clone, Copy, Debug, PartialEq, Eq, Structural)]
pub struct Single {
    bits: u32,
}

impl View for Single {
    type V = Num;

    closed spec fn view(&self) -> Num {
        decode(single_format(), self.bits as nat)
    }
}

/// The single nearest to `v / w`.
#[verifier::opaque]
pub open spec fn single_ratio(v: nat, w: nat) -> Num {
    rounded(single_format(), false, v * pow2(149), w)
}

pub(crate) fn single_layout() -> (l: Layout)
    ensures
        l.valid(),
        l.format() == single_format(),
        l.sign == 0x8000_0000,
{
    proof {
        vstd::arithmetic::power2::lemma2_to64();
    }
    Layout { frac: 23, top: 255, scale: 149, unit: 0x80_0000, inf: 0x7f80_0000, sign: 0x8000_0000 }
}

/// Positive zero.
pub closed spec fn single_zero() -> Single {
    Single { bits: 0 }
}

pub proof fn lemma_single_zero()
    ensures
        single_zero()@ == super::model::zero(),
{
    vstd::arithmetic::power2::lemma2_to64();
    let sign: nat = (255 + 1) * pow2(23);
    assert(sign == 0x8000_0000);
    assert(0nat % sign == 0);
}

impl Single {
    pub closed spec fn spec_bits(self) -> u32 {
        self.bits
    }

    /// The number that the bit pattern encodes.
    pub fn from_bits(bits: u32) -> (r: Single)
        ensures
            r.spec_bits() == bits,
            r@ == decode(single_format(), bits as nat),
    {
        Single { bits }
    }

    /// The bit pattern.
    pub fn to_bits(self) -> (bits: u32)
        ensures
            bits == self.spec_bits(),
            self@ == decode(single_format(), bits as nat),
    {
        self.bits
    }

    pub fn zero() -> (r: Single)
        ensures
            r == single_zero(),
            r@ == super::model::zero(),
            r.spec_bits() == 0,
    {
        proof {
            lemma_single_zero();
        }
        Single { bits: 0 }
    }

    /// The single nearest to `v / w`.
    pub fn ratio(v: u64, w: u64) -> (r: Single)
        requires
            w > 0,
        ensures
            r@ == single_ratio(v as nat, w as nat),
    {
        reveal(single_ratio);
        Single { bits: ratio_bits(single_layout(), false, v, w) as u32 }
    }

    /// `self + other`, correctly rounded.
    pub fn plus(self, other: Single) -> (r: Single)
        ensures
            r@ == sum(single_format(), self@, other@),
    {
        let bits = add_bits(single_layout(), self.bits as u64, other.bits as u64);
        Single { bits: bits as u32 }
    }

    pub fn minus(self, other: Single) -> (r: Single)
        ensures
            r@ == difference(single_format(), self@, other@),
    {
        let l = single_layout();
        Single { bits: add_bits(l, self.bits as u64, negate_bits(l, other.bits as u64)) as u32 }
    }

    pub fn over(self, other: Single) -> (r: Single)
        ensures
            r@ == quotient(single_format(), self@, other@),
    {
        Single { bits: div_bits(single_layout(), self.bits as u64, other.bits as u64) as u32 }
    }

    pub fn magnitude(self) -> (r: Single)
        ensures
            r@ == absolute(self@),
    {
        Single { bits: abs_bits(single_layout(), self.bits as u64) as u32 }
    }

    /// `self < other`.
    pub fn below(self, other: Single) -> (r: bool)
        ensures
            r == less(self@, other@),
    {
        less_bits(single_layout(), self.bits as u64, other.bits as u64)
    }

    /// `self > other`.
    pub fn above(self, other: Single) -> (r: bool)
        ensures
            r == less(other@, self@),
    {
        less_bits(single_layout(), other.bits as u64, self.bits as u64)
    }

    /// `self == other` as numbers.
    pub fn equals(self, other: Single) -> (r: bool)
        ensures
            r == same(self@, other@),
    {
        same_bits(single_layout(), self.bits as u64, other.bits as u64)
    }

    /// `self <= other`.
    pub fn within(self, other: Single) -> (r: bool)
        ensures
            r == at_most(self@, other@),
    {
        self.below(other) || self.equals(other)
    }

    pub fn is_finite(self) -> (r: bool)
        ensures
            r == self@ is Fin,
    {
        is_finite_bits(single_layout(), self.bits as u64)
    }

    pub fn is_nan(self) -> (r: bool)
        ensures
            r == self@ is Nan,
    {
        is_nan_bits(single_layout(), self.bits as u64)
    }

    pub fn largest(self, other: Single) -> (r: Single)
        ensures
            r == self || r == other,
            r@ == larger(self@, other@),
    {
        if self.is_nan() {
            other
        } else if other.is_nan() {
            self
        } else if self.below(other) {
            other
        } else {
            self
        }
    }

    pub fn smallest(self, other: Single) -> (r: Single)
        ensures
            r == self || r == other,
            r@ == smaller(self@, other@),
    {
        if self.is_nan() {
            other
        } else if other.is_nan() {
            self
        } else if other.below(self) {
            other
        } else {
            self
        }
    }

    /// The quiet not-a-number.
    pub fn nan() -> (r: Single)
        ensures
            r@ is Nan,
    {
        proof {
            vstd::arithmetic::power2::lemma2_to64();
            let sign: nat = (255 + 1) * pow2(23);
            assert(sign == 0x8000_0000);
            assert(0x7fc0_0000nat % sign == 0x7fc0_0000) by (nonlinear_arith)
                requires
                    sign == 0x8000_0000,
            ;
            assert(255 * pow2(23) == 0x7f80_0000);
        }
        Single { bits: 0x7fc0_0000 }
    }

    /// Reads a number in decimal notation.
    pub fn parse(s: &str) -> (r: Option<Single>)
        ensures
            match r {
                Some(x) => parse_number(single_format(), s@) == Some(x@),
                None => parse_number(single_format(), s@) is None,
            },
    {
        match parse_bits(single_layout(), s) {
            Some(bits) => Some(Single { bits: bits as u32 }),
            None => None,
        }
    }
}

} // verus!
