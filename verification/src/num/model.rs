//! Mathematical model of binary floating-point numbers.

use super::round::{grid, least};
use vstd::arithmetic::power2::pow2;
use vstd::prelude::*;

verus! {

/// A binary interchange format: `frac` fraction bits, `top` the exponent field of infinity,
/// and `scale` such that the smallest subnormal is `2^-scale`.
pub struct Format {
    pub frac: nat,
    pub top: nat,
    pub scale: nat,
}

/// The double-precision format.
pub open spec fn double_format() -> Format {
    Format { frac: 52, top: 2047, scale: 1074 }
}

/// The single-precision format.
pub open spec fn single_format() -> Format {
    Format { frac: 23, top: 255, scale: 149 }
}

/// What a bit pattern stands for; `units` counts multiples of the smallest subnormal.
pub enum Num {
    Nan,
    Inf { neg: bool },
    Fin { neg: bool, units: nat },
}

/// The value of a finite magnitude, in multiples of the smallest subnormal.
pub open spec fn magnitude_units(frac: nat, mag: nat) -> nat {
    if mag < pow2(frac) {
        mag
    } else {
        (mag % pow2(frac) + pow2(frac)) * pow2((mag / pow2(frac) - 1) as nat)
    }
}

/// The number with sign `neg` and magnitude bits `mag`.
pub open spec fn with_magnitude(f: Format, neg: bool, mag: nat) -> Num {
    if mag > f.top * pow2(f.frac) {
        Num::Nan
    } else if mag == f.top * pow2(f.frac) {
        Num::Inf { neg }
    } else {
        Num::Fin { neg, units: magnitude_units(f.frac, mag) }
    }
}

/// The number that a bit pattern encodes.
pub open spec fn decode(f: Format, bits: nat) -> Num {
    let sign = (f.top + 1) * pow2(f.frac);
    with_magnitude(f, bits >= sign, bits % sign)
}

/// The number nearest to `n / d` units, ties to even, infinity past the largest finite one.
pub open spec fn rounded(f: Format, neg: bool, n: nat, d: nat) -> Num {
    with_magnitude(f, neg, least(grid(f.frac, n, d), f.top * pow2(f.frac)))
}

/// The signed number of units of a finite number.
pub open spec fn signed(neg: bool, units: nat) -> int {
    if neg {
        -(units as int)
    } else {
        units as int
    }
}

pub open spec fn magnitude_of(v: int) -> nat {
    if v < 0 {
        (-v) as nat
    } else {
        v as nat
    }
}

pub open spec fn zero() -> Num {
    Num::Fin { neg: false, units: 0 }
}

#[verifier::opaque]
pub open spec fn sum(f: Format, x: Num, y: Num) -> Num {
    match (x, y) {
        (Num::Nan, _) => Num::Nan,
        (_, Num::Nan) => Num::Nan,
        (Num::Inf { neg: n1 }, Num::Inf { neg: n2 }) => if n1 == n2 {
            x
        } else {
            Num::Nan
        },
        (Num::Inf { .. }, _) => x,
        (_, Num::Inf { .. }) => y,
        (Num::Fin { neg: n1, units: u1 }, Num::Fin { neg: n2, units: u2 }) => {
            let v = signed(n1, u1) + signed(n2, u2);
            if v == 0 {
                Num::Fin { neg: n1 && n2, units: 0 }
            } else {
                rounded(f, v < 0, magnitude_of(v), 1)
            }
        },
    }
}

pub open spec fn negated(x: Num) -> Num {
    match x {
        Num::Nan => Num::Nan,
        Num::Inf { neg } => Num::Inf { neg: !neg },
        Num::Fin { neg, units } => Num::Fin { neg: !neg, units },
    }
}

pub open spec fn absolute(x: Num) -> Num {
    match x {
        Num::Nan => Num::Nan,
        Num::Inf { .. } => Num::Inf { neg: false },
        Num::Fin { units, .. } => Num::Fin { neg: false, units },
    }
}

pub open spec fn difference(f: Format, x: Num, y: Num) -> Num {
    sum(f, x, negated(y))
}

#[verifier::opaque]
pub open spec fn product(f: Format, x: Num, y: Num) -> Num {
    match (x, y) {
        (Num::Nan, _) => Num::Nan,
        (_, Num::Nan) => Num::Nan,
        (Num::Inf { neg: n1 }, Num::Inf { neg: n2 }) => Num::Inf { neg: n1 != n2 },
        (Num::Inf { neg: n1 }, Num::Fin { neg: n2, units }) => if units == 0 {
            Num::Nan
        } else {
            Num::Inf { neg: n1 != n2 }
        },
        (Num::Fin { neg: n1, units }, Num::Inf { neg: n2 }) => if units == 0 {
            Num::Nan
        } else {
            Num::Inf { neg: n1 != n2 }
        },
        (Num::Fin { neg: n1, units: u1 }, Num::Fin { neg: n2, units: u2 }) => rounded(
            f,
            n1 != n2,
            u1 * u2,
            pow2(f.scale),
        ),
    }
}

#[verifier::opaque]
pub open spec fn quotient(f: Format, x: Num, y: Num) -> Num {
    match (x, y) {
        (Num::Nan, _) => Num::Nan,
        (_, Num::Nan) => Num::Nan,
        (Num::Inf { .. }, Num::Inf { .. }) => Num::Nan,
        (Num::Inf { neg: n1 }, Num::Fin { neg: n2, .. }) => Num::Inf { neg: n1 != n2 },
        (Num::Fin { neg: n1, .. }, Num::Inf { neg: n2 }) => Num::Fin { neg: n1 != n2, units: 0 },
        (Num::Fin { neg: n1, units: u1 }, Num::Fin { neg: n2, units: u2 }) => if u2 == 0 {
            if u1 == 0 {
                Num::Nan
            } else {
                Num::Inf { neg: n1 != n2 }
            }
        } else {
            rounded(f, n1 != n2, u1 * pow2(f.scale), u2)
        },
    }
}

/// `x < y`; false when either is not a number.
pub open spec fn less(x: Num, y: Num) -> bool {
    match (x, y) {
        (Num::Nan, _) => false,
        (_, Num::Nan) => false,
        (Num::Inf { neg: n1 }, Num::Inf { neg: n2 }) => n1 && !n2,
        (Num::Inf { neg }, Num::Fin { .. }) => neg,
        (Num::Fin { .. }, Num::Inf { neg }) => !neg,
        (Num::Fin { neg: n1, units: u1 }, Num::Fin { neg: n2, units: u2 }) => signed(n1, u1)
            < signed(n2, u2),
    }
}

/// `x == y`; false when either is not a number, true for zeros of either sign.
pub open spec fn same(x: Num, y: Num) -> bool {
    match (x, y) {
        (Num::Nan, _) => false,
        (_, Num::Nan) => false,
        (Num::Inf { neg: n1 }, Num::Inf { neg: n2 }) => n1 == n2,
        (Num::Fin { neg: n1, units: u1 }, Num::Fin { neg: n2, units: u2 }) => signed(n1, u1)
            == signed(n2, u2),
        _ => false,
    }
}

/// `x <= y`.
pub open spec fn at_most(x: Num, y: Num) -> bool {
    less(x, y) || same(x, y)
}

/// The larger of the two; the other one where one is not a number.
pub open spec fn larger(x: Num, y: Num) -> Num {
    if x is Nan {
        y
    } else if y is Nan {
        x
    } else if less(x, y) {
        y
    } else {
        x
    }
}

/// The smaller of the two; the other one where one is not a number.
pub open spec fn smaller(x: Num, y: Num) -> Num {
    if x is Nan {
        y
    } else if y is Nan {
        x
    } else if less(y, x) {
        y
    } else {
        x
    }
}

/// `x > 0` and finite.
pub open spec fn finite_positive(x: Num) -> bool {
    x matches Num::Fin { neg, units } && !neg && units > 0
}

/// The number nearest to the integer `v`.
pub open spec fn from_int(f: Format, v: int) -> Num {
    rounded(f, v < 0, magnitude_of(v) * pow2(f.scale), 1)
}

/// A double rounded to single precision.
#[verifier::opaque]
pub open spec fn narrowed(x: Num) -> Num {
    match x {
        Num::Fin { neg, units } => rounded(single_format(), neg, units, pow2(925)),
        _ => x,
    }
}

/// A single taken as a double.
#[verifier::opaque]
pub open spec fn widened(x: Num) -> Num {
    match x {
        Num::Fin { neg, units } => rounded(double_format(), neg, units * pow2(925), 1),
        _ => x,
    }
}

/// Truncation to an unsigned integer: not-a-number and negatives give zero, too large values
/// the largest integer.
pub open spec fn truncated(f: Format, x: Num) -> nat {
    match x {
        Num::Nan => 0,
        Num::Inf { neg } => if neg {
            0
        } else {
            u64::MAX as nat
        },
        Num::Fin { neg, units } => if neg {
            0
        } else {
            least(units / pow2(f.scale), u64::MAX as nat)
        },
    }
}

} // verus!
