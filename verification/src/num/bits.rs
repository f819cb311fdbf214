//! Arithmetic on bit patterns, for both formats.

use super::model::{
    absolute, decode, less, magnitude_of, negated, product, quotient, rounded, same, signed,
    sum, truncated, with_magnitude, Format, Num,
};
use super::pack::{between, bit_length, lemma_pow2_127, lemma_pow2_at_most, pack, pow2_wide};
use super::round::{lemma_grid_equal, scaled_den, scaled_num};
use vstd::arithmetic::power2::{lemma_pow2_adds, lemma_pow2_pos, lemma_pow2_unfold, pow2};
use vstd::prelude::*;

verus! {

/// The constants of a format as machine integers.
#[derive(Clone, Copy)]
pub struct Layout {
    pub frac: u32,
    pub top: u32,
    pub scale: u32,
    pub unit: u64,
    pub inf: u64,
    pub sign: u64,
}

impl Layout {
    pub open spec fn format(self) -> Format {
        Format { frac: self.frac as nat, top: self.top as nat, scale: self.scale as nat }
    }

    pub open spec fn valid(self) -> bool {
        &&& 0 < self.frac <= 52
        &&& 1 < self.top <= 2047
        &&& 100 <= self.scale <= 1074
        &&& self.frac + self.top <= self.scale + 1025
        &&& self.unit == pow2(self.frac as nat)
        &&& self.inf == self.top * self.unit
        &&& self.sign == (self.top + 1) * self.unit
        &&& self.sign <= 0x8000_0000_0000_0000
    }
}

/// A bit pattern taken apart; a finite magnitude is `m * 2^k` units.
pub enum Parts {
    Nan,
    Inf { neg: bool },
    Fin { neg: bool, m: u64, k: u32 },
}

pub open spec fn parts_of(l: Layout, p: Parts, x: Num) -> bool {
    match p {
        Parts::Nan => x is Nan,
        Parts::Inf { neg } => x == (Num::Inf { neg }),
        Parts::Fin { neg, m, k } => {
            &&& x == (Num::Fin { neg, units: m as nat * pow2(k as nat) })
            &&& m < 2 * l.unit
            &&& k < l.top
            &&& k > 0 ==> m >= l.unit
        },
    }
}

pub fn unpack(l: Layout, bits: u64) -> (p: Parts)
    requires
        l.valid(),
        bits < 2 * l.sign,
    ensures
        parts_of(l, p, decode(l.format(), bits as nat)),
{
    let neg = bits >= l.sign;
    let mag: u64 = if neg {
        bits - l.sign
    } else {
        bits
    };
    proof {
        lemma_pow2_pos(l.frac as nat);
        assert(l.sign > 0) by (nonlinear_arith)
            requires
                l.sign == (l.top + 1) * l.unit,
                l.unit > 0,
                l.top >= 0,
        ;
        assert(bits as nat % l.sign as nat == mag) by (nonlinear_arith)
            requires
                bits == mag || bits == mag + l.sign,
                mag < l.sign,
                l.sign > 0,
        ;
    }
    if mag > l.inf {
        return Parts::Nan;
    }
    if mag == l.inf {
        return Parts::Inf { neg };
    }
    if mag < l.unit {
        proof {
            vstd::arithmetic::power2::lemma2_to64();
            assert(mag as nat * 1 == mag);
        }
        return Parts::Fin { neg, m: mag, k: 0 };
    }
    let e: u64 = mag / l.unit;
    let r: u64 = mag % l.unit;
    proof {
        assert(1 <= e < l.top) by (nonlinear_arith)
            requires
                e == mag / l.unit,
                mag >= l.unit,
                mag < l.top * l.unit,
                l.unit > 0,
        ;
        assert(l.unit <= l.sign) by (nonlinear_arith)
            requires
                l.sign == (l.top + 1) * l.unit,
                l.unit > 0,
                l.top >= 0,
        ;
    }
    Parts::Fin { neg, m: r + l.unit, k: (e - 1) as u32 }
}

/// The bit pattern with sign `neg` and magnitude bits `mag`.
pub fn join(l: Layout, neg: bool, mag: u64) -> (bits: u64)
    requires
        l.valid(),
        mag <= l.inf,
    ensures
        bits < 2 * l.sign,
        decode(l.format(), bits as nat) == with_magnitude(l.format(), neg, mag as nat),
{
    proof {
        lemma_pow2_pos(l.frac as nat);
        assert(l.inf + l.unit == l.sign) by (nonlinear_arith)
            requires
                l.inf == l.top * l.unit,
                l.sign == (l.top + 1) * l.unit,
        ;
        assert(mag as nat % l.sign as nat == mag && (mag + l.sign) as nat % l.sign as nat == mag)
            by (nonlinear_arith)
            requires
                mag < l.sign,
        ;
    }
    if neg {
        mag + l.sign
    } else {
        mag
    }
}

pub fn nan_bits(l: Layout) -> (bits: u64)
    requires
        l.valid(),
    ensures
        bits < 2 * l.sign,
        decode(l.format(), bits as nat) is Nan,
{
    proof {
        lemma_pow2_pos(l.frac as nat);
        lemma_pow2_unfold(l.frac as nat);
        lemma_pow2_pos((l.frac - 1) as nat);
        assert(l.inf + l.unit == l.sign) by (nonlinear_arith)
            requires
                l.inf == l.top * l.unit,
                l.sign == (l.top + 1) * l.unit,
        ;
        let b = (l.inf + l.unit / 2) as nat;
        assert(b % (l.sign as nat) == b) by (nonlinear_arith)
            requires
                b < l.sign,
        ;
    }
    l.inf + l.unit / 2
}

pub fn zero_bits(l: Layout, neg: bool) -> (bits: u64)
    requires
        l.valid(),
    ensures
        bits < 2 * l.sign,
        decode(l.format(), bits as nat) == (Num::Fin { neg, units: 0 }),
{
    proof {
        lemma_pow2_pos(l.frac as nat);
        assert(l.top * l.unit > 0) by (nonlinear_arith)
            requires
                l.top > 0,
                l.unit > 0,
        ;
    }
    join(l, neg, 0)
}

pub fn inf_bits(l: Layout, neg: bool) -> (bits: u64)
    requires
        l.valid(),
    ensures
        bits < 2 * l.sign,
        decode(l.format(), bits as nat) == (Num::Inf { neg }),
{
    join(l, neg, l.inf)
}

/// The bit pattern of `(q + f) * 2^s` units rounded, with `f` as in [`pack`].
pub fn round_bits(
    l: Layout,
    neg: bool,
    q: u128,
    sticky: bool,
    s: i32,
    Ghost(a): Ghost<nat>,
    Ghost(b): Ghost<nat>,
    Ghost(n): Ghost<nat>,
    Ghost(d): Ghost<nat>,
) -> (bits: u64)
    requires
        l.valid(),
        q < pow2(127),
        -4000 <= s <= 4000,
        between(a, b, q as nat, sticky),
        sticky ==> q >= pow2((l.frac + 2) as nat),
        d > 0,
        scaled_num(a, s as int) * d == n * scaled_den(b, s as int),
    ensures
        bits < 2 * l.sign,
        decode(l.format(), bits as nat) == rounded(l.format(), neg, n, d),
{
    let mag = pack(l.frac, l.top, q, sticky, s, Ghost(a), Ghost(b));
    proof {
        if s < 0 {
            lemma_pow2_pos((-s) as nat);
            assert(b * pow2((-s) as nat) > 0) by (nonlinear_arith)
                requires
                    b > 0,
                    pow2((-s) as nat) > 0,
            ;
        }
        lemma_grid_equal(
            l.frac as nat,
            scaled_num(a, s as int),
            scaled_den(b, s as int),
            n,
            d,
        );
    }
    join(l, neg, mag)
}

proof fn lemma_between_exact(q: nat)
    ensures
        between(q, 1, q, false),
{
}

proof fn lemma_fits(l: Layout, m: u64)
    requires
        l.valid(),
        m < 2 * l.unit,
    ensures
        m < pow2((l.frac + 1) as nat),
        m < pow2(53),
{
    lemma_pow2_unfold((l.frac + 1) as nat);
    lemma_pow2_at_most((l.frac + 1) as nat, 53);
}

pub fn mul_bits(l: Layout, x: u64, y: u64) -> (r: u64)
    requires
        l.valid(),
        x < 2 * l.sign,
        y < 2 * l.sign,
    ensures
        r < 2 * l.sign,
        decode(l.format(), r as nat) == product(
            l.format(),
            decode(l.format(), x as nat),
            decode(l.format(), y as nat),
        ),
{
    proof {
        reveal(product);
        assert forall|m: nat, k: nat| #[trigger] (m * pow2(k)) == 0 implies m == 0 by {
            lemma_pow2_pos(k);
            assert(m == 0) by (nonlinear_arith)
                requires
                    m * pow2(k) == 0,
                    pow2(k) > 0,
            ;
        }
        assert forall|k: nat| #[trigger] (0nat * pow2(k)) == 0 by {}
    }
    match (unpack(l, x), unpack(l, y)) {
        (Parts::Nan, _) => nan_bits(l),
        (_, Parts::Nan) => nan_bits(l),
        (Parts::Inf { neg: n1 }, Parts::Inf { neg: n2 }) => inf_bits(l, n1 != n2),
        (Parts::Inf { neg: n1 }, Parts::Fin { neg: n2, m, k }) => if m == 0 {
            nan_bits(l)
        } else {
            inf_bits(l, n1 != n2)
        },
        (Parts::Fin { neg: n1, m, k }, Parts::Inf { neg: n2 }) => if m == 0 {
            nan_bits(l)
        } else {
            inf_bits(l, n1 != n2)
        },
        (Parts::Fin { neg: n1, m: m1, k: k1 }, Parts::Fin { neg: n2, m: m2, k: k2 }) => {
            proof {
                lemma_fits(l, m1);
                lemma_fits(l, m2);
                lemma_pow2_adds(53, 53);
                lemma_pow2_at_most(106, 127);
                lemma_pow2_127();
                assert(m1 as int * m2 as int <= pow2(53) * pow2(53)) by (nonlinear_arith)
                    requires
                        m1 < pow2(53),
                        m2 < pow2(53),
                ;
                assert(m1 as int * m2 as int >= 0) by (nonlinear_arith);
                vstd::arithmetic::power2::lemma2_to64_rest();
            }
            proof {
                assert(pow2(106) < pow2(127)) by {
                    vstd::arithmetic::power2::lemma_pow2_strictly_increases(106, 127);
                }
            }
            let q: u128 = m1 as u128 * m2 as u128;
            let s: i32 = k1 as i32 + k2 as i32 - l.scale as i32;
            let ghost n = (m1 as nat * pow2(k1 as nat)) * (m2 as nat * pow2(k2 as nat));
            let ghost d = pow2(l.scale as nat);
            proof {
                lemma_between_exact(q as nat);
                lemma_pow2_pos(l.scale as nat);
                lemma_pow2_adds(k1 as nat, k2 as nat);
                let a1 = pow2(k1 as nat);
                let a2 = pow2(k2 as nat);
                assert(n == q * (a1 * a2)) by (nonlinear_arith)
                    requires
                        n == (m1 as nat * a1) * (m2 as nat * a2),
                        q == m1 * m2,
                ;
                if s >= 0 {
                    lemma_pow2_adds(s as nat, l.scale as nat);
                    assert((q * pow2(s as nat)) * d == q * (pow2(s as nat) * d)) by (nonlinear_arith);
                    assert(n * 1 == n);
                } else {
                    lemma_pow2_adds((k1 + k2) as nat, (-s) as nat);
                    let p = pow2((-s) as nat);
                    assert(n * (1 * p) == q * ((a1 * a2) * p)) by (nonlinear_arith)
                        requires
                            n == q * (a1 * a2),
                    ;
                }
            }
            round_bits(
                l,
                n1 != n2,
                q,
                false,
                s,
                Ghost(q as nat),
                Ghost(1nat),
                Ghost(n),
                Ghost(d),
            )
        },
    }
}

pub fn div_bits(l: Layout, x: u64, y: u64) -> (r: u64)
    requires
        l.valid(),
        x < 2 * l.sign,
        y < 2 * l.sign,
    ensures
        r < 2 * l.sign,
        decode(l.format(), r as nat) == quotient(
            l.format(),
            decode(l.format(), x as nat),
            decode(l.format(), y as nat),
        ),
{
    proof {
        reveal(quotient);
        assert forall|m: nat, k: nat| #[trigger] (m * pow2(k)) == 0 implies m == 0 by {
            lemma_pow2_pos(k);
            assert(m == 0) by (nonlinear_arith)
                requires
                    m * pow2(k) == 0,
                    pow2(k) > 0,
            ;
        }
        assert forall|k: nat| #[trigger] (0nat * pow2(k)) == 0 by {}
    }
    match (unpack(l, x), unpack(l, y)) {
        (Parts::Nan, _) => nan_bits(l),
        (_, Parts::Nan) => nan_bits(l),
        (Parts::Inf { .. }, Parts::Inf { .. }) => nan_bits(l),
        (Parts::Inf { neg: n1 }, Parts::Fin { neg: n2, .. }) => inf_bits(l, n1 != n2),
        (Parts::Fin { neg: n1, .. }, Parts::Inf { neg: n2 }) => zero_bits(l, n1 != n2),
        (Parts::Fin { neg: n1, m: m1, k: k1 }, Parts::Fin { neg: n2, m: m2, k: k2 }) => {
            if m2 == 0 {
                if m1 == 0 {
                    nan_bits(l)
                } else {
                    inf_bits(l, n1 != n2)
                }
            } else {
                let ghost n = (m1 as nat * pow2(k1 as nat)) * pow2(l.scale as nat);
                let ghost d = m2 as nat * pow2(k2 as nat);
                div_finite(l, n1 != n2, m1, k1, m2, k2, Ghost(n), Ghost(d))
            }
        },
    }
}

/// The quotient of `m1 * 2^k1` and `m2 * 2^k2` units.
fn div_finite(l: Layout, neg: bool, m1: u64, k1: u32, m2: u64, k2: u32, Ghost(n): Ghost<nat>, Ghost(d): Ghost<nat>) -> (r: u64)
    requires
        l.valid(),
        0 < m2,
        k1 < l.top,
        k2 < l.top,
        n == (m1 as nat * pow2(k1 as nat)) * pow2(l.scale as nat),
        d == m2 as nat * pow2(k2 as nat),
    ensures
        r < 2 * l.sign,
        decode(l.format(), r as nat) == rounded(l.format(), neg, n, d),
{
    proof {
        vstd::arithmetic::power2::lemma2_to64();
        lemma_pow2_127();
        lemma_pow2_pos(k2 as nat);
        assert(d > 0) by (nonlinear_arith)
            requires
                d == m2 as nat * pow2(k2 as nat),
                m2 > 0,
                pow2(k2 as nat) > 0,
        ;
    }
    let len: u32 = if m1 == 0 {
        0
    } else {
        bit_length(m1 as u128)
    };
    proof {
        if m1 != 0 && len > 64 {
            lemma_pow2_at_most(64, (len - 1) as nat);
        }
    }
    let t: u32 = 126 - len;
    let f: u128 = pow2_wide(t);
    proof {
        lemma_pow2_pos(t as nat);
        lemma_pow2_adds(len as nat, t as nat);
        assert(m1 as int * f as int <= pow2(len as nat) * pow2(t as nat)) by (nonlinear_arith)
            requires
                m1 <= pow2(len as nat),
                f == pow2(t as nat),
        ;
        assert(m1 as int * f as int >= 0) by (nonlinear_arith);
        lemma_pow2_unfold(127);
        lemma_pow2_pos(126);
    }
    let a: u128 = m1 as u128 * f;
    let q: u128 = a / (m2 as u128);
    let rem: u128 = a % (m2 as u128);
    let s: i32 = k1 as i32 - k2 as i32 + l.scale as i32 - t as i32;
    proof {
        let b = m2 as nat;
        assert(a == q * b + rem && 0 <= rem < b) by (nonlinear_arith)
            requires
                q == a / (m2 as u128),
                rem == a % (m2 as u128),
                b == m2,
                m2 > 0,
        ;
        assert((q + 1) * b == q * b + b) by (nonlinear_arith);
        assert(q <= a) by (nonlinear_arith)
            requires
                a == q * b + rem,
                b >= 1,
                rem >= 0,
        ;
        if m1 != 0 {
            // a >= 2^125, so q >= 2^61
            lemma_pow2_adds((len - 1) as nat, t as nat);
            assert(a >= pow2((len - 1) as nat) * pow2(t as nat)) by (nonlinear_arith)
                requires
                    a == m1 * f,
                    m1 >= pow2((len - 1) as nat),
                    f == pow2(t as nat),
            ;
            lemma_pow2_adds(61, 64);
            if q < pow2(61) {
                assert(q * b + rem < pow2(61) * pow2(64)) by (nonlinear_arith)
                    requires
                        q + 1 <= pow2(61),
                        b <= pow2(64),
                        rem < b,
                ;
            }
            lemma_pow2_at_most((l.frac + 2) as nat, 61);
        } else {
            assert(a == 0) by (nonlinear_arith)
                requires
                    a == m1 * f,
                    m1 == 0,
            ;
            assert(q == 0 && rem == 0) by (nonlinear_arith)
                requires
                    0 == q * b + rem,
                    q >= 0,
                    rem >= 0,
                    b > 0,
            ;
        }
        let a1 = pow2(k1 as nat);
        let a2 = pow2(k2 as nat);
        let sc = pow2(l.scale as nat);
        if s >= 0 {
            let p = pow2(s as nat);
            // t + s + k2 == k1 + scale
            lemma_pow2_adds(t as nat, s as nat);
            lemma_pow2_adds((t + s) as nat, k2 as nat);
            lemma_pow2_adds(k1 as nat, l.scale as nat);
            assert((a * p) * d == (m1 * b) * ((f * p) * a2)) by (nonlinear_arith)
                requires
                    a == m1 * f,
                    d == b * a2,
            ;
            assert(n * b == (m1 * b) * (a1 * sc)) by (nonlinear_arith)
                requires
                    n == (m1 as nat * a1) * sc,
            ;
        } else {
            let p = pow2((-s) as nat);
            // t + k2 == k1 + scale - s
            lemma_pow2_adds(t as nat, k2 as nat);
            lemma_pow2_adds(k1 as nat, l.scale as nat);
            lemma_pow2_adds((k1 + l.scale) as nat, (-s) as nat);
            assert(a * d == (m1 * b) * (f * a2)) by (nonlinear_arith)
                requires
                    a == m1 * f,
                    d == b * a2,
            ;
            assert(n * (b * p) == (m1 * b) * ((a1 * sc) * p)) by (nonlinear_arith)
                requires
                    n == (m1 as nat * a1) * sc,
            ;
        }
    }
    round_bits(
        l,
        neg,
        q,
        rem != 0,
        s,
        Ghost(a as nat),
        Ghost(m2 as nat),
        Ghost(n),
        Ghost(d),
    )
}

/// The number nearest to the fraction `v / w`.
pub fn ratio_bits(l: Layout, neg: bool, v: u64, w: u64) -> (r: u64)
    requires
        l.valid(),
        w > 0,
    ensures
        r < 2 * l.sign,
        decode(l.format(), r as nat) == rounded(
            l.format(),
            neg,
            v as nat * pow2(l.scale as nat),
            w as nat,
        ),
{
    proof {
        vstd::arithmetic::power2::lemma2_to64();
        assert(v as nat * 1 == v && w as nat * 1 == w);
    }
    div_finite(
        l,
        neg,
        v,
        0,
        w,
        0,
        Ghost(v as nat * pow2(l.scale as nat)),
        Ghost(w as nat),
    )
}

/// The sum of two finite numbers whose exponents are far apart: the smaller one only decides
/// how the larger one is nudged before rounding.
fn add_far(l: Layout, n1: bool, m1: u64, k1: u32, n2: bool, m2: u64, k2: u32) -> (r: u64)
    requires
        l.valid(),
        l.unit <= m1 < 2 * l.unit,
        m2 < 2 * l.unit,
        k1 < l.top,
        k1 > k2 + 70,
    ensures
        r < 2 * l.sign,
        decode(l.format(), r as nat) == ({
            let v = signed(n1, m1 as nat * pow2(k1 as nat)) + signed(
                n2,
                m2 as nat * pow2(k2 as nat),
            );
            rounded(l.format(), v < 0, magnitude_of(v), 1)
        }),
        signed(n1, m1 as nat * pow2(k1 as nat)) + signed(n2, m2 as nat * pow2(k2 as nat)) != 0,
{
    proof {
        lemma_fits(l, m1);
        lemma_fits(l, m2);
        lemma_pow2_127();
        vstd::arithmetic::power2::lemma2_to64_rest();
        lemma_pow2_adds(53, 70);
        lemma_pow2_adds(57, 70);
        lemma_pow2_adds(4, 53);
        vstd::arithmetic::power2::lemma2_to64();
    }
    let f: u128 = pow2_wide(70);
    proof {
        assert(m1 as int * f as int <= pow2(53) * pow2(70)) by (nonlinear_arith)
            requires
                m1 < pow2(53),
                f == pow2(70),
        ;
        assert(m1 as int * f as int >= 0) by (nonlinear_arith);
    }
    let big: u128 = m1 as u128 * f;
    let sft: u32 = k1 - k2 - 70;
    let ghost b: nat = pow2(sft as nat);
    proof {
        lemma_pow2_pos(sft as nat);
        if sft >= 64 {
            lemma_pow2_at_most(64, sft as nat);
        }
        lemma_pow2_at_most(53, 64);
    }
    let whole: u64 = if sft >= 64 {
        0
    } else {
        (m2 as u128 / pow2_wide(sft)) as u64
    };
    let rest: u64 = if sft >= 64 {
        m2
    } else {
        (m2 as u128 % pow2_wide(sft)) as u64
    };
    proof {
        assert(m2 == whole * b + rest && 0 <= rest < b && 0 <= whole <= m2) by {
            if sft < 64 {
                assert(m2 == whole * b + rest && 0 <= rest < b && 0 <= whole <= m2) by (nonlinear_arith)
                    requires
                        whole == m2 as nat / b,
                        rest == m2 as nat % b,
                        b > 0,
                ;
            } else {
                assert(0 * b == 0) by (nonlinear_arith);
            }
        }
    }
    let s: i32 = k1 as i32 - 70;
    let sticky = rest != 0;
    let q: u128 = if n1 == n2 {
        big + whole as u128
    } else if sticky {
        proof {
            assert(big >= pow2(70)) by (nonlinear_arith)
                requires
                    big == m1 * f,
                    m1 >= 1,
                    f == pow2(70),
            ;
            lemma_pow2_pos(l.frac as nat);
            vstd::arithmetic::power2::lemma_pow2_strictly_increases(54, 70);
        }
        big - whole as u128 - 1
    } else {
        proof {
            lemma_pow2_pos(l.frac as nat);
            assert(big >= pow2(70)) by (nonlinear_arith)
                requires
                    big == m1 * f,
                    m1 >= 1,
                    f == pow2(70),
            ;
            vstd::arithmetic::power2::lemma_pow2_strictly_increases(54, 70);
        }
        big - whole as u128
    };
    let ghost a: nat = if n1 == n2 {
        big as nat * b + m2 as nat
    } else {
        (big * b - m2) as nat
    };
    let ghost v = signed(n1, m1 as nat * pow2(k1 as nat)) + signed(n2, m2 as nat * pow2(k2 as nat));
    proof {
        lemma_pow2_pos(l.frac as nat);
        let c = pow2(k2 as nat);
        lemma_pow2_pos(k2 as nat);
        assert(big >= pow2(70)) by (nonlinear_arith)
            requires
                big == m1 * f,
                m1 >= 1,
                f == pow2(70),
        ;
        vstd::arithmetic::power2::lemma_pow2_strictly_increases(54, 70);
        lemma_pow2_at_most((l.frac + 2) as nat, 54);
        vstd::arithmetic::power2::lemma_pow2_strictly_increases(53, 69);
        lemma_pow2_unfold(70);
        assert(big * b >= big) by (nonlinear_arith)
            requires
                b >= 1,
                big >= 0,
        ;
        // m1 * 2^k1 == (big * b) * 2^k2
        lemma_pow2_adds(70, sft as nat);
        lemma_pow2_adds((70 + sft) as nat, k2 as nat);
        assert(m1 as nat * pow2(k1 as nat) == (big * b) * c) by (nonlinear_arith)
            requires
                big == m1 * f,
                (f * b) * c == pow2(k1 as nat),
        ;
        let u1 = m1 as nat * pow2(k1 as nat);
        let u2 = m2 as nat * c;
        assert(u1 > u2) by (nonlinear_arith)
            requires
                u1 == (big * b) * c,
                u2 == m2 * c,
                big * b > m2,
                c > 0,
        ;
        assert(u2 >= 0) by (nonlinear_arith)
            requires
                u2 == m2 * c,
        ;
        assert(magnitude_of(v) == a * c) by (nonlinear_arith)
            requires
                u1 == (big * b) * c,
                u2 == m2 * c,
                n1 == n2 ==> magnitude_of(v) == u1 + u2 && a == big * b + m2,
                n1 != n2 ==> magnitude_of(v) == u1 - u2 && a == big * b - m2,
        ;
        assert((v < 0) == n1);
        // q * b <= a < (q + 1) * b
        if n1 == n2 {
            assert(q * b == big * b + whole * b) by (nonlinear_arith)
                requires
                    q == big + whole,
            ;
        } else if sticky {
            assert(q * b == big * b - whole * b - b) by (nonlinear_arith)
                requires
                    q == big - whole - 1,
            ;
        } else {
            assert(q * b == big * b - whole * b) by (nonlinear_arith)
                requires
                    q == big - whole,
            ;
        }
        assert((q + 1) * b == q * b + b) by (nonlinear_arith);
        // a * 2^s * 1 == (a * 2^k2) * 2^sft
        lemma_pow2_adds(k2 as nat, sft as nat);
        assert((a * c) * b == a * (c * b)) by (nonlinear_arith);
        assert((a * pow2(s as nat)) * 1 == a * pow2(s as nat)) by (nonlinear_arith);
    }
    round_bits(l, n1, q, sticky, s, Ghost(a), Ghost(b), Ghost(magnitude_of(v)), Ghost(1nat))
}

/// The sum of two finite numbers with the first exponent at least the second.
fn add_ordered(l: Layout, n1: bool, m1: u64, k1: u32, n2: bool, m2: u64, k2: u32) -> (r: u64)
    requires
        l.valid(),
        m1 < 2 * l.unit,
        m2 < 2 * l.unit,
        k2 <= k1 < l.top,
        k1 > 0 ==> m1 >= l.unit,
    ensures
        r < 2 * l.sign,
        decode(l.format(), r as nat) == sum(
            l.format(),
            Num::Fin { neg: n1, units: m1 as nat * pow2(k1 as nat) },
            Num::Fin { neg: n2, units: m2 as nat * pow2(k2 as nat) },
        ),
{
    reveal(sum);
    if k1 > k2 + 70 {
        return add_far(l, n1, m1, k1, n2, m2, k2);
    }
    let f: u128 = pow2_wide(k1 - k2);
    let ghost c = pow2(k2 as nat);
    proof {
        lemma_fits(l, m1);
        lemma_fits(l, m2);
        lemma_pow2_127();
        vstd::arithmetic::power2::lemma2_to64_rest();
        lemma_pow2_at_most((k1 - k2) as nat, 70);
        lemma_pow2_adds(53, 70);
        lemma_pow2_adds(57, 70);
        lemma_pow2_adds(4, 53);
        vstd::arithmetic::power2::lemma2_to64();
        assert(m1 as int * f as int <= pow2(53) * pow2(70)) by (nonlinear_arith)
            requires
                m1 < pow2(53),
                f <= pow2(70),
                f >= 0,
        ;
        assert(m1 as int * f as int >= 0) by (nonlinear_arith);
        lemma_pow2_pos(k2 as nat);
        lemma_pow2_adds((k1 - k2) as nat, k2 as nat);
    }
    let big: u128 = m1 as u128 * f;
    let small: u128 = m2 as u128;
    let ghost u1 = m1 as nat * pow2(k1 as nat);
    let ghost u2 = m2 as nat * c;
    let ghost v = signed(n1, u1) + signed(n2, u2);
    proof {
        assert(u1 == big * c) by (nonlinear_arith)
            requires
                u1 == m1 as nat * pow2(k1 as nat),
                big == m1 * f,
                f * c == pow2(k1 as nat),
        ;
    }
    let (q, neg): (u128, bool) = if n1 == n2 {
        (big + small, n1)
    } else if big >= small {
        (big - small, n1)
    } else {
        (small - big, n2)
    };
    proof {
        assert(magnitude_of(v) == q * c) by (nonlinear_arith)
            requires
                u1 == big * c,
                u2 == small * c,
                c > 0,
                n1 == n2 ==> q == big + small && magnitude_of(v) == u1 + u2,
                n1 != n2 && big >= small ==> q == big - small && (u1 >= u2 ==> magnitude_of(v) == u1 - u2),
                n1 != n2 && big < small ==> q == small - big && (u2 >= u1 ==> magnitude_of(v) == u2 - u1),
        ;
        if n1 != n2 && big < small {
            assert(u1 < u2) by (nonlinear_arith)
                requires
                    u1 == big * c,
                    u2 == small * c,
                    big < small,
                    c > 0,
            ;
        }
        if n1 != n2 && big > small {
            assert(u1 > u2) by (nonlinear_arith)
                requires
                    u1 == big * c,
                    u2 == small * c,
                    big > small,
                    c > 0,
            ;
        }
    }
    if q == 0 {
        proof {
            assert(0 * c == 0) by (nonlinear_arith);
        }
        return zero_bits(l, n1 && n2);
    }
    proof {
        assert(q * c > 0) by (nonlinear_arith)
            requires
                q > 0,
                c > 0,
        ;
        assert((v < 0) == neg) by {
            if n1 == n2 {
                assert(u1 >= 0 && u2 >= 0);
            }
        }
        lemma_between_exact(q as nat);
        assert((q * c) * 1 == q * c);
    }
    round_bits(
        l,
        neg,
        q,
        false,
        k2 as i32,
        Ghost(q as nat),
        Ghost(1nat),
        Ghost(magnitude_of(v)),
        Ghost(1nat),
    )
}

pub fn add_bits(l: Layout, x: u64, y: u64) -> (r: u64)
    requires
        l.valid(),
        x < 2 * l.sign,
        y < 2 * l.sign,
    ensures
        r < 2 * l.sign,
        decode(l.format(), r as nat) == sum(
            l.format(),
            decode(l.format(), x as nat),
            decode(l.format(), y as nat),
        ),
{
    reveal(sum);
    match (unpack(l, x), unpack(l, y)) {
        (Parts::Nan, _) => nan_bits(l),
        (_, Parts::Nan) => nan_bits(l),
        (Parts::Inf { neg: n1 }, Parts::Inf { neg: n2 }) => if n1 == n2 {
            inf_bits(l, n1)
        } else {
            nan_bits(l)
        },
        (Parts::Inf { neg }, Parts::Fin { .. }) => inf_bits(l, neg),
        (Parts::Fin { .. }, Parts::Inf { neg }) => inf_bits(l, neg),
        (Parts::Fin { neg: n1, m: m1, k: k1 }, Parts::Fin { neg: n2, m: m2, k: k2 }) => {
            if k1 >= k2 {
                add_ordered(l, n1, m1, k1, n2, m2, k2)
            } else {
                add_ordered(l, n2, m2, k2, n1, m1, k1)
            }
        },
    }
}

pub fn negate_bits(l: Layout, x: u64) -> (r: u64)
    requires
        l.valid(),
        x < 2 * l.sign,
    ensures
        r < 2 * l.sign,
        decode(l.format(), r as nat) == negated(decode(l.format(), x as nat)),
{
    proof {
        lemma_pow2_pos(l.frac as nat);
        assert(l.sign > 0) by (nonlinear_arith)
            requires
                l.sign == (l.top + 1) * l.unit,
                l.unit > 0,
        ;
        let s = l.sign as nat;
        let y: nat = if x >= l.sign {
            (x - l.sign) as nat
        } else {
            (x + l.sign) as nat
        };
        assert(x as nat % s == y % s) by (nonlinear_arith)
            requires
                x == y + s || y == x + s,
                x < 2 * s,
                y < 2 * s,
                s > 0,
        ;
    }
    if x >= l.sign {
        x - l.sign
    } else {
        x + l.sign
    }
}

pub fn abs_bits(l: Layout, x: u64) -> (r: u64)
    requires
        l.valid(),
        x < 2 * l.sign,
    ensures
        r < 2 * l.sign,
        decode(l.format(), r as nat) == absolute(decode(l.format(), x as nat)),
{
    proof {
        lemma_pow2_pos(l.frac as nat);
        assert(l.sign > 0) by (nonlinear_arith)
            requires
                l.sign == (l.top + 1) * l.unit,
                l.unit > 0,
        ;
        let s = l.sign as nat;
        if x >= l.sign {
            assert(x as nat % s == ((x - l.sign) as nat) % s) by (nonlinear_arith)
                requires
                    s <= x < 2 * s,
                    s == l.sign,
            ;
        }
    }
    if x >= l.sign {
        x - l.sign
    } else {
        x
    }
}

proof fn lemma_parts_order(l: Layout, m1: u64, k1: u32, m2: u64, k2: u32)
    requires
        l.valid(),
        m1 < 2 * l.unit,
        m2 < 2 * l.unit,
        k1 > 0 ==> m1 >= l.unit,
        k2 > 0 ==> m2 >= l.unit,
    ensures
        (m1 as nat * pow2(k1 as nat) < m2 as nat * pow2(k2 as nat)) == (k1 < k2 || (k1 == k2 && m1
            < m2)),
{
    let a = pow2(k1 as nat);
    let b = pow2(k2 as nat);
    lemma_pow2_pos(k1 as nat);
    lemma_pow2_pos(k2 as nat);
    if k1 < k2 {
        lemma_pow2_unfold((k1 + 1) as nat);
        lemma_pow2_at_most((k1 + 1) as nat, k2 as nat);
        assert(m1 as nat * a < m2 as nat * b) by (nonlinear_arith)
            requires
                m1 < 2 * l.unit,
                m2 >= l.unit,
                b >= 2 * a,
                a > 0,
        ;
    } else if k2 < k1 {
        lemma_pow2_unfold((k2 + 1) as nat);
        lemma_pow2_at_most((k2 + 1) as nat, k1 as nat);
        assert(m1 as nat * a >= m2 as nat * b) by (nonlinear_arith)
            requires
                m2 < 2 * l.unit,
                m1 >= l.unit,
                a >= 2 * b,
                b > 0,
        ;
    } else {
        assert((m1 as nat * a < m2 as nat * a) == (m1 < m2)) by (nonlinear_arith)
            requires
                a > 0,
        ;
    }
}

/// Whether the finite number `(n1, m1, k1)` is below `(n2, m2, k2)`.
fn finite_less(l: Layout, n1: bool, m1: u64, k1: u32, n2: bool, m2: u64, k2: u32) -> (r: bool)
    requires
        l.valid(),
        m1 < 2 * l.unit,
        m2 < 2 * l.unit,
        k1 > 0 ==> m1 >= l.unit,
        k2 > 0 ==> m2 >= l.unit,
    ensures
        r == (signed(n1, m1 as nat * pow2(k1 as nat)) < signed(n2, m2 as nat * pow2(k2 as nat))),
{
    proof {
        lemma_parts_order(l, m1, k1, m2, k2);
        lemma_parts_order(l, m2, k2, m1, k1);
        lemma_pow2_pos(k1 as nat);
        lemma_pow2_pos(k2 as nat);
        assert((m1 as nat * pow2(k1 as nat) == 0) == (m1 == 0)) by (nonlinear_arith)
            requires
                pow2(k1 as nat) > 0,
        ;
        assert((m2 as nat * pow2(k2 as nat) == 0) == (m2 == 0)) by (nonlinear_arith)
            requires
                pow2(k2 as nat) > 0,
        ;
    }
    if n1 != n2 {
        n1 && (m1 != 0 || m2 != 0)
    } else if n1 {
        k2 < k1 || (k2 == k1 && m2 < m1)
    } else {
        k1 < k2 || (k1 == k2 && m1 < m2)
    }
}

pub fn less_bits(l: Layout, x: u64, y: u64) -> (r: bool)
    requires
        l.valid(),
        x < 2 * l.sign,
        y < 2 * l.sign,
    ensures
        r == less(decode(l.format(), x as nat), decode(l.format(), y as nat)),
{
    match (unpack(l, x), unpack(l, y)) {
        (Parts::Nan, _) => false,
        (_, Parts::Nan) => false,
        (Parts::Inf { neg: n1 }, Parts::Inf { neg: n2 }) => n1 && !n2,
        (Parts::Inf { neg }, Parts::Fin { .. }) => neg,
        (Parts::Fin { .. }, Parts::Inf { neg }) => !neg,
        (Parts::Fin { neg: n1, m: m1, k: k1 }, Parts::Fin { neg: n2, m: m2, k: k2 }) => finite_less(
            l,
            n1,
            m1,
            k1,
            n2,
            m2,
            k2,
        ),
    }
}

pub fn same_bits(l: Layout, x: u64, y: u64) -> (r: bool)
    requires
        l.valid(),
        x < 2 * l.sign,
        y < 2 * l.sign,
    ensures
        r == same(decode(l.format(), x as nat), decode(l.format(), y as nat)),
{
    match (unpack(l, x), unpack(l, y)) {
        (Parts::Nan, _) => false,
        (_, Parts::Nan) => false,
        (Parts::Inf { neg: n1 }, Parts::Inf { neg: n2 }) => n1 == n2,
        (Parts::Inf { .. }, Parts::Fin { .. }) => false,
        (Parts::Fin { .. }, Parts::Inf { .. }) => false,
        (Parts::Fin { neg: n1, m: m1, k: k1 }, Parts::Fin { neg: n2, m: m2, k: k2 }) => {
            !finite_less(l, n1, m1, k1, n2, m2, k2) && !finite_less(l, n2, m2, k2, n1, m1, k1)
        },
    }
}

pub fn is_nan_bits(l: Layout, x: u64) -> (r: bool)
    requires
        l.valid(),
        x < 2 * l.sign,
    ensures
        r == decode(l.format(), x as nat) is Nan,
{
    match unpack(l, x) {
        Parts::Nan => true,
        _ => false,
    }
}

pub fn is_finite_bits(l: Layout, x: u64) -> (r: bool)
    requires
        l.valid(),
        x < 2 * l.sign,
    ensures
        r == decode(l.format(), x as nat) is Fin,
{
    match unpack(l, x) {
        Parts::Fin { .. } => true,
        _ => false,
    }
}

pub fn from_u64_bits(l: Layout, neg: bool, v: u64) -> (r: u64)
    requires
        l.valid(),
    ensures
        r < 2 * l.sign,
        decode(l.format(), r as nat) == rounded(
            l.format(),
            neg,
            v as nat * pow2(l.scale as nat),
            1,
        ),
{
    proof {
        lemma_pow2_127();
        lemma_between_exact(v as nat);
        let n = v as nat * pow2(l.scale as nat);
        assert(n * 1 == n);
    }
    round_bits(
        l,
        neg,
        v as u128,
        false,
        l.scale as i32,
        Ghost(v as nat),
        Ghost(1nat),
        Ghost(v as nat * pow2(l.scale as nat)),
        Ghost(1nat),
    )
}

/// Re-rounds a finite number of the format `from` to the format `to`, whose unit is
/// `2^shift` times larger (or, for a negative `shift`, smaller).
pub fn convert_bits(to: Layout, from: Layout, x: u64, shift: i32) -> (r: u64)
    requires
        to.valid(),
        from.valid(),
        x < 2 * from.sign,
        -1000 <= shift <= 1000,
    ensures
        r < 2 * to.sign,
        decode(to.format(), r as nat) == (match decode(from.format(), x as nat) {
            Num::Fin { neg, units } => if shift >= 0 {
                rounded(to.format(), neg, units, pow2(shift as nat))
            } else {
                rounded(to.format(), neg, units * pow2((-shift) as nat), 1)
            },
            other => other,
        }),
{
    match unpack(from, x) {
        Parts::Nan => nan_bits(to),
        Parts::Inf { neg } => inf_bits(to, neg),
        Parts::Fin { neg, m, k } => {
            let s: i32 = k as i32 - shift;
            let ghost units = m as nat * pow2(k as nat);
            let ghost n: nat = if shift >= 0 {
                units
            } else {
                units * pow2((-shift) as nat)
            };
            let ghost d: nat = if shift >= 0 {
                pow2(shift as nat)
            } else {
                1
            };
            proof {
                lemma_fits(from, m);
                vstd::arithmetic::power2::lemma_pow2_strictly_increases(53, 127);
                lemma_between_exact(m as nat);
                if shift >= 0 {
                    lemma_pow2_pos(shift as nat);
                    if s >= 0 {
                        lemma_pow2_adds(s as nat, shift as nat);
                        assert((m as nat * pow2(s as nat)) * d == m as nat * (pow2(s as nat) * d))
                            by (nonlinear_arith);
                        assert(units * 1 == units);
                    } else {
                        lemma_pow2_adds(k as nat, (-s) as nat);
                        let p = pow2((-s) as nat);
                        assert(units * (1 * p) == m as nat * (pow2(k as nat) * p)) by (nonlinear_arith)
                            requires
                                units == m as nat * pow2(k as nat),
                        ;
                    }
                } else {
                    lemma_pow2_adds(k as nat, (-shift) as nat);
                    let p = pow2((-shift) as nat);
                    assert(n == m as nat * (pow2(k as nat) * p)) by (nonlinear_arith)
                        requires
                            n == (m as nat * pow2(k as nat)) * p,
                    ;
                    assert(n * 1 == n);
                }
            }
            round_bits(to, neg, m as u128, false, s, Ghost(m as nat), Ghost(1nat), Ghost(n), Ghost(d))
        },
    }
}

pub fn truncate_bits(l: Layout, x: u64) -> (r: u64)
    requires
        l.valid(),
        x < 2 * l.sign,
    ensures
        r == truncated(l.format(), decode(l.format(), x as nat)),
{
    match unpack(l, x) {
        Parts::Nan => 0,
        Parts::Inf { neg } => if neg {
            0
        } else {
            u64::MAX
        },
        Parts::Fin { neg, m, k } => {
            if neg {
                return 0;
            }
            let ghost units = m as nat * pow2(k as nat);
            let ghost d = pow2(l.scale as nat);
            proof {
                lemma_fits(l, m);
                lemma_pow2_pos(l.scale as nat);
                lemma_pow2_pos(k as nat);
            }
            if k >= l.scale {
                let e: u32 = k - l.scale;
                proof {
                    lemma_pow2_adds(e as nat, l.scale as nat);
                    let p = pow2(e as nat);
                    assert(units == (m as nat * p) * d) by (nonlinear_arith)
                        requires
                            units == m as nat * pow2(k as nat),
                            p * d == pow2(k as nat),
                    ;
                    assert(units / d == m as nat * p) by (nonlinear_arith)
                        requires
                            units == (m as nat * p) * d,
                            d > 0,
                    ;
                }
                if e >= 64 {
                    proof {
                        if m != 0 {
                            lemma_pow2_at_most(64, e as nat);
                            vstd::arithmetic::power2::lemma2_to64();
                            let p = pow2(e as nat);
                            assert(m as nat * p >= p) by (nonlinear_arith)
                                requires
                                    m >= 1,
                            ;
                        } else {
                            assert(k > 0);
                            lemma_pow2_pos(l.frac as nat);
                        }
                    }
                    return u64::MAX;
                }
                let f: u128 = pow2_wide(e);
                proof {
                    lemma_pow2_at_most(e as nat, 64);
                    lemma_pow2_adds(53, 64);
                    lemma_pow2_at_most(117, 127);
                    lemma_pow2_127();
                    assert(m as int * f as int <= pow2(53) * pow2(64)) by (nonlinear_arith)
                        requires
                            m < pow2(53),
                            0 <= f <= pow2(64),
                    ;
                    assert(m as int * f as int >= 0) by (nonlinear_arith);
                }
                let v: u128 = m as u128 * f;
                if v >= u64::MAX as u128 {
                    u64::MAX
                } else {
                    v as u64
                }
            } else {
                let e: u32 = l.scale - k;
                proof {
                    lemma_pow2_adds(k as nat, e as nat);
                    lemma_pow2_pos(e as nat);
                    let p = pow2(e as nat);
                    let c = pow2(k as nat);
                    vstd::arithmetic::div_mod::lemma_div_denominator(
                        units as int,
                        c as int,
                        p as int,
                    );
                    vstd::arithmetic::div_mod::lemma_div_by_multiple(m as int, c as int);
                }
                if e >= 64 {
                    proof {
                        lemma_pow2_at_most(53, e as nat);
                        assert(m as nat / pow2(e as nat) == 0) by (nonlinear_arith)
                            requires
                                m < pow2(e as nat),
                        ;
                    }
                    return 0;
                }
                let f: u128 = pow2_wide(e);
                proof {
                    assert(m as nat / pow2(e as nat) <= m) by (nonlinear_arith)
                        requires
                            pow2(e as nat) > 0,
                    ;
                }
                (m as u128 / f) as u64
            }
        },
    }
}

} // verus!
