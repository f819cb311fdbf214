//! Laws of the arithmetic.

use super::double::{double_int, Double};
use super::model::{
    absolute, at_most, decode, difference, double_format, less, magnitude_of, magnitude_units,
    narrowed, negated, product, quotient, rounded, same, signed, single_format, sum, truncated,
    with_magnitude, zero, Format, Num,
};
use super::round::{
    grid, least, lemma_grid_at, lemma_grid_equal, lemma_grid_monotone, nearest,
};
use super::single::single_ratio;
use vstd::arithmetic::power2::{
    lemma_pow2_adds, lemma_pow2_pos, lemma_pow2_strictly_increases, lemma_pow2_unfold, pow2,
};
use vstd::prelude::*;

verus! {

/// Sums and products do not depend on the order of their operands.
pub proof fn law_commutative(f: Format, x: Num, y: Num)
    ensures
        sum(f, x, y) == sum(f, y, x),
        product(f, x, y) == product(f, y, x),
{
    reveal(sum);
    reveal(product);
    if let (Num::Fin { neg: n1, units: u1 }, Num::Fin { neg: n2, units: u2 }) = (x, y) {
        assert(u1 * u2 == u2 * u1) by (nonlinear_arith);
    }
}

/// A finite number less itself is zero.
pub proof fn law_difference_with_itself(f: Format, x: Num)
    requires
        x is Fin,
    ensures
        same(difference(f, x, x), zero()),
        difference(f, x, x) == zero(),
{
    reveal(sum);
}

/// Of two numbers neither of which is a not-a-number, one is less or they are the same.
pub proof fn law_order_is_total(x: Num, y: Num)
    requires
        !(x is Nan),
        !(y is Nan),
    ensures
        less(x, y) || less(y, x) || same(x, y),
        !(less(x, y) && less(y, x)),
        less(x, y) ==> !same(x, y),
{
}

/// The order is transitive.
pub proof fn law_order_is_transitive(x: Num, y: Num, z: Num)
    requires
        less(x, y),
        at_most(y, z),
    ensures
        less(x, z),
{
}

/// Rounding leaves a representable number what it is.
pub proof fn law_representable_is_kept(f: Format, neg: bool, mag: nat)
    requires
        mag < f.top * pow2(f.frac),
    ensures
        rounded(f, neg, magnitude_units(f.frac, mag), 1) == with_magnitude(f, neg, mag),
{
    let p = pow2(f.frac);
    lemma_pow2_pos(f.frac);
    lemma_pow2_unfold(f.frac + 1);
    if mag < p {
        assert(grid(f.frac, mag, 1) == nearest(mag, 1));
    } else {
        let e = mag / p;
        let m = mag % p;
        assert(mag == e * p + m && 0 <= m < p) by (nonlinear_arith)
            requires
                e == mag / p,
                m == mag % p,
                p > 0,
        ;
        assert(e >= 1) by (nonlinear_arith)
            requires
                e * p + m >= p,
                m < p,
                p > 0,
        ;
        let k = (e - 1) as nat;
        let q = pow2(k);
        lemma_pow2_pos(k);
        let n = (m + p) * q;
        lemma_pow2_adds(f.frac, k);
        lemma_pow2_adds(f.frac + 1, k);
        assert(p * q <= n < (2 * p) * q) by (nonlinear_arith)
            requires
                n == (m + p) * q,
                0 <= m < p,
                q > 0,
        ;
        lemma_grid_at(f.frac, n, 1, k);
        assert(n / q == m + p && n % q == 0) by {
            vstd::arithmetic::div_mod::lemma_div_multiples_vanish((m + p) as int, q as int);
            vstd::arithmetic::div_mod::lemma_mod_multiples_basic((m + p) as int, q as int);
            assert((m + p) * q == q * (m + p)) by (nonlinear_arith);
        }
        assert(nearest(n, 1 * q) == m + p);
        assert(k * p + (m + p) == mag) by (nonlinear_arith)
            requires
                mag == e * p + m,
                k == e - 1,
        ;
    }
}

/// Values below `2^(frac + 1 + k)` units round to magnitudes of at most `(k + 2) * 2^frac`.
proof fn lemma_grid_bound(frac: nat, n: nat, d: nat, k: nat)
    requires
        d > 0,
        n < d * pow2(frac + 1 + k),
    ensures
        grid(frac, n, d) <= (k + 2) * pow2(frac),
    decreases k,
{
    let p = pow2(frac);
    lemma_pow2_pos(frac);
    lemma_pow2_unfold(frac + 1);
    if n < d * pow2(frac + 1) {
        let q = n / d;
        assert(q < 2 * p) by (nonlinear_arith)
            requires
                q == n / d,
                d > 0,
                n < d * (2 * p),
        ;
        assert(nearest(n, d) <= 2 * p) by {
            if q + 1 == 2 * p {
                assert(q % 2 == 1);
            }
        }
        assert(2 * p <= (k + 2) * p) by (nonlinear_arith)
            requires
                p > 0,
        ;
    } else {
        let j = (k - 1) as nat;
        if k == 0 {
            assert(false);
        }
        lemma_pow2_unfold(frac + 1 + k);
        assert((frac + 1 + k - 1) as nat == frac + 1 + j);
        assert(d * (2 * pow2(frac + 1 + j)) == (2 * d) * pow2(frac + 1 + j)) by (nonlinear_arith);
        lemma_grid_bound(frac, n, 2 * d, j);
        assert(p + (j + 2) * p == (k + 2) * p) by (nonlinear_arith)
            requires
                k == j + 1,
        ;
    }
}

/// A ratio below one is finite and not negative in single precision.
pub proof fn lemma_ratio_is_finite(v: nat, w: nat)
    requires
        v < w,
    ensures
        single_ratio(v, w) is Fin,
        at_most(zero(), single_ratio(v, w)),
{
    reveal(single_ratio);
    vstd::arithmetic::power2::lemma2_to64();
    lemma_pow2_pos(149);
    assert(v * pow2(149) < w * pow2(149)) by (nonlinear_arith)
        requires
            v < w,
            pow2(149) > 0,
    ;
    lemma_grid_bound(23, v * pow2(149), w, 125);
    assert(127 * pow2(23) < 255 * pow2(23));
}

proof fn lemma_units_monotone(frac: nat, m1: nat, m2: nat)
    requires
        m1 <= m2,
    ensures
        magnitude_units(frac, m1) <= magnitude_units(frac, m2),
{
    let p = pow2(frac);
    lemma_pow2_pos(frac);
    if m2 >= p {
        let e2 = m2 / p;
        let r2 = m2 % p;
        vstd::arithmetic::div_mod::lemma_fundamental_div_mod(m2 as int, p as int);
        assert(e2 >= 1) by (nonlinear_arith)
            requires
                m2 >= p,
                e2 == m2 / p,
                p > 0,
        ;
        let q2 = pow2((e2 - 1) as nat);
        lemma_pow2_pos((e2 - 1) as nat);
        assert((r2 + p) * q2 >= p * q2 && p * q2 >= p) by (nonlinear_arith)
            requires
                q2 >= 1,
                p > 0,
                r2 >= 0,
        ;
        if m1 >= p {
            let e1 = m1 / p;
            let r1 = m1 % p;
            vstd::arithmetic::div_mod::lemma_fundamental_div_mod(m1 as int, p as int);
            assert(1 <= e1 <= e2) by (nonlinear_arith)
                requires
                    p <= m1 <= m2,
                    e1 == m1 / p,
                    e2 == m2 / p,
                    p > 0,
            ;
            let q1 = pow2((e1 - 1) as nat);
            if e1 == e2 {
                assert((r1 + p) * q1 <= (r2 + p) * q1) by (nonlinear_arith)
                    requires
                        r1 <= r2,
                        q1 >= 0,
                ;
            } else {
                lemma_pow2_unfold(e1);
                assert(pow2(e1) <= q2) by {
                    if e1 < e2 - 1 {
                        lemma_pow2_strictly_increases(e1, (e2 - 1) as nat);
                    }
                }
                assert((r1 + p) * q1 <= p * q2) by (nonlinear_arith)
                    requires
                        0 <= r1 < p,
                        2 * q1 <= q2,
                        q1 >= 0,
                ;
            }
        }
    }
}

/// Rounding keeps the order: of two fractions the smaller one has no more units after it.
pub proof fn law_rounding_is_monotone(f: Format, n1: nat, d1: nat, n2: nat, d2: nat)
    requires
        d1 > 0,
        d2 > 0,
        n1 * d2 <= n2 * d1,
    ensures
        at_most(rounded(f, false, n1, d1), rounded(f, false, n2, d2)),
        rounded(f, false, n2, d2) is Fin ==> rounded(f, false, n1, d1) is Fin,
{
    lemma_grid_monotone(f.frac, n1, d1, n2, d2);
    let top = f.top * pow2(f.frac);
    lemma_units_monotone(
        f.frac,
        least(grid(f.frac, n1, d1), top),
        least(grid(f.frac, n2, d2), top),
    );
}

/// A power of two within the range is exact.
pub proof fn lemma_power_is_exact(f: Format, neg: bool, k: nat)
    requires
        k + 1 < f.top,
    ensures
        rounded(f, neg, pow2(f.frac + k), 1) == (Num::Fin { neg, units: pow2(f.frac + k) }),
{
    let p = pow2(f.frac);
    lemma_pow2_pos(f.frac);
    lemma_pow2_adds(f.frac, k);
    let mag = (k + 1) * p;
    assert(mag < f.top * p && mag >= p) by (nonlinear_arith)
        requires
            mag == (k + 1) * p,
            k + 1 < f.top,
            p > 0,
    ;
    vstd::arithmetic::div_mod::lemma_div_multiples_vanish((k + 1) as int, p as int);
    vstd::arithmetic::div_mod::lemma_mod_multiples_basic((k + 1) as int, p as int);
    assert(mag == p * (k + 1)) by (nonlinear_arith)
        requires
            mag == (k + 1) * p,
    ;
    assert(magnitude_units(f.frac, mag) == (0 + p) * pow2(k));
    law_representable_is_kept(f, neg, mag);
}

/// Zero over anything but zero is zero.
pub proof fn lemma_zero_is_kept(f: Format, neg: bool, d: nat)
    requires
        d > 0,
        f.top > 0,
    ensures
        rounded(f, neg, 0, d) == (Num::Fin { neg, units: 0 }),
{
    lemma_pow2_pos(f.frac);
    lemma_pow2_pos(f.frac + 1);
    assert(0 < d * pow2(f.frac + 1) && 0 < f.top * pow2(f.frac)) by (nonlinear_arith)
        requires
            d > 0,
            f.top > 0,
            pow2(f.frac) > 0,
            pow2(f.frac + 1) > 0,
    ;
    assert(0nat / d == 0 && 0nat % d == 0) by (nonlinear_arith)
        requires
            d > 0,
    ;
}

/// The magnitude of a quotient of a number by one of no smaller magnitude is at most one, also
/// after rounding to single precision.
pub proof fn lemma_fraction_is_at_most_one(x: Num, y: Num)
    requires
        y matches Num::Fin { units, .. } && units > 0,
        at_most(absolute(x), absolute(y)),
    ensures
        at_most(absolute(narrowed(quotient(double_format(), x, y))), single_ratio(1, 1)),
{
    reveal(quotient);
    reveal(narrowed);
    reveal(single_ratio);
    let f = double_format();
    let g = single_format();
    let (n1, u1) = (x->Fin_neg, x->Fin_units);
    let (n2, u2) = (y->Fin_neg, y->Fin_units);
    lemma_power_is_exact(f, false, 1022);
    lemma_power_is_exact(g, false, 126);
    assert(1 * pow2(149) == pow2(149));
    assert((u1 * pow2(1074)) * 1 <= pow2(1074) * u2) by (nonlinear_arith)
        requires
            u1 <= u2,
            pow2(1074) >= 0,
    ;
    law_rounding_is_monotone(f, u1 * pow2(1074), u2, pow2(1074), 1);
    let q = rounded(f, n1 != n2, u1 * pow2(1074), u2);
    assert(q is Fin && q->Fin_units <= pow2(1074));
    let u = q->Fin_units;
    lemma_pow2_adds(149, 925);
    lemma_pow2_pos(925);
    assert(u * 1 <= pow2(149) * pow2(925));
    law_rounding_is_monotone(g, u, pow2(925), pow2(149), 1);
}

/// Rounding keeps the order of signed fractions.
pub proof fn law_signed_rounding_is_monotone(
    f: Format,
    neg1: bool,
    n1: nat,
    d1: nat,
    neg2: bool,
    n2: nat,
    d2: nat,
)
    requires
        d1 > 0,
        d2 > 0,
        f.top > 0,
        signed(neg1, n1) * d2 <= signed(neg2, n2) * d1,
    ensures
        at_most(rounded(f, neg1, n1, d1), rounded(f, neg2, n2, d2)),
{
    lemma_rounded_is_symmetric(f, n1, d1);
    lemma_rounded_is_symmetric(f, n2, d2);
    if !neg1 && !neg2 {
        law_rounding_is_monotone(f, n1, d1, n2, d2);
    } else if neg1 && neg2 {
        assert(n2 * d1 <= n1 * d2) by (nonlinear_arith)
            requires
                -n1 * d2 <= -n2 * d1,
        ;
        law_rounding_is_monotone(f, n2, d2, n1, d1);
    } else if !neg1 && neg2 {
        assert(n1 == 0 && n2 == 0) by (nonlinear_arith)
            requires
                n1 * d2 <= -n2 * d1,
                d1 > 0,
                d2 > 0,
                n1 >= 0,
                n2 >= 0,
        ;
        lemma_zero_is_kept(f, neg1, d1);
        lemma_zero_is_kept(f, neg2, d2);
    }
}

/// Rounding treats both signs alike, and never gives a not-a-number.
proof fn lemma_rounded_is_symmetric(f: Format, n: nat, d: nat)
    ensures
        rounded(f, true, n, d) == negated(rounded(f, false, n, d)),
        !(rounded(f, false, n, d) is Nan),
        rounded(f, false, n, d) matches Num::Fin { neg, .. } ==> !neg,
        rounded(f, false, n, d) matches Num::Inf { neg } ==> !neg,
{
}

/// The sum of two finite numbers is their exact sum, rounded.
proof fn lemma_sum_is_rounded(f: Format, x: Num, y: Num)
    requires
        x is Fin,
        y is Fin,
        f.top > 0,
    ensures
        ({
            let v = signed(x->Fin_neg, x->Fin_units) + signed(y->Fin_neg, y->Fin_units);
            same(sum(f, x, y), rounded(f, v < 0, magnitude_of(v), 1))
        }),
{
    reveal(sum);
    let v = signed(x->Fin_neg, x->Fin_units) + signed(y->Fin_neg, y->Fin_units);
    if v == 0 {
        lemma_zero_is_kept(f, false, 1);
    }
    lemma_rounded_is_symmetric(f, magnitude_of(v), 1);
}

/// A larger term never makes a smaller sum.
pub proof fn law_sum_is_monotone(f: Format, x: Num, y: Num, z: Num)
    requires
        f.top > 0,
        at_most(y, z),
    ensures
        !less(sum(f, x, z), sum(f, x, y)),
{
    reveal(sum);
    if x is Fin && y is Fin && z is Fin {
        lemma_sum_is_rounded(f, x, y);
        lemma_sum_is_rounded(f, x, z);
        let v = signed(x->Fin_neg, x->Fin_units) + signed(y->Fin_neg, y->Fin_units);
        let w = signed(x->Fin_neg, x->Fin_units) + signed(z->Fin_neg, z->Fin_units);
        law_signed_rounding_is_monotone(f, v < 0, magnitude_of(v), 1, w < 0, magnitude_of(w), 1);
    }
}

/// Taking away more never leaves more, and from more never leaves less.
pub proof fn law_difference_is_monotone(f: Format, x: Num, y: Num, z: Num)
    requires
        f.top > 0,
        at_most(y, z),
    ensures
        !less(difference(f, x, y), difference(f, x, z)),
        !less(difference(f, z, x), difference(f, y, x)),
{
    law_sum_is_monotone(f, x, negated(z), negated(y));
    law_sum_is_monotone(f, negated(x), y, z);
    law_commutative(f, negated(x), y);
    law_commutative(f, negated(x), z);
}

/// The sign of a difference tells which number is the larger one.
pub proof fn law_difference_tells_the_larger(f: Format, x: Num, y: Num)
    requires
        f.top > 0,
    ensures
        at_most(x, y) ==> !less(zero(), difference(f, x, y)),
        at_most(y, x) ==> !less(difference(f, x, y), zero()),
{
    reveal(sum);
    if x is Fin && y is Fin {
        let v = signed(x->Fin_neg, x->Fin_units) - signed(y->Fin_neg, y->Fin_units);
        lemma_rounded_is_symmetric(f, magnitude_of(v), 1);
    }
}

/// Of two factors with the same sign the product is not negative, of two with different signs it
/// is not positive.
pub proof fn law_product_has_sign(f: Format, x: Num, y: Num)
    requires
        f.top > 0,
    ensures
        at_most(zero(), x) && at_most(zero(), y) ==> !less(product(f, x, y), zero()),
        at_most(x, zero()) && at_most(zero(), y) ==> !less(zero(), product(f, x, y)),
{
    reveal(product);
    if x is Fin && y is Fin {
        let (u, v) = (x->Fin_units, y->Fin_units);
        lemma_pow2_pos(f.scale);
        lemma_rounded_is_symmetric(f, u * v, pow2(f.scale));
        if u == 0 || v == 0 {
            assert(u * v == 0) by (nonlinear_arith)
                requires
                    u == 0 || v == 0,
            ;
            lemma_zero_is_kept(f, false, pow2(f.scale));
            lemma_zero_is_kept(f, true, pow2(f.scale));
        }
    }
}

proof fn lemma_signed_scales(neg1: bool, u1: nat, neg2: bool, u2: nat, a: nat, b: nat)
    requires
        signed(neg1, u1) <= signed(neg2, u2),
    ensures
        signed(neg1, u1 * a) * b <= signed(neg2, u2 * a) * b,
{
    let (x, y) = (signed(neg1, u1), signed(neg2, u2));
    assert(signed(neg1, u1 * a) == x * a) by (nonlinear_arith)
        requires
            x == signed(neg1, u1),
    ;
    assert(signed(neg2, u2 * a) == y * a) by (nonlinear_arith)
        requires
            y == signed(neg2, u2),
    ;
    assert(x * a <= y * a) by (nonlinear_arith)
        requires
            x <= y,
            a >= 0,
    ;
    assert((x * a) * b <= (y * a) * b) by (nonlinear_arith)
        requires
            x * a <= y * a,
            b >= 0,
    ;
}

/// With a factor that is not negative, a larger number never gives a smaller product.
pub proof fn law_product_is_monotone(f: Format, x: Num, y: Num, factor: Num)
    requires
        f.top > 0,
        at_most(x, y),
        at_most(zero(), factor),
    ensures
        !less(product(f, y, factor), product(f, x, factor)),
{
    reveal(product);
    if x is Fin && y is Fin && factor is Fin {
        let (n1, u1) = (x->Fin_neg, x->Fin_units);
        let (n2, u2) = (y->Fin_neg, y->Fin_units);
        let (n, u) = (factor->Fin_neg, factor->Fin_units);
        let d = pow2(f.scale);
        lemma_pow2_pos(f.scale);
        if u == 0 {
            assert(u1 * u == 0 && u2 * u == 0) by (nonlinear_arith)
                requires
                    u == 0,
            ;
            lemma_zero_is_kept(f, false, d);
            lemma_zero_is_kept(f, true, d);
        } else {
            lemma_signed_scales(n1, u1, n2, u2, u, d);
            law_signed_rounding_is_monotone(f, n1, u1 * u, d, n2, u2 * u, d);
        }
    }
}

/// Over a positive number, a larger number never gives a smaller quotient.
pub proof fn law_quotient_is_monotone(f: Format, x: Num, y: Num, divisor: Num)
    requires
        f.top > 0,
        at_most(x, y),
        less(zero(), divisor),
    ensures
        !less(quotient(f, y, divisor), quotient(f, x, divisor)),
{
    reveal(quotient);
    if x is Fin && y is Fin && divisor is Fin {
        let (n1, u1) = (x->Fin_neg, x->Fin_units);
        let (n2, u2) = (y->Fin_neg, y->Fin_units);
        let u = divisor->Fin_units;
        let p = pow2(f.scale);
        lemma_signed_scales(n1, u1, n2, u2, p, u);
        law_signed_rounding_is_monotone(f, n1, u1 * p, u, n2, u2 * p, u);
    }
}

/// A number of the format, as opposed to one between two of them.
pub open spec fn representable(f: Format, x: Num) -> bool {
    x is Fin ==> exists|neg: bool, mag: nat|
        mag < f.top * pow2(f.frac) && x == #[trigger] with_magnitude(f, neg, mag)
}

/// What a double-precision bit pattern stands for is a number of the format.
pub proof fn law_doubles_are_representable(x: Double)
    ensures
        representable(double_format(), x@),
{
    let f = double_format();
    let b = x.spec_bits() as nat;
    x.lemma_decoded();
    lemma_decoded_is_representable(f, b);
}

proof fn lemma_decoded_is_representable(f: Format, b: nat)
    ensures
        representable(f, decode(f, b)),
{
    let sign = (f.top + 1) * pow2(f.frac);
    let neg: bool = b >= sign;
    let mag: nat = (b % sign) as nat;
    lemma_pow2_pos(f.frac);
    assert(sign > 0) by (nonlinear_arith)
        requires
            sign == (f.top + 1) * pow2(f.frac),
            pow2(f.frac) > 0,
    ;
    assert(decode(f, b) == with_magnitude(f, neg, mag));
    if decode(f, b) is Fin {
        assert(mag < f.top * pow2(f.frac));
    }
}

/// What comes out of rounding is a number of the format.
pub proof fn law_rounded_is_representable(f: Format, neg: bool, n: nat, d: nat)
    ensures
        representable(f, rounded(f, neg, n, d)),
{
    let mag = least(grid(f.frac, n, d), f.top * pow2(f.frac));
    assert(rounded(f, neg, n, d) == with_magnitude(f, neg, mag));
}

/// A sum is a number of the format where its terms are.
pub proof fn law_sum_is_representable(f: Format, x: Num, y: Num)
    requires
        f.top > 0,
        representable(f, x),
        representable(f, y),
    ensures
        representable(f, sum(f, x, y)),
{
    reveal(sum);
    if x is Fin && y is Fin {
        let v = signed(x->Fin_neg, x->Fin_units) + signed(y->Fin_neg, y->Fin_units);
        law_rounded_is_representable(f, v < 0, magnitude_of(v), 1);
        lemma_zero_is_kept(f, x->Fin_neg && y->Fin_neg, 1);
        law_rounded_is_representable(f, x->Fin_neg && y->Fin_neg, 0, 1);
    }
}

/// A product is a number of the format.
pub proof fn law_product_is_representable(f: Format, x: Num, y: Num)
    ensures
        representable(f, product(f, x, y)),
{
    reveal(product);
    if x is Fin && y is Fin {
        law_rounded_is_representable(
            f,
            x->Fin_neg != y->Fin_neg,
            x->Fin_units * y->Fin_units,
            pow2(f.scale),
        );
    }
}

/// Rounding leaves a number of the format what it is.
proof fn lemma_kept(f: Format, x: Num)
    requires
        representable(f, x),
        x is Fin,
    ensures
        rounded(f, x->Fin_neg, x->Fin_units, 1) == x,
{
    let (neg, mag) = choose|neg: bool, mag: nat|
        mag < f.top * pow2(f.frac) && x == #[trigger] with_magnitude(f, neg, mag);
    law_representable_is_kept(f, neg, mag);
}

/// Adding or taking away nothing changes nothing.
pub proof fn law_zero_is_neutral(f: Format, x: Num)
    requires
        f.top > 0,
        representable(f, x),
        !(x is Nan),
    ensures
        same(sum(f, x, zero()), x),
        same(sum(f, zero(), x), x),
        same(difference(f, x, zero()), x),
{
    reveal(sum);
    if x is Fin {
        lemma_kept(f, x);
    }
}

/// What is not negative never makes a sum smaller, and taking it away never makes a number
/// larger.
pub proof fn law_sum_grows(f: Format, x: Num, y: Num)
    requires
        f.top > 0,
        representable(f, x),
        at_most(zero(), y),
    ensures
        !less(sum(f, x, y), x),
        !less(x, difference(f, x, y)),
{
    if !(x is Nan) {
        law_zero_is_neutral(f, x);
        law_sum_is_monotone(f, x, zero(), y);
        law_difference_is_monotone(f, x, zero(), y);
    } else {
        reveal(sum);
    }
}

/// What is not positive never makes a sum larger.
pub proof fn law_sum_shrinks(f: Format, x: Num, y: Num)
    requires
        f.top > 0,
        representable(f, x),
        at_most(y, zero()),
    ensures
        !less(x, sum(f, x, y)),
{
    if !(x is Nan) {
        law_zero_is_neutral(f, x);
        law_sum_is_monotone(f, x, y, zero());
    } else {
        reveal(sum);
    }
}

/// One is exact.
pub proof fn law_one_is_exact()
    ensures
        double_int(1) == (Num::Fin { neg: false, units: pow2(1074) }),
        less(zero(), double_int(1)),
{
    reveal(double_int);
    lemma_power_is_exact(double_format(), false, 1022);
    lemma_pow2_pos(1074);
    assert(1 * pow2(1074) == pow2(1074));
}

/// Multiplying with one changes nothing.
pub proof fn law_one_is_neutral(x: Num)
    requires
        representable(double_format(), x),
        !(x is Nan),
    ensures
        product(double_format(), x, double_int(1)) == x,
{
    reveal(product);
    law_one_is_exact();
    lemma_pow2_pos(1074);
    if x is Fin {
        let f = double_format();
        let (neg, u) = (x->Fin_neg, x->Fin_units);
        lemma_kept(f, x);
        lemma_grid_equal(f.frac, u * pow2(1074), pow2(1074), u, 1);
        assert((u * pow2(1074)) * 1 == u * pow2(1074));
    }
}

/// A factor of at least one never makes a number that is not negative smaller, and one of at most
/// one never makes it larger.
pub proof fn law_factor_beside_one(x: Num, factor: Num)
    requires
        representable(double_format(), x),
        at_most(zero(), x),
    ensures
        at_most(double_int(1), factor) ==> !less(product(double_format(), x, factor), x),
        at_most(factor, double_int(1)) ==> !less(x, product(double_format(), x, factor)),
{
    let f = double_format();
    let one = double_int(1);
    law_one_is_neutral(x);
    law_commutative(f, x, factor);
    law_commutative(f, x, one);
    if at_most(one, factor) {
        law_product_is_monotone(f, one, factor, x);
    }
    if at_most(factor, one) {
        law_product_is_monotone(f, factor, one, x);
    }
}

/// The middle of two numbers lies between them.
pub proof fn law_middle_lies_between(x: Num, y: Num)
    requires
        representable(double_format(), x),
        representable(double_format(), y),
        at_most(x, y),
        sum(double_format(), x, x) is Fin,
        sum(double_format(), y, y) is Fin,
    ensures
        ({
            let f = double_format();
            let mid = quotient(f, sum(f, x, y), double_int(2));
            !less(mid, x) && !less(y, mid)
        }),
{
    let f = double_format();
    law_sum_is_monotone(f, x, x, y);
    law_sum_is_monotone(f, y, x, y);
    law_commutative(f, x, y);
    assert(x is Fin && y is Fin) by {
        reveal(sum);
    }
    lemma_half_of_double(x);
    lemma_half_of_double(y);
    lemma_two_is_exact();
    reveal(sum);
    let s = sum(f, x, y);
    let v = signed(x->Fin_neg, x->Fin_units) + signed(y->Fin_neg, y->Fin_units);
    lemma_rounded_is_symmetric(f, magnitude_of(v), 1);
    assert(!(s is Nan));
    assert(at_most(sum(f, x, x), s) && at_most(s, sum(f, y, y)));
    law_quotient_is_monotone(f, sum(f, x, x), s, double_int(2));
    law_quotient_is_monotone(f, s, sum(f, y, y), double_int(2));
}

proof fn lemma_two_is_exact()
    ensures
        double_int(2) == (Num::Fin { neg: false, units: 2 * pow2(1074) }),
        less(zero(), double_int(2)),
{
    reveal(double_int);
    lemma_power_is_exact(double_format(), false, 1023);
    lemma_pow2_unfold(1075);
    lemma_pow2_pos(1074);
}

/// Twice a number is exact, and half of that is the number.
proof fn lemma_half_of_double(x: Num)
    requires
        representable(double_format(), x),
        x is Fin,
        sum(double_format(), x, x) is Fin,
    ensures
        same(quotient(double_format(), sum(double_format(), x, x), double_int(2)), x),
{
    reveal(sum);
    reveal(quotient);
    let f = double_format();
    let p = pow2(f.frac);
    lemma_two_is_exact();
    lemma_pow2_pos(f.frac);
    lemma_pow2_pos(1074);
    let (neg, mag) = choose|neg: bool, mag: nat|
        mag < f.top * pow2(f.frac) && x == #[trigger] with_magnitude(f, neg, mag);
    let u = x->Fin_units;
    if u == 0 {
        lemma_zero_is_kept(f, x->Fin_neg, 2 * pow2(1074));
        assert(0 * pow2(1074) == 0);
    } else {
        let twice = double_magnitude(f.frac, mag);
        lemma_double_magnitude(f.frac, mag);
        assert(sum(f, x, x) == rounded(f, neg, 2 * u, 1));
        if twice < f.top * p {
            law_representable_is_kept(f, neg, twice);
        } else {
            // The doubled number would be no finite one.
            lemma_double_overflows(f, mag);
        }
        assert(sum(f, x, x) == (Num::Fin { neg, units: 2 * u }));
        assert(((2 * u) * pow2(1074)) * 1 == u * (2 * pow2(1074))) by (nonlinear_arith);
        lemma_grid_equal(f.frac, (2 * u) * pow2(1074), 2 * pow2(1074), u, 1);
        lemma_kept(f, x);
    }
}

/// The magnitude bits of twice a number.
spec fn double_magnitude(frac: nat, mag: nat) -> nat {
    if mag < pow2(frac) {
        2 * mag
    } else {
        mag + pow2(frac)
    }
}

proof fn lemma_double_magnitude(frac: nat, mag: nat)
    ensures
        magnitude_units(frac, double_magnitude(frac, mag)) == 2 * magnitude_units(frac, mag),
{
    let p = pow2(frac);
    lemma_pow2_pos(frac);
    if mag < p {
        if 2 * mag >= p {
            assert((2 * mag) / p == 1 && (2 * mag) % p == 2 * mag - p) by (nonlinear_arith)
                requires
                    p <= 2 * mag < 2 * p,
                    p > 0,
            ;
            assert(pow2(0) == 1) by {
                vstd::arithmetic::power2::lemma2_to64();
            }
            let m2 = 2 * mag;
            assert((m2 / p - 1) as nat == 0);
            assert((m2 % p + p) * 1 == m2);
        }
    } else {
        let e = mag / p;
        let r = mag % p;
        vstd::arithmetic::div_mod::lemma_fundamental_div_mod(mag as int, p as int);
        vstd::arithmetic::div_mod::lemma_div_plus_one(mag as int, p as int);
        vstd::arithmetic::div_mod::lemma_mod_add_multiples_vanish(mag as int, p as int);
        assert((mag + p) / p == e + 1 && (mag + p) % p == r);
        assert(e >= 1) by (nonlinear_arith)
            requires
                mag >= p,
                e == mag / p,
                p > 0,
        ;
        lemma_pow2_unfold(e);
        let q = pow2((e - 1) as nat);
        assert((r + p) * (2 * q) == 2 * ((r + p) * q)) by (nonlinear_arith);
    }
}

proof fn lemma_double_overflows(f: Format, mag: nat)
    requires
        f.top > 1,
        mag < f.top * pow2(f.frac),
        double_magnitude(f.frac, mag) >= f.top * pow2(f.frac),
    ensures
        !(rounded(f, false, 2 * magnitude_units(f.frac, mag), 1) is Fin),
        !(rounded(f, true, 2 * magnitude_units(f.frac, mag), 1) is Fin),
{
    let p = pow2(f.frac);
    let k = (f.top - 1) as nat;
    let limit = f.top * p;
    lemma_pow2_pos(f.frac);
    assert(limit >= 2 * p) by (nonlinear_arith)
        requires
            limit == f.top * p,
            f.top > 1,
            p > 0,
    ;
    assert(mag >= p);
    let twice = double_magnitude(f.frac, mag);
    lemma_double_magnitude(f.frac, mag);
    lemma_units_monotone(f.frac, limit, twice);
    // The first power of two past the finite numbers rounds to infinity.
    lemma_pow2_adds(f.frac, k);
    vstd::arithmetic::div_mod::lemma_div_multiples_vanish(f.top as int, p as int);
    vstd::arithmetic::div_mod::lemma_mod_multiples_basic(f.top as int, p as int);
    assert(limit == p * f.top) by (nonlinear_arith)
        requires
            limit == f.top * p,
    ;
    assert(magnitude_units(f.frac, limit) == (0 + p) * pow2(k));
    lemma_pow2_pos(k);
    lemma_pow2_unfold(f.frac + 1 + k);
    assert(pow2(f.frac + k) < 1 * pow2(f.frac + 1 + k)) by {
        lemma_pow2_strictly_increases(f.frac + k, f.frac + 1 + k);
    }
    lemma_grid_at(f.frac, pow2(f.frac + k), 1, k);
    assert(nearest(p * pow2(k), 1 * pow2(k)) == p) by {
        vstd::arithmetic::div_mod::lemma_div_multiples_vanish(p as int, pow2(k) as int);
        vstd::arithmetic::div_mod::lemma_mod_multiples_basic(p as int, pow2(k) as int);
        assert(p * pow2(k) == pow2(k) * p) by (nonlinear_arith);
    }
    assert(k * p + p == limit) by (nonlinear_arith)
        requires
            limit == f.top * p,
            k == f.top - 1,
    ;
    lemma_grid_monotone(f.frac, pow2(f.frac + k), 1, 2 * magnitude_units(f.frac, mag), 1);
}

/// Truncation gives the whole part: the largest integer that is not above the number.
pub proof fn law_truncation_gives_the_whole_part(x: Num)
    requires
        x matches Num::Fin { neg, .. } && !neg,
        truncated(double_format(), x) < u64::MAX,
    ensures
        truncated(double_format(), x) * pow2(1074) <= x->Fin_units,
        x->Fin_units < (truncated(double_format(), x) + 1) * pow2(1074),
{
    lemma_pow2_pos(1074);
    let p = pow2(1074);
    let u = x->Fin_units;
    vstd::arithmetic::div_mod::lemma_fundamental_div_mod(u as int, p as int);
    let t = u / p;
    assert(t * p <= u < (t + 1) * p) by (nonlinear_arith)
        requires
            u == p * t + u % p,
            0 <= u % p < p,
    ;
}

} // verus!
