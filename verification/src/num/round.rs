//! Rounding of exact rationals to the nearest representable binary floating-point magnitude.

use vstd::arithmetic::power2::{
    lemma_pow2_pos, lemma_pow2_strictly_increases, lemma_pow2_unfold, pow2,
};
use vstd::prelude::*;

verus! {

/// The natural number nearest to `n / d`; a tie goes to the even neighbour.
pub open spec fn nearest(n: nat, d: nat) -> nat {
    let q = n / d;
    let r = n % d;
    if 2 * r < d {
        q
    } else if 2 * r > d {
        q + 1
    } else {
        q + q % 2
    }
}

/// The magnitude bits (exponent field above `frac` fraction bits) of the number nearest to
/// `n / d`, where one unit is the smallest subnormal. The exponent field is not bounded here.
pub open spec fn grid(frac: nat, n: nat, d: nat) -> nat
    decreases n - d,
{
    if d == 0 {
        0
    } else if n < d * pow2(frac + 1) {
        nearest(n, d)
    } else {
        proof {
            lemma_pow2_unfold(frac + 1);
            lemma_pow2_pos(frac);
            assert(d * pow2(frac + 1) >= 2 * d) by (nonlinear_arith)
                requires
                    pow2(frac + 1) >= 2,
                    d > 0,
            ;
        }
        pow2(frac) + grid(frac, n, 2 * d)
    }
}

/// The smaller of two naturals.
pub open spec fn least(a: nat, b: nat) -> nat {
    if a < b {
        a
    } else {
        b
    }
}

/// Numerator of `(a / b) * 2^s`.
pub open spec fn scaled_num(a: nat, s: int) -> nat {
    if s >= 0 {
        a * pow2(s as nat)
    } else {
        a
    }
}

/// Denominator of `(a / b) * 2^s`.
pub open spec fn scaled_den(b: nat, s: int) -> nat {
    if s >= 0 {
        b
    } else {
        b * pow2((-s) as nat)
    }
}

proof fn lemma_nearest_bounds(n: nat, d: nat)
    requires
        d > 0,
    ensures
        (2 * nearest(n, d) - 1) * d <= 2 * n <= (2 * nearest(n, d) + 1) * d,
        (2 * nearest(n, d) - 1) * d == 2 * n ==> nearest(n, d) % 2 == 0,
        2 * n == (2 * nearest(n, d) + 1) * d ==> nearest(n, d) % 2 == 0,
{
    let q = n / d;
    let r = n % d;
    let m = nearest(n, d);
    assert(n == q * d + r && 0 <= r < d) by (nonlinear_arith)
        requires
            q == n / d,
            r == n % d,
            d > 0,
    ;
    if m == q {
        assert((2 * m - 1) * d == 2 * (q * d) - d && (2 * m + 1) * d == 2 * (q * d) + d) by (nonlinear_arith)
            requires
                m == q,
        ;
    } else {
        assert((2 * m - 1) * d == 2 * (q * d) + d && (2 * m + 1) * d == 2 * (q * d) + 3 * d) by (nonlinear_arith)
            requires
                m == q + 1,
        ;
    }
}

pub proof fn lemma_nearest_unique(n: nat, d: nat, m: int)
    requires
        d > 0,
        (2 * m - 1) * d <= 2 * n <= (2 * m + 1) * d,
        (2 * m - 1) * d == 2 * n ==> m % 2 == 0,
        2 * n == (2 * m + 1) * d ==> m % 2 == 0,
    ensures
        nearest(n, d) == m,
{
    lemma_nearest_bounds(n, d);
    let t = nearest(n, d) as int;
    assert(2 * m - 1 <= 2 * t + 1) by (nonlinear_arith)
        requires
            (2 * m - 1) * d <= (2 * t + 1) * d,
            d > 0,
    ;
    assert(2 * t - 1 <= 2 * m + 1) by (nonlinear_arith)
        requires
            (2 * t - 1) * d <= (2 * m + 1) * d,
            d > 0,
    ;
    if m == t + 1 {
        assert((2 * m - 1) * d == (2 * t + 1) * d);
    }
    if t == m + 1 {
        assert((2 * t - 1) * d == (2 * m + 1) * d);
    }
}

pub proof fn lemma_nearest_scale(n: nat, d: nat, c: nat)
    requires
        d > 0,
        c > 0,
    ensures
        nearest(n * c, d * c) == nearest(n, d),
{
    lemma_nearest_bounds(n, d);
    let m = nearest(n, d) as int;
    let lo = (2 * m - 1) * d;
    let hi = (2 * m + 1) * d;
    assert(d * c > 0) by (nonlinear_arith)
        requires
            d > 0,
            c > 0,
    ;
    assert((2 * m - 1) * (d * c) == lo * c) by (nonlinear_arith)
        requires
            lo == (2 * m - 1) * d,
    ;
    assert((2 * m + 1) * (d * c) == hi * c) by (nonlinear_arith)
        requires
            hi == (2 * m + 1) * d,
    ;
    assert(lo * c <= (2 * n) * c <= hi * c) by (nonlinear_arith)
        requires
            lo <= 2 * n <= hi,
            c > 0,
    ;
    assert((2 * n) * c == 2 * (n * c)) by (nonlinear_arith);
    assert(lo * c == (2 * n) * c ==> lo == 2 * n) by (nonlinear_arith)
        requires
            c > 0,
    ;
    assert(hi * c == (2 * n) * c ==> hi == 2 * n) by (nonlinear_arith)
        requires
            c > 0,
    ;
    lemma_nearest_unique(n * c, d * c, m);
}

/// Scaling numerator and denominator alike does not change the rounded magnitude.
pub proof fn lemma_grid_scale(frac: nat, n: nat, d: nat, c: nat)
    requires
        d > 0,
        c > 0,
    ensures
        grid(frac, n * c, d * c) == grid(frac, n, d),
    decreases n - d,
{
    let p = pow2(frac + 1);
    lemma_pow2_unfold(frac + 1);
    lemma_pow2_pos(frac);
    assert(d * c > 0) by (nonlinear_arith)
        requires
            d > 0,
            c > 0,
    ;
    assert((d * c) * p == (d * p) * c) by (nonlinear_arith);
    assert(n * c < (d * p) * c <==> n < d * p) by (nonlinear_arith)
        requires
            c > 0,
    ;
    if n < d * p {
        lemma_nearest_scale(n, d, c);
    } else {
        assert(d * p >= 2 * d) by (nonlinear_arith)
            requires
                p >= 2,
                d > 0,
        ;
        lemma_grid_scale(frac, n, 2 * d, c);
        assert(2 * d * c == 2 * (d * c)) by (nonlinear_arith);
    }
}

/// Two fractions of equal value round alike.
pub proof fn lemma_grid_equal(frac: nat, n1: nat, d1: nat, n2: nat, d2: nat)
    requires
        d1 > 0,
        d2 > 0,
        n1 * d2 == n2 * d1,
    ensures
        grid(frac, n1, d1) == grid(frac, n2, d2),
{
    lemma_grid_scale(frac, n1, d1, d2);
    lemma_grid_scale(frac, n2, d2, d1);
    assert(d1 * d2 == d2 * d1) by (nonlinear_arith);
}

/// The rounded magnitude of a value known to lie in the binade with exponent `k`.
pub proof fn lemma_grid_at(frac: nat, n: nat, d: nat, k: nat)
    requires
        d > 0,
        n < d * pow2(frac + 1 + k),
        k > 0 ==> n >= d * pow2(frac + k),
    ensures
        grid(frac, n, d) == k * pow2(frac) + nearest(n, d * pow2(k)),
    decreases k,
{
    if k == 0 {
        assert(pow2(0) == 1) by {
            vstd::arithmetic::power2::lemma2_to64();
        }
        assert(0 * pow2(frac) == 0) by (nonlinear_arith);
        assert(d * 1 == d);
    } else {
        let j = (k - 1) as nat;
        lemma_pow2_unfold(frac + 1 + k);
        lemma_pow2_unfold(frac + k);
        lemma_pow2_unfold(k);
        lemma_pow2_pos(frac + j);
        assert((frac + 1 + k - 1) as nat == frac + 1 + j);
        assert((frac + k - 1) as nat == frac + j);
        assert(pow2(frac + k) >= pow2(frac + 1)) by {
            if k > 1 {
                lemma_pow2_strictly_increases(frac + 1, frac + k);
            }
        }
        assert(d * pow2(frac + k) >= d * pow2(frac + 1)) by (nonlinear_arith)
            requires
                pow2(frac + k) >= pow2(frac + 1),
        ;
        assert(d * (2 * pow2(frac + 1 + j)) == (2 * d) * pow2(frac + 1 + j)) by (nonlinear_arith);
        assert(d * (2 * pow2(frac + j)) == (2 * d) * pow2(frac + j)) by (nonlinear_arith);
        assert(d * (2 * pow2(j)) == (2 * d) * pow2(j)) by (nonlinear_arith);
        lemma_grid_at(frac, n, 2 * d, j);
        assert(k * pow2(frac) == pow2(frac) + j * pow2(frac)) by (nonlinear_arith)
            requires
                k == j + 1,
        ;
    }
}

proof fn lemma_nearest_monotone(n1: nat, n2: nat, d: nat)
    requires
        d > 0,
        n1 <= n2,
    ensures
        nearest(n1, d) <= nearest(n2, d),
{
    lemma_nearest_bounds(n1, d);
    lemma_nearest_bounds(n2, d);
    let m1 = nearest(n1, d) as int;
    let m2 = nearest(n2, d) as int;
    if m1 > m2 {
        assert((2 * m2 + 1) * d <= (2 * m1 - 1) * d) by (nonlinear_arith)
            requires
                m1 >= m2 + 1,
                d > 0,
        ;
        assert(n1 == n2);
    }
}

proof fn lemma_nearest_at_least(n: nat, d: nat, m: nat)
    requires
        d > 0,
        n >= d * m,
    ensures
        nearest(n, d) >= m,
{
    assert(n / d >= m) by (nonlinear_arith)
        requires
            d > 0,
            n >= d * m,
    ;
}

proof fn lemma_nearest_at_most(n: nat, d: nat, m: nat)
    requires
        d > 0,
        n <= d * m,
    ensures
        nearest(n, d) <= m,
{
    lemma_nearest_monotone(n, d * m, d);
    assert(m * d == d * m) by (nonlinear_arith);
    vstd::arithmetic::div_mod::lemma_div_multiples_vanish(m as int, d as int);
    vstd::arithmetic::div_mod::lemma_mod_multiples_basic(m as int, d as int);
    assert(nearest(d * m, d) == m);
}

proof fn lemma_grid_at_least(frac: nat, n: nat, d: nat)
    requires
        d > 0,
        n >= d * pow2(frac),
    ensures
        grid(frac, n, d) >= pow2(frac),
{
    if n < d * pow2(frac + 1) {
        lemma_nearest_at_least(n, d, pow2(frac));
    }
}

proof fn lemma_grid_monotone_over(frac: nat, n1: nat, n2: nat, d: nat)
    requires
        d > 0,
        n1 <= n2,
    ensures
        grid(frac, n1, d) <= grid(frac, n2, d),
    decreases n2 - d,
{
    let p = pow2(frac);
    lemma_pow2_pos(frac);
    lemma_pow2_unfold(frac + 1);
    assert(d * (2 * p) == (2 * d) * p) by (nonlinear_arith);
    if n2 < d * pow2(frac + 1) {
        lemma_nearest_monotone(n1, n2, d);
    } else {
        assert(d * (2 * p) >= 2 * d) by (nonlinear_arith)
            requires
                p >= 1,
                d > 0,
        ;
        if n1 < d * pow2(frac + 1) {
            lemma_nearest_at_most(n1, d, 2 * p);
            lemma_grid_at_least(frac, n2, 2 * d);
        } else {
            lemma_grid_monotone_over(frac, n1, n2, 2 * d);
        }
    }
}

/// A smaller fraction rounds to no larger a magnitude.
pub proof fn lemma_grid_monotone(frac: nat, n1: nat, d1: nat, n2: nat, d2: nat)
    requires
        d1 > 0,
        d2 > 0,
        n1 * d2 <= n2 * d1,
    ensures
        grid(frac, n1, d1) <= grid(frac, n2, d2),
{
    lemma_grid_scale(frac, n1, d1, d2);
    lemma_grid_scale(frac, n2, d2, d1);
    assert(d1 * d2 == d2 * d1) by (nonlinear_arith);
    assert(d1 * d2 > 0) by (nonlinear_arith)
        requires
            d1 > 0,
            d2 > 0,
    ;
    lemma_grid_monotone_over(frac, n1 * d2, n2 * d1, d1 * d2);
}

} // verus!
