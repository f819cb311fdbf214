//! Packing of a scaled integer into magnitude bits.

use super::round::{grid, least, lemma_grid_at, lemma_nearest_unique, nearest, scaled_den, scaled_num};
use vstd::arithmetic::power2::{
    lemma_pow2_adds, lemma_pow2_pos, lemma_pow2_strictly_increases, lemma_pow2_unfold, pow2,
};
use vstd::prelude::*;

verus! {

pub proof fn lemma_pow2_at_most(a: nat, b: nat)
    requires
        a <= b,
    ensures
        pow2(a) <= pow2(b),
{
    if a < b {
        lemma_pow2_strictly_increases(a, b);
    }
}

pub proof fn lemma_pow2_127()
    ensures
        pow2(127) == 0x8000_0000_0000_0000_0000_0000_0000_0000,
{
    vstd::arithmetic::power2::lemma2_to64();
    vstd::arithmetic::power2::lemma2_to64_rest();
    lemma_pow2_adds(63, 64);
}

/// Two to the power `e`.
pub fn pow2_wide(e: u32) -> (r: u128)
    requires
        e <= 127,
    ensures
        r == pow2(e as nat),
{
    let mut r: u128 = 1;
    let mut i: u32 = 0;
    proof {
        vstd::arithmetic::power2::lemma2_to64();
    }
    while i < e
        invariant
            i <= e <= 127,
            r == pow2(i as nat),
        decreases e - i,
    {
        proof {
            lemma_pow2_unfold((i + 1) as nat);
            lemma_pow2_at_most((i + 1) as nat, 127);
            lemma_pow2_127();
        }
        r = r * 2;
        i = i + 1;
    }
    r
}

/// Number of binary digits of `q`.
pub fn bit_length(q: u128) -> (l: u32)
    requires
        q > 0,
    ensures
        0 < l <= 128,
        pow2((l - 1) as nat) <= q < pow2(l as nat),
{
    let mut x: u128 = q;
    let mut l: u32 = 0;
    let ghost mut rest: nat = 0;
    proof {
        vstd::arithmetic::power2::lemma2_to64();
        lemma_pow2_127();
        lemma_pow2_unfold(128);
    }
    while x > 1
        invariant
            x > 0,
            rest < pow2(l as nat),
            q == x * pow2(l as nat) + rest,
            l <= 127,
            x < pow2((128 - l) as nat),
            l < 127 || x <= 1,
        decreases x,
    {
        let ghost y = x;
        x = x / 2;
        proof {
            let h = pow2(l as nat);
            lemma_pow2_unfold((l + 1) as nat);
            lemma_pow2_unfold((128 - l) as nat);
            rest = (y % 2) as nat * h + rest;
            assert(y as int * h == x * (2 * h) + (y % 2) * h) by (nonlinear_arith)
                requires
                    y == 2 * x + y % 2,
            ;
            assert((y % 2) * h <= h) by (nonlinear_arith)
                requires
                    0 <= y % 2 <= 1,
            ;
            if l + 1 == 127 {
                assert(pow2(1) == 2) by {
                    vstd::arithmetic::power2::lemma2_to64();
                }
            }
        }
        l = l + 1;
    }
    proof {
        lemma_pow2_unfold((l + 1) as nat);
        assert(x as int * pow2(l as nat) == pow2(l as nat)) by (nonlinear_arith)
            requires
                x == 1,
        ;
    }
    l + 1
}

/// A value between `q` and `q + 1` steps of `2^s`, taken by its fraction `a / b`.
pub open spec fn between(a: nat, b: nat, q: nat, sticky: bool) -> bool {
    &&& b > 0
    &&& q * b <= a < (q + 1) * b
    &&& sticky <==> a != q * b
}

proof fn lemma_binade(a: nat, b: nat, q: nat, s: int, l: nat, t: int)
    requires
        b > 0,
        q * b <= a < (q + 1) * b,
        l > 0,
        pow2((l - 1) as nat) <= q < pow2(l),
        t >= 0,
    ensures
        l + s <= t ==> scaled_num(a, s) < scaled_den(b, s) * pow2(t as nat),
        l + s > t ==> scaled_num(a, s) >= scaled_den(b, s) * pow2(t as nat),
{
    let n = scaled_num(a, s);
    let d = scaled_den(b, s);
    if l + s <= t {
        assert((q + 1) * b <= pow2(l) * b) by (nonlinear_arith)
            requires
                q + 1 <= pow2(l),
        ;
        if s >= 0 {
            lemma_pow2_adds(l, s as nat);
            lemma_pow2_at_most(l + s as nat, t as nat);
            lemma_pow2_pos(s as nat);
            assert(a * pow2(s as nat) < b * pow2(t as nat)) by (nonlinear_arith)
                requires
                    a < pow2(l) * b,
                    pow2(l) * pow2(s as nat) <= pow2(t as nat),
                    pow2(s as nat) > 0,
            ;
        } else {
            lemma_pow2_adds((-s) as nat, t as nat);
            lemma_pow2_at_most(l, (-s) as nat + t as nat);
            assert(a < (b * pow2((-s) as nat)) * pow2(t as nat)) by (nonlinear_arith)
                requires
                    a < pow2(l) * b,
                    pow2(l) <= pow2((-s) as nat) * pow2(t as nat),
            ;
        }
    } else {
        let m = (l - 1) as nat;
        assert(pow2(m) * b <= q * b) by (nonlinear_arith)
            requires
                pow2(m) <= q,
        ;
        if s >= 0 {
            lemma_pow2_adds(m, s as nat);
            lemma_pow2_at_most(t as nat, m + s as nat);
            assert(a * pow2(s as nat) >= b * pow2(t as nat)) by (nonlinear_arith)
                requires
                    a >= pow2(m) * b,
                    pow2(m) * pow2(s as nat) >= pow2(t as nat),
            ;
        } else {
            lemma_pow2_adds((-s) as nat, t as nat);
            lemma_pow2_at_most((-s) as nat + t as nat, m);
            assert(a >= (b * pow2((-s) as nat)) * pow2(t as nat)) by (nonlinear_arith)
                requires
                    a >= pow2(m) * b,
                    pow2(m) >= pow2((-s) as nat) * pow2(t as nat),
            ;
        }
    }
}

/// Brings the rounding of `(a / b) * 2^s` at exponent `k` back to the rounding of `a / b`.
proof fn lemma_cut(a: nat, b: nat, s: int, k: nat)
    requires
        b > 0,
    ensures
        k - s >= 0 ==> nearest(scaled_num(a, s), scaled_den(b, s) * pow2(k)) == nearest(
            a,
            b * pow2((k - s) as nat),
        ),
        k - s < 0 ==> nearest(scaled_num(a, s), scaled_den(b, s) * pow2(k)) == nearest(
            a * pow2((s - k) as nat),
            b,
        ),
{
    lemma_pow2_pos(k);
    if s >= 0 && k >= s {
        let c = pow2(s as nat);
        lemma_pow2_pos(s as nat);
        lemma_pow2_pos((k - s) as nat);
        lemma_pow2_adds((k - s) as nat, s as nat);
        assert(b * pow2((k - s) as nat) > 0) by (nonlinear_arith)
            requires
                b > 0,
                pow2((k - s) as nat) > 0,
        ;
        super::round::lemma_nearest_scale(a, b * pow2((k - s) as nat), c);
        assert((b * pow2((k - s) as nat)) * c == b * (pow2((k - s) as nat) * c)) by (nonlinear_arith);
    } else if s >= 0 {
        let c = pow2(k);
        lemma_pow2_adds((s - k) as nat, k);
        super::round::lemma_nearest_scale(a * pow2((s - k) as nat), b, c);
        assert((a * pow2((s - k) as nat)) * c == a * (pow2((s - k) as nat) * c)) by (nonlinear_arith);
    } else {
        lemma_pow2_adds((-s) as nat, k);
        assert((b * pow2((-s) as nat)) * pow2(k) == b * (pow2((-s) as nat) * pow2(k)))
            by (nonlinear_arith);
    }
}

/// Rounds `(q + f) * 2^s` to magnitude bits, where `f` lies in `[0, 1)` and is zero exactly
/// when `sticky` is false; a magnitude past the largest finite one becomes infinity.
pub fn pack(frac: u32, top: u32, q: u128, sticky: bool, s: i32, Ghost(a): Ghost<nat>, Ghost(b): Ghost<nat>) -> (r: u64)
    requires
        0 < frac <= 52,
        0 < top <= 2047,
        q < pow2(127),
        -4000 <= s <= 4000,
        between(a, b, q as nat, sticky),
        sticky ==> q >= pow2((frac + 2) as nat),
    ensures
        r == least(
            grid(frac as nat, scaled_num(a, s as int), scaled_den(b, s as int)),
            top as nat * pow2(frac as nat),
        ),
        r <= top as nat * pow2(frac as nat),
{
    let ghost n = scaled_num(a, s as int);
    let ghost d = scaled_den(b, s as int);
    let unit: u128 = pow2_wide(frac);
    proof {
        vstd::arithmetic::power2::lemma2_to64_rest();
        lemma_pow2_127();
        lemma_pow2_at_most(frac as nat, 52);
        lemma_pow2_pos(frac as nat);
        if s < 0 {
            lemma_pow2_pos((-s) as nat);
            assert(b * pow2((-s) as nat) > 0) by (nonlinear_arith)
                requires
                    b > 0,
                    pow2((-s) as nat) > 0,
            ;
        }
        assert(top * unit <= 2047 * unit) by (nonlinear_arith)
            requires
                top <= 2047,
        ;
        assert(2047 * pow2(52) <= u64::MAX);
    }
    let inf: u128 = top as u128 * unit;
    if q == 0 {
        proof {
            lemma_pow2_pos((frac + 2) as nat);
            assert(a == 0) by (nonlinear_arith)
                requires
                    a == 0 * b,
            ;
            assert(n == 0) by {
                if s >= 0 {
                    assert(0 * pow2(s as nat) == 0) by (nonlinear_arith);
                }
            }
            lemma_pow2_pos((frac + 1) as nat);
            assert(d * pow2((frac + 1) as nat) > 0) by (nonlinear_arith)
                requires
                    d > 0,
                    pow2((frac + 1) as nat) > 0,
            ;
            assert(0nat / d == 0 && 0nat % d == 0) by (nonlinear_arith)
                requires
                    d > 0,
            ;
        }
        return 0;
    }
    let l = bit_length(q);
    let e: i32 = l as i32 + s - (frac as i32 + 1);
    let k: u32 = if e > 0 {
        e as u32
    } else {
        0
    };
    proof {
        lemma_binade(a, b, q as nat, s as int, l as nat, frac + 1 + k);
        if k > 0 {
            lemma_binade(a, b, q as nat, s as int, l as nat, frac + k);
        }
        lemma_grid_at(frac as nat, n, d, k as nat);
        lemma_cut(a, b, s as int, k as nat);
        if sticky {
            if l <= frac + 2 {
                lemma_pow2_at_most(l as nat, (frac + 2) as nat);
            }
        }
    }
    if k >= top {
        proof {
            assert(k as nat * pow2(frac as nat) >= top as nat * pow2(frac as nat)) by (nonlinear_arith)
                requires
                    k >= top,
            ;
        }
        return inf as u64;
    }
    let j: i32 = k as i32 - s;
    let h: u128 = if j <= 0 {
        let sh: u32 = (-j) as u32;
        let f = pow2_wide(sh);
        proof {
            lemma_pow2_adds(l as nat, sh as nat);
            lemma_pow2_at_most((l + sh) as nat, (frac + 1) as nat);
            lemma_pow2_at_most((frac + 1) as nat, 53);
            lemma_pow2_pos(sh as nat);
            assert(q * f < pow2(l as nat) * pow2(sh as nat)) by (nonlinear_arith)
                requires
                    q < pow2(l as nat),
                    f == pow2(sh as nat),
                    f > 0,
            ;
            if j == 0 {
                vstd::arithmetic::power2::lemma2_to64();
            }
            let m = q * f;
            let x = a * pow2(sh as nat);
            assert(x == m * b) by (nonlinear_arith)
                requires
                    x == a * pow2(sh as nat),
                    a == q * b,
                    m == q * f,
                    f == pow2(sh as nat),
            ;
            assert((2 * m - 1) * b <= 2 * x <= (2 * m + 1) * b && (2 * m - 1) * b != 2 * x && (2 * m
                + 1) * b != 2 * x) by (nonlinear_arith)
                requires
                    x == m * b,
                    b > 0,
            ;
            lemma_nearest_unique(x, b, m);
            if j == 0 {
                assert(b * 1 == b && a * 1 == a);
            }
        }
        q * f
    } else if j >= 128 {
        proof {
            lemma_pow2_at_most(128, j as nat);
            lemma_pow2_unfold(128);
            let p = pow2(j as nat);
            lemma_pow2_pos(j as nat);
            assert(b * p > 0) by (nonlinear_arith)
                requires
                    b > 0,
                    p > 0,
            ;
            assert(2 * a < b * p) by (nonlinear_arith)
                requires
                    a < (q + 1) * b,
                    2 * (q + 1) <= p,
                    b > 0,
            ;
            let w = b * p;
            let z: int = 0;
            assert((2 * z - 1) * w < 2 * a < (2 * z + 1) * w) by (nonlinear_arith)
                requires
                    z == 0,
                    0 <= 2 * a < w,
            ;
            lemma_nearest_unique(a, w, z);
        }
        0
    } else {
        let p: u128 = pow2_wide(j as u32);
        proof {
            lemma_pow2_pos(j as nat);
        }
        let hi: u128 = q / p;
        let lo: u128 = q % p;
        let half: u128 = p / 2;
        let up = lo > half || (lo == half && (sticky || hi % 2 == 1));
        proof {
            lemma_pow2_unfold(j as nat);
            lemma_pow2_pos(j as nat);
            let ghost m: int = if up {
                hi + 1
            } else {
                hi as int
            };
            assert(q == hi * p + lo) by (nonlinear_arith)
                requires
                    hi == q / p,
                    lo == q % p,
                    p > 0,
            ;
            let w: nat = b * (p as nat);
            assert(w > 0) by (nonlinear_arith)
                requires
                    b > 0,
                    p > 0,
                    w == b * p,
            ;
            // a = hi * w + lo * b + f, with 0 <= f < b
            let f = a - q * b;
            assert(a == hi * w + lo * b + f && 0 <= f < b) by (nonlinear_arith)
                requires
                    q == hi * p + lo,
                    w == b * p,
                    f == a - q * b,
                    q * b <= a < (q + 1) * b,
            ;
            assert(half * b + half * b == w) by (nonlinear_arith)
                requires
                    p == 2 * half,
                    w == b * p,
            ;
            let y = lo * b;
            let g = half * b;
            if lo > half {
                assert(y >= g + b) by (nonlinear_arith)
                    requires
                        y == lo * b,
                        g == half * b,
                        lo >= half + 1,
                        b > 0,
                ;
                assert(y + b <= w) by (nonlinear_arith)
                    requires
                        y == lo * b,
                        w == b * p,
                        lo + 1 <= p,
                        b > 0,
                ;
            } else if lo < half {
                assert(y + b <= g) by (nonlinear_arith)
                    requires
                        y == lo * b,
                        g == half * b,
                        lo + 1 <= half,
                        b > 0,
                ;
                assert(y >= 0) by (nonlinear_arith)
                    requires
                        y == lo * b,
                        lo >= 0,
                        b > 0,
                ;
            } else {
                assert(y == g);
                assert(g + b <= w) by (nonlinear_arith)
                    requires
                        g == half * b,
                        w == b * p,
                        half + 1 <= p,
                        b > 0,
                ;
            }
            assert((2 * m - 1) * w == 2 * (m * w) - w && (2 * m + 1) * w == 2 * (m * w) + w)
                by (nonlinear_arith);
            if up {
                assert(m * w == hi * w + w) by (nonlinear_arith)
                    requires
                        m == hi + 1,
                ;
            }
            lemma_nearest_unique(a, w, m);
            assert(hi <= q) by (nonlinear_arith)
                requires
                    q == hi * p + lo,
                    p >= 1,
                    lo >= 0,
            ;
        }
        if up {
            hi + 1
        } else {
            hi
        }
    };
    proof {
        // the rounded significand is at most 2^(frac + 1)
        let w = d * pow2(k as nat);
        lemma_pow2_pos(k as nat);
        assert(w > 0) by (nonlinear_arith)
            requires
                w == d * pow2(k as nat),
                d > 0,
                pow2(k as nat) > 0,
        ;
        assert(h == nearest(n, w));
        lemma_nearest_at_most(n, w, pow2((frac + 1) as nat), d, k as nat, frac as nat);
        lemma_pow2_at_most((frac + 1) as nat, 53);
        assert(k * unit <= 2047 * unit) by (nonlinear_arith)
            requires
                k <= 2047,
        ;
    }
    let mag: u128 = k as u128 * unit + h;
    if mag < inf {
        mag as u64
    } else {
        inf as u64
    }
}

proof fn lemma_nearest_at_most(n: nat, w: nat, m: nat, d: nat, k: nat, frac: nat)
    requires
        d > 0,
        w == d * pow2(k),
        m == pow2(frac + 1),
        n < d * pow2(frac + 1 + k),
    ensures
        nearest(n, w) <= m,
{
    lemma_pow2_adds(frac + 1, k);
    lemma_pow2_pos(k);
    assert(n < m * w) by (nonlinear_arith)
        requires
            n < d * pow2(frac + 1 + k),
            pow2(frac + 1 + k) == m * pow2(k),
            w == d * pow2(k),
    ;
    assert(w > 0) by (nonlinear_arith)
        requires
            w == d * pow2(k),
            d > 0,
            pow2(k) > 0,
    ;
    assert(n / w < m) by (nonlinear_arith)
        requires
            n < m * w,
            w > 0,
    ;
}

} // verus!
