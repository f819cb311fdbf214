//! Rounding of a fraction of two naturals of any size.

use super::bits::{inf_bits, join, Layout};
use super::model::{decode, rounded};
use super::natural::{multiply_add, natural, subtract};
use super::pack::{lemma_pow2_at_most, pow2_wide};
use super::round::{grid, lemma_grid_at, nearest};
use vstd::arithmetic::power2::{lemma_pow2_adds, lemma_pow2_pos, lemma_pow2_unfold, pow2};
use vstd::prelude::*;

verus! {

pub fn doubled(v: &Vec<u32>, times: u32) -> (r: Vec<u32>)
    ensures
        natural(r@) == natural(v@) * pow2(times as nat),
{
    let mut r: Vec<u32> = v.clone();
    let mut i: u32 = 0;
    proof {
        assert(r@ == v@);
        vstd::arithmetic::power2::lemma2_to64();
        assert(natural(v@) * 1 == natural(v@));
    }
    while i < times
        invariant
            i <= times,
            natural(r@) == natural(v@) * pow2(i as nat),
        decreases times - i,
    {
        multiply_add(&mut r, 2, 0);
        proof {
            lemma_pow2_unfold((i + 1) as nat);
            let n = natural(v@);
            let p = pow2(i as nat);
            assert((n * p) * 2 == n * (2 * p)) by (nonlinear_arith);
        }
        i = i + 1;
    }
    r
}

/// Quotient of `n` by `d`, and whether the remainder is below, at or above one half.
fn divide(n: &Vec<u32>, d: &Vec<u32>, frac: u32) -> (r: u64)
    requires
        frac <= 52,
        natural(d@) > 0,
        natural(n@) < natural(d@) * pow2((frac + 1) as nat),
    ensures
        r == nearest(natural(n@), natural(d@)),
        r <= pow2((frac + 1) as nat),
{
    let ghost nn = natural(n@);
    let ghost dd = natural(d@);
    let mut rest: Vec<u32> = n.clone();
    let mut q: u64 = 0;
    let mut i: u32 = frac + 1;
    proof {
        assert(rest@ == n@);
        vstd::arithmetic::power2::lemma2_to64();
        vstd::arithmetic::power2::lemma2_to64_rest();
        lemma_pow2_at_most((frac + 1) as nat, 53);
        assert(0 * dd == 0);
    }
    while i > 0
        invariant
            i <= frac + 1,
            frac <= 52,
            pow2((frac + 1) as nat) <= 0x20_0000_0000_0000,
            dd == natural(d@),
            nn == q * dd + natural(rest@),
            natural(rest@) < dd * pow2(i as nat),
            q + pow2(i as nat) <= pow2((frac + 1) as nat),
        decreases i,
    {
        i = i - 1;
        let step = doubled(d, i);
        proof {
            lemma_pow2_unfold((i + 1) as nat);
            let p = pow2(i as nat);
            assert(dd * (2 * p) == dd * p + dd * p) by (nonlinear_arith);
            lemma_pow2_at_most(i as nat, (frac + 1) as nat);
        }
        match subtract(&rest, &step) {
            Some(left) => {
                let bit: u64 = pow2_wide(i) as u64;
                proof {
                    assert((q + bit) * dd == q * dd + dd * bit) by (nonlinear_arith);
                }
                rest = left;
                q = q + bit;
            },
            None => {},
        }
    }
    proof {
        vstd::arithmetic::power2::lemma2_to64();
        assert(dd * 1 == dd);
        vstd::arithmetic::div_mod::lemma_fundamental_div_mod_converse(
            nn as int,
            dd as int,
            q as int,
            natural(rest@) as int,
        );
    }
    let twice = doubled(&rest, 1);
    match subtract(&twice, d) {
        None => q,
        Some(_) => match subtract(d, &twice) {
            None => q + 1,
            Some(_) => q + q % 2,
        },
    }
}

/// The bit pattern nearest to `n / d` units.
pub fn rational_bits(l: Layout, neg: bool, n: &Vec<u32>, d: &Vec<u32>) -> (r: u64)
    requires
        l.valid(),
        natural(d@) > 0,
    ensures
        r < 2 * l.sign,
        decode(l.format(), r as nat) == rounded(l.format(), neg, natural(n@), natural(d@)),
{
    let ghost nn = natural(n@);
    let ghost dd = natural(d@);
    let ghost frac = l.frac as nat;
    let mut den: Vec<u32> = d.clone();
    let mut bound: Vec<u32> = doubled(d, l.frac + 1);
    let mut k: u32 = 0;
    proof {
        assert(den@ == d@);
        vstd::arithmetic::power2::lemma2_to64();
        assert(dd * 1 == dd);
    }
    let mut fits: bool = false;
    while !fits
        invariant
            l.valid(),
            frac == l.frac,
            nn == natural(n@),
            dd == natural(d@),
            dd > 0,
            k < l.top,
            natural(den@) == dd * pow2(k as nat),
            natural(bound@) == dd * pow2(frac + 1 + k as nat),
            k > 0 ==> nn >= dd * pow2(frac + k as nat),
            fits ==> nn < dd * pow2(frac + 1 + k as nat),
        decreases l.top - k, (if fits { 0int } else { 1int }),
    {
        match subtract(n, &bound) {
            None => {
                fits = true;
            },
            Some(_) => {
                if k + 1 >= l.top {
                    proof {
                        lemma_grid_large(frac, nn, dd, l.top as nat);
                    }
                    return inf_bits(l, neg);
                }
                multiply_add(&mut den, 2, 0);
                multiply_add(&mut bound, 2, 0);
                proof {
                    lemma_pow2_unfold((k + 1) as nat);
                    lemma_pow2_unfold(frac + 1 + (k + 1) as nat);
                    let p = pow2(k as nat);
                    let b = pow2(frac + 1 + k as nat);
                    assert((dd * p) * 2 == dd * (2 * p)) by (nonlinear_arith);
                    assert((dd * b) * 2 == dd * (2 * b)) by (nonlinear_arith);
                    assert(frac + (k + 1) as nat == frac + 1 + k as nat);
                }
                k = k + 1;
            },
        }
    }
    proof {
        lemma_pow2_pos(k as nat);
        assert(dd * pow2(k as nat) > 0) by (nonlinear_arith)
            requires
                dd > 0,
                pow2(k as nat) > 0,
        ;
        lemma_pow2_adds(k as nat, frac + 1);
        assert(dd * pow2(frac + 1 + k as nat) == (dd * pow2(k as nat)) * pow2(frac + 1)) by (nonlinear_arith)
            requires
                pow2(frac + 1 + k as nat) == pow2(k as nat) * pow2(frac + 1),
        ;
    }
    let h = divide(n, &den, l.frac);
    proof {
        lemma_grid_at(frac, nn, dd, k as nat);
        lemma_pow2_at_most((l.frac + 1) as nat, 53);
        vstd::arithmetic::power2::lemma2_to64_rest();
        assert(k * l.unit <= l.inf) by (nonlinear_arith)
            requires
                k <= l.top,
                l.inf == l.top * l.unit,
        ;
        assert(l.inf <= l.sign) by (nonlinear_arith)
            requires
                l.inf == l.top * l.unit,
                l.sign == (l.top + 1) * l.unit,
        ;
    }
    let mag: u64 = k as u64 * l.unit + h;
    if mag < l.inf {
        join(l, neg, mag)
    } else {
        inf_bits(l, neg)
    }
}

/// A value of at least `2^(frac + top)` units rounds to a magnitude of at least infinity's.
pub proof fn lemma_grid_large(frac: nat, n: nat, d: nat, top: nat)
    requires
        d > 0,
        top > 0,
        n >= d * pow2(frac + top),
    ensures
        grid(frac, n, d) >= top * pow2(frac),
    decreases top,
{
    lemma_pow2_at_most(frac + 1, frac + top);
    assert(d * pow2(frac + top) >= d * pow2(frac + 1)) by (nonlinear_arith)
        requires
            pow2(frac + top) >= pow2(frac + 1),
    ;
    if top > 1 {
        let t = (top - 1) as nat;
        lemma_pow2_unfold(frac + top);
        assert((frac + top - 1) as nat == frac + t);
        assert(d * (2 * pow2(frac + t)) == (2 * d) * pow2(frac + t)) by (nonlinear_arith);
        lemma_grid_large(frac, n, 2 * d, t);
        assert(top * pow2(frac) == pow2(frac) + t * pow2(frac)) by (nonlinear_arith)
            requires
                top == t + 1,
        ;
    } else {
        assert(1 * pow2(frac) == pow2(frac));
    }
}

} // verus!
