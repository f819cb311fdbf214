//! Numbers in decimal notation.

use super::bits::{from_u64_bits, inf_bits, nan_bits, ratio_bits, zero_bits, Layout};
use super::model::{decode, rounded, Format, Num};
use super::natural::{from_u64, multiply_add, natural, to_u64};
use super::pack::lemma_pow2_at_most;
use super::rational::{doubled, lemma_grid_large, rational_bits};
use super::round::{least, nearest};
use crate::text::digits::{
    all_digits, chars_of, digit_at, digit_run, digit_value, digits_value, is_digit,
    lemma_digit_run_bounds, lemma_digits_bound, signed_value, tens,
};
use crate::text::words::{spells, spells_at};
use vstd::arithmetic::power2::{lemma_pow2_adds, lemma_pow2_pos, lemma_pow2_unfold, pow2};
use vstd::prelude::*;

verus! {

/// The number nearest to `n * 10^e`.
pub open spec fn scaled_decimal(f: Format, neg: bool, n: nat, e: int) -> Num {
    if e >= 0 {
        rounded(f, neg, n * tens(e as nat) * pow2(f.scale), 1)
    } else {
        rounded(f, neg, n * pow2(f.scale), tens((-e) as nat))
    }
}

/// How many fraction digits follow the `a` leading digits of `t`, behind a point.
pub open spec fn fraction_run(t: Seq<char>, a: nat) -> nat {
    if a < t.len() && t[a as int] == '.' {
        digit_run(t, a as int + 1)
    } else {
        0
    }
}

/// The number denoted by digits with an optional point and an optional exponent.
pub open spec fn decimal_number(f: Format, neg: bool, t: Seq<char>) -> Option<Num> {
    let a = digit_run(t, 0);
    let b = fraction_run(t, a);
    let from: int = if a < t.len() && t[a as int] == '.' {
        a as int + 1
    } else {
        a as int
    };
    let end = from + b;
    let n = digits_value(t.take(a as int)) * tens(b) + digits_value(t.subrange(from, end));
    if a + b == 0 {
        None
    } else if end == t.len() {
        Some(scaled_decimal(f, neg, n, -(b as int)))
    } else if t[end] == 'e' || t[end] == 'E' {
        match signed_value(t.skip(end + 1)) {
            Some(x) => Some(scaled_decimal(f, neg, n, x - b)),
            None => None,
        }
    } else {
        None
    }
}

/// The number that a string denotes: an optional sign, and then an infinity, a not-a-number or
/// a decimal number.
pub open spec fn parse_number(f: Format, s: Seq<char>) -> Option<Num> {
    let neg = s.len() > 0 && s[0] == '-';
    let t = if s.len() > 0 && (s[0] == '-' || s[0] == '+') {
        s.skip(1)
    } else {
        s
    };
    if spells(t, "inf"@) || spells(t, "infinity"@) {
        Some(Num::Inf { neg })
    } else if spells(t, "nan"@) {
        Some(Num::Nan)
    } else {
        decimal_number(f, neg, t)
    }
}

proof fn lemma_tens_pow2(k: nat)
    ensures
        tens(k) >= pow2(3 * k),
        tens(k) > 0,
    decreases k,
{
    vstd::arithmetic::power2::lemma2_to64();
    if k > 0 {
        lemma_tens_pow2((k - 1) as nat);
        lemma_pow2_adds((3 * (k - 1)) as nat, 3);
        assert(pow2(3 * k) == pow2((3 * (k - 1)) as nat) * 8);
    }
}

proof fn lemma_tens_adds(a: nat, b: nat)
    ensures
        tens(a + b) == tens(a) * tens(b),
    decreases a,
{
    if a == 0 {
        assert(1 * tens(b) == tens(b));
    } else {
        lemma_tens_adds((a - 1) as nat, b);
        assert(((a - 1) as nat + b) == (a + b - 1) as nat);
        let x = tens((a - 1) as nat);
        let y = tens(b);
        assert(10 * (x * y) == (10 * x) * y) by (nonlinear_arith);
    }
}

proof fn lemma_nothing(f: Format, neg: bool, d: nat)
    requires
        d > 0,
        f.top > 0,
    ensures
        rounded(f, neg, 0, d) == (Num::Fin { neg, units: 0 }),
{
    lemma_tiny(f, neg, 0, d);
}

/// Less than half a unit rounds to zero.
proof fn lemma_tiny(f: Format, neg: bool, n: nat, d: nat)
    requires
        2 * n < d,
        f.top > 0,
    ensures
        rounded(f, neg, n, d) == (Num::Fin { neg, units: 0 }),
{
    lemma_pow2_pos(f.frac + 1);
    lemma_pow2_pos(f.frac);
    assert(n < d * pow2(f.frac + 1)) by (nonlinear_arith)
        requires
            n < d,
            pow2(f.frac + 1) > 0,
    ;
    vstd::arithmetic::div_mod::lemma_fundamental_div_mod_converse(n as int, d as int, 0, n as int);
    assert(nearest(n, d) == 0);
    assert(f.top * pow2(f.frac) > 0) by (nonlinear_arith)
        requires
            f.top > 0,
            pow2(f.frac) > 0,
    ;
}

proof fn lemma_overflow(f: Format, neg: bool, n: nat, e: int)
    requires
        n > 0,
        e > 400,
        f.top > 0,
        f.frac + f.top <= f.scale + 1025,
    ensures
        scaled_decimal(f, neg, n, e) == (Num::Inf { neg }),
{
    let p = pow2(f.scale);
    let t = tens(e as nat);
    lemma_tens_pow2(e as nat);
    lemma_pow2_at_most(1025, 3 * e as nat);
    lemma_pow2_adds(1025, f.scale);
    lemma_pow2_at_most(f.frac + f.top, f.scale + 1025);
    assert(n * t * p >= pow2(1025) * p) by (nonlinear_arith)
        requires
            n > 0,
            t >= pow2(1025),
    ;
    let v = n * t * p;
    assert(1 * pow2(f.frac + f.top) == pow2(f.frac + f.top));
    lemma_grid_large(f.frac, v, 1, f.top);
}

proof fn lemma_underflow(f: Format, neg: bool, n: nat, digits: nat, e: int)
    requires
        n < tens(digits),
        e < -(digits + 400),
        f.top > 0,
        f.scale <= 1074,
    ensures
        scaled_decimal(f, neg, n, e) == (Num::Fin { neg, units: 0 }),
{
    let p = pow2(f.scale);
    let k = (-e - digits) as nat;
    lemma_tens_adds(digits, k);
    lemma_tens_pow2(k);
    lemma_pow2_at_most(1075, 3 * k);
    lemma_pow2_unfold(1075);
    lemma_pow2_at_most(f.scale, 1074);
    lemma_pow2_pos(f.scale);
    let t = tens(digits);
    assert(2 * (n * p) < t * tens(k)) by (nonlinear_arith)
        requires
            n < t,
            2 * p <= tens(k),
            p > 0,
    ;
    lemma_tiny(f, neg, n * p, tens((-e) as nat));
}

fn run_end(v: &Vec<char>, from: usize) -> (end: usize)
    requires
        from <= v@.len(),
    ensures
        end == from + digit_run(v@, from as int),
        end <= v@.len(),
{
    let mut i: usize = from;
    while i < v.len() && digit_at(v, i)
        invariant
            from <= i <= v@.len(),
            from + digit_run(v@, from as int) == i + digit_run(v@, i as int),
        decreases v@.len() - i,
    {
        i = i + 1;
    }
    i
}

fn char_digit(c: char) -> (d: u32)
    requires
        is_digit(c),
    ensures
        d == digit_value(c),
        d <= 9,
{
    c as u32 - 48
}

/// Appends the decimal digits `v[from..to]` to `n`.
fn read_digits(n: &mut Vec<u32>, v: &Vec<char>, from: usize, to: usize)
    requires
        from <= to <= v@.len(),
        forall|j: int| from <= j < to ==> is_digit(#[trigger] v@[j]),
    ensures
        natural(final(n)@) == natural(old(n)@) * tens((to - from) as nat) + digits_value(
            v@.subrange(from as int, to as int),
        ),
{
    let ghost n0 = natural(n@);
    let mut i: usize = from;
    proof {
        assert(n0 * 1 == n0);
        assert(v@.subrange(from as int, from as int) =~= Seq::<char>::empty());
    }
    while i < to
        invariant
            from <= i <= to <= v@.len(),
            forall|j: int| from <= j < to ==> is_digit(#[trigger] v@[j]),
            natural(n@) == n0 * tens((i - from) as nat) + digits_value(
                v@.subrange(from as int, i as int),
            ),
        decreases to - i,
    {
        let d: u32 = char_digit(v[i]);
        let ghost before = natural(n@);
        multiply_add(n, 10, d);
        proof {
            let now = v@.subrange(from as int, i as int);
            let next = v@.subrange(from as int, i + 1);
            assert(next.drop_last() =~= now);
            assert(next.last() == v@[i as int]);
            let t = tens((i - from) as nat);
            assert(((i + 1) - from - 1) as nat == (i - from) as nat);
            assert((n0 * t + digits_value(now)) * 10 + d == n0 * (10 * t) + (digits_value(now) * 10
                + d)) by (nonlinear_arith);
        }
        i = i + 1;
    }
}

/// The value of the digits from `from` on, at most 2^80.
fn capped_value(v: &Vec<char>, from: usize) -> (r: Option<u128>)
    requires
        from <= v@.len(),
    ensures
        match r {
            Some(x) => from < v@.len() && all_digits(v@.skip(from as int)) && x == least(
                digits_value(v@.skip(from as int)),
                0x1_0000_0000_0000_0000_0000,
            ),
            None => from == v@.len() || !all_digits(v@.skip(from as int)),
        },
{
    let ghost t = v@.skip(from as int);
    if from == v.len() {
        return None;
    }
    let mut x: u128 = 0;
    let mut i: usize = from;
    proof {
        assert(t.take(0) =~= Seq::<char>::empty());
    }
    while i < v.len()
        invariant
            from <= i <= v@.len(),
            t == v@.skip(from as int),
            all_digits(t.take(i - from)),
            x == least(digits_value(t.take(i - from)), 0x1_0000_0000_0000_0000_0000),
        decreases v@.len() - i,
    {
        if !digit_at(v, i) {
            proof {
                assert(t[i - from] == v@[i as int]);
            }
            return None;
        }
        let d: u128 = char_digit(v[i]) as u128;
        proof {
            let now = t.take(i - from);
            let next = t.take(i - from + 1);
            assert(next.drop_last() =~= now);
            assert(next.last() == v@[i as int]);
            assert forall|j: int| 0 <= j < next.len() implies is_digit(#[trigger] next[j]) by {
                if j < now.len() {
                    assert(next[j] == now[j]);
                }
            }
        }
        let y: u128 = x * 10 + d;
        x = if y > 0x1_0000_0000_0000_0000_0000 {
            0x1_0000_0000_0000_0000_0000
        } else {
            y
        };
        i = i + 1;
    }
    proof {
        assert(t.take(v@.len() - from) =~= t);
    }
    Some(x)
}

fn tail(v: &Vec<char>, from: usize) -> (r: Vec<char>)
    requires
        from <= v@.len(),
    ensures
        r@ == v@.skip(from as int),
{
    let mut r: Vec<char> = Vec::new();
    let mut i: usize = from;
    while i < v.len()
        invariant
            from <= i <= v@.len(),
            r@ == v@.subrange(from as int, i as int),
        decreases v@.len() - i,
    {
        r.push(v[i]);
        i = i + 1;
    }
    r
}

/// A power of ten that fits a machine word.
fn small_tens(k: u32) -> (r: u64)
    requires
        k <= 19,
    ensures
        r == tens(k as nat),
        r > 0,
{
    proof {
        reveal_with_fuel(tens, 20);
    }
    let mut r: u64 = 1;
    let mut i: u32 = 0;
    while i < k
        invariant
            i <= k <= 19,
            r == tens(i as nat),
            r > 0,
        decreases k - i,
    {
        proof {
            reveal_with_fuel(tens, 20);
            assert(r <= 1_000_000_000_000_000_000);
            assert(tens((i + 1) as nat) == 10 * tens(i as nat));
        }
        r = r * 10;
        i = i + 1;
    }
    r
}

fn large_tens(mut v: Vec<u32>, k: u128) -> (r: Vec<u32>)
    ensures
        natural(r@) == natural(v@) * tens(k as nat),
{
    let ghost n0 = natural(v@);
    let mut i: u128 = 0;
    proof {
        assert(n0 * 1 == n0);
    }
    while i < k
        invariant
            i <= k,
            natural(v@) == n0 * tens(i as nat),
        decreases k - i,
    {
        multiply_add(&mut v, 10, 0);
        proof {
            let t = tens(i as nat);
            assert((n0 * t) * 10 == n0 * (10 * t)) by (nonlinear_arith);
        }
        i = i + 1;
    }
    v
}

/// The bit pattern nearest to `n * 10^e`; `e` stands for `exact`, or both lie far out on the
/// same side.
fn scaled_bits(
    l: Layout,
    neg: bool,
    n: &Vec<u32>,
    digits: usize,
    e: i128,
    Ghost(exact): Ghost<int>,
) -> (r: u64)
    requires
        l.valid(),
        natural(n@) < tens(digits as nat),
        e == exact || (e > 0x100_0000_0000_0000_0000 && exact > 0x100_0000_0000_0000_0000) || (e
            < -0x100_0000_0000_0000_0000 && exact < -0x100_0000_0000_0000_0000),
    ensures
        r < 2 * l.sign,
        decode(l.format(), r as nat) == scaled_decimal(l.format(), neg, natural(n@), exact),
{
    let ghost f = l.format();
    let ghost nn = natural(n@);
    let zero_vec: Vec<u32> = from_u64(0);
    if super::natural::subtract(&zero_vec, n).is_some() {
        proof {
            let t = tens(magnitude(exact));
            lemma_tens_pow2(magnitude(exact));
            lemma_pow2_pos(f.scale);
            let p = pow2(f.scale);
            assert(nn * t * p == 0) by (nonlinear_arith)
                requires
                    nn == 0,
            ;
            assert(nn * p == 0) by (nonlinear_arith)
                requires
                    nn == 0,
            ;
            lemma_nothing(f, neg, 1);
            lemma_nothing(f, neg, t);
        }
        return zero_bits(l, neg);
    }
    if e > 400 {
        proof {
            lemma_overflow(f, neg, nn, exact);
        }
        return inf_bits(l, neg);
    }
    if e < -(digits as i128 + 400) {
        proof {
            lemma_underflow(f, neg, nn, digits as nat, exact);
        }
        return zero_bits(l, neg);
    }
    proof {
        lemma_tens_pow2(magnitude(exact));
    }
    if let Some(x) = to_u64(n) {
        if -19 <= e && e <= 0 {
            let w = small_tens((-e) as u32);
            proof {
                assert(nn * 1 == nn);
            }
            return ratio_bits(l, neg, x, w);
        }
        if 0 < e && e <= 19 {
            let w = small_tens(e as u32);
            if x <= 0xffff_ffff_ffff_ffff / w {
                proof {
                    assert(x * w <= 0xffff_ffff_ffff_ffff) by (nonlinear_arith)
                        requires
                            w > 0,
                            x <= 0xffff_ffff_ffff_ffffu64 / w,
                    ;
                }
                return from_u64_bits(l, neg, x * w);
            }
        }
    }
    if e >= 0 {
        let up = large_tens(n.clone(), e as u128);
        let up = doubled(&up, l.scale);
        let one: Vec<u32> = from_u64(1);
        rational_bits(l, neg, &up, &one)
    } else {
        let up = doubled(n, l.scale);
        let one: Vec<u32> = from_u64(1);
        let down = large_tens(one, (-e) as u128);
        proof {
            assert(1 * tens((-e) as nat) == tens((-e) as nat));
        }
        rational_bits(l, neg, &up, &down)
    }
}

spec fn magnitude(e: int) -> nat {
    if e < 0 {
        (-e) as nat
    } else {
        e as nat
    }
}

/// The exponent that stands in `q`: its sign and its size, at most 2^80.
fn exponent(q: &Vec<char>) -> (r: Option<(bool, u128)>)
    ensures
        match r {
            Some((neg, x)) => match signed_value(q@) {
                Some(y) => x == least(magnitude(y), 0x1_0000_0000_0000_0000_0000) && (neg ==> y
                    <= 0) && (!neg ==> y >= 0),
                None => false,
            },
            None => signed_value(q@) is None,
        },
{
    proof {
        assert(q@.skip(0) =~= q@);
    }
    let neg = q.len() > 0 && q[0] == '-';
    let from: usize = if q.len() > 0 && (q[0] == '-' || q[0] == '+') {
        1
    } else {
        0
    };
    match capped_value(q, from) {
        Some(x) => Some((neg, x)),
        None => None,
    }
}

/// The bit pattern of a decimal number, or `None` where `t` is not one.
fn decimal_bits(l: Layout, neg: bool, t: &Vec<char>) -> (r: Option<u64>)
    requires
        l.valid(),
    ensures
        match r {
            Some(bits) => bits < 2 * l.sign && decimal_number(l.format(), neg, t@) == Some(
                decode(l.format(), bits as nat),
            ),
            None => decimal_number(l.format(), neg, t@) is None,
        },
{
    let a = run_end(t, 0);
    let dot = a < t.len() && t[a] == '.';
    let from: usize = if dot {
        a + 1
    } else {
        a
    };
    let end: usize = if dot {
        run_end(t, from)
    } else {
        a
    };
    if end == from && a == 0 {
        return None;
    }
    proof {
        lemma_digit_run_bounds(t@, 0);
        lemma_digit_run_bounds(t@, a as int);
        lemma_digit_run_bounds(t@, from as int);
    }
    let b: usize = end - from;
    let mut n: Vec<u32> = from_u64(0);
    read_digits(&mut n, t, 0, a);
    read_digits(&mut n, t, from, end);
    proof {
        let x = t@.take(a as int);
        let y = t@.subrange(from as int, end as int);
        assert(t@.subrange(0, a as int) =~= x);
        assert(0 * tens(a as nat) == 0);
        lemma_digits_bound(x);
        lemma_digits_bound(y);
        lemma_tens_adds(a as nat, b as nat);
        let dx = digits_value(x);
        let tb = tens(b as nat);
        assert(dx * tb + tb <= tens(a as nat) * tb) by (nonlinear_arith)
            requires
                dx + 1 <= tens(a as nat),
        ;
    }
    let digits: usize = a + b;
    if end == t.len() {
        return Some(scaled_bits(l, neg, &n, digits, -(b as i128), Ghost(-(b as int))));
    }
    if t[end] != 'e' && t[end] != 'E' {
        return None;
    }
    let q = tail(t, end + 1);
    match exponent(&q) {
        Some((down, x)) => {
            let e: i128 = if down {
                -(x as i128) - b as i128
            } else {
                x as i128 - b as i128
            };
            let ghost exact = signed_value(q@)->Some_0 - b;
            Some(scaled_bits(l, neg, &n, digits, e, Ghost(exact)))
        },
        None => None,
    }
}

/// The bit pattern of the number that a string denotes.
pub fn parse_bits(l: Layout, s: &str) -> (r: Option<u64>)
    requires
        l.valid(),
    ensures
        match r {
            Some(bits) => bits < 2 * l.sign && parse_number(l.format(), s@) == Some(
                decode(l.format(), bits as nat),
            ),
            None => parse_number(l.format(), s@) is None,
        },
{
    let v = chars_of(s);
    let neg = v.len() > 0 && v[0] == '-';
    let from: usize = if v.len() > 0 && (v[0] == '-' || v[0] == '+') {
        1
    } else {
        0
    };
    proof {
        assert(v@.skip(0) =~= v@);
    }
    if spells_at(&v, from, "inf") || spells_at(&v, from, "infinity") {
        return Some(inf_bits(l, neg));
    }
    if spells_at(&v, from, "nan") {
        return Some(nan_bits(l));
    }
    let t = tail(&v, from);
    decimal_bits(l, neg, &t)
}

} // verus!
