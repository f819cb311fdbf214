//! Natural numbers of any size, as little-endian limbs.

use vstd::arithmetic::power2::{lemma_pow2_adds, lemma_pow2_pos, pow2};
use vstd::prelude::*;

verus! {

pub open spec fn limb(v: Seq<u32>, j: int) -> nat {
    if 0 <= j < v.len() {
        v[j] as nat
    } else {
        0
    }
}

/// The weight of limb `i`.
pub open spec fn weight(i: nat) -> nat {
    pow2(32 * i)
}

/// The value of the lowest `i` limbs.
pub open spec fn low(v: Seq<u32>, i: nat) -> nat
    decreases i,
{
    if i == 0 {
        0
    } else {
        low(v, (i - 1) as nat) + limb(v, i - 1) * weight((i - 1) as nat)
    }
}

/// The number that the limbs stand for.
pub open spec fn natural(v: Seq<u32>) -> nat {
    low(v, v.len())
}

proof fn lemma_weight_step(i: nat)
    ensures
        weight(i + 1) == weight(i) * 0x1_0000_0000,
        weight(i) > 0,
        weight(0) == 1,
{
    vstd::arithmetic::power2::lemma2_to64();
    assert(32 * (i + 1) == 32 * i + 32);
    lemma_pow2_adds(32 * i, 32);
    lemma_pow2_pos(32 * i);
}

proof fn lemma_low_prefix(v: Seq<u32>, w: Seq<u32>, i: nat)
    requires
        forall|j: int| 0 <= j < i ==> limb(v, j) == #[trigger] limb(w, j),
    ensures
        low(v, i) == low(w, i),
    decreases i,
{
    if i > 0 {
        lemma_low_prefix(v, w, (i - 1) as nat);
        assert(limb(v, i - 1) == limb(w, i - 1));
    }
}

proof fn lemma_low_beyond(v: Seq<u32>, i: nat)
    requires
        i >= v.len(),
    ensures
        low(v, i) == natural(v),
    decreases i,
{
    if i > v.len() {
        lemma_low_beyond(v, (i - 1) as nat);
        assert(0 * weight((i - 1) as nat) == 0) by (nonlinear_arith);
    }
}

/// The limbs of a 64-bit integer.
pub fn from_u64(x: u64) -> (v: Vec<u32>)
    ensures
        natural(v@) == x,
{
    let lo: u32 = (x % 0x1_0000_0000) as u32;
    let hi: u32 = (x / 0x1_0000_0000) as u32;
    let mut v: Vec<u32> = Vec::new();
    v.push(lo);
    v.push(hi);
    proof {
        lemma_weight_step(0);
        reveal_with_fuel(low, 3);
        assert(low(v@, 2) == low(v@, 1) + hi * weight(1));
        assert(low(v@, 1) == low(v@, 0) + lo * weight(0));
    }
    v
}

/// Replaces `v` by `v * m + c`.
pub fn multiply_add(v: &mut Vec<u32>, m: u32, c: u32)
    ensures
        natural(final(v)@) == natural(old(v)@) * m + c,
{
    let ghost orig = v@;
    let len = v.len();
    let mut carry: u64 = c as u64;
    let mut i: usize = 0;
    proof {
        lemma_weight_step(0);
        assert(0 * m as nat == 0);
    }
    while i < len
        invariant
            i <= len,
            len == orig.len(),
            v@.len() == len,
            carry <= 0xffff_ffff,
            forall|j: int| i <= j < len ==> v@[j] == orig[j],
            low(v@, i as nat) + carry * weight(i as nat) == low(orig, i as nat) * m + c,
        decreases len - i,
    {
        let ghost before = v@;
        let ghost x = v@[i as int];
        proof {
            assert(x as int * m as int + carry <= 0xffff_ffff * 0x1_0000_0000) by (nonlinear_arith)
                requires
                    0 <= x <= 0xffff_ffff,
                    0 <= m <= 0xffff_ffff,
                    carry <= 0xffff_ffff,
            ;
            assert(x as int * m as int >= 0) by (nonlinear_arith);
        }
        let t: u64 = v[i] as u64 * m as u64 + carry;
        let lo: u32 = (t % 0x1_0000_0000) as u32;
        let next: u64 = t / 0x1_0000_0000;
        v.set(i, lo);
        proof {
            lemma_weight_step(i as nat);
            let w = weight(i as nat);
            lemma_low_prefix(before, v@, i as nat);
            assert(low(v@, (i + 1) as nat) == low(v@, i as nat) + lo * w);
            assert(low(orig, (i + 1) as nat) == low(orig, i as nat) + x * w);
            assert((low(orig, i as nat) + x * w) * m == low(orig, i as nat) * m + (x * m) * w)
                by (nonlinear_arith);
            assert(lo * w + next * (w * 0x1_0000_0000) == t * w) by (nonlinear_arith)
                requires
                    t == next * 0x1_0000_0000 + lo,
            ;
            assert(t * w == (x * m) * w + carry * w) by (nonlinear_arith)
                requires
                    t == x * m + carry,
            ;
        }
        carry = next;
        i = i + 1;
    }
    let ghost done = v@;
    if carry == 0 {
        proof {
            assert(0 * weight(len as nat) == 0);
        }
        return;
    }
    v.push(carry as u32);
    proof {
        lemma_low_prefix(done, v@, len as nat);
        assert(natural(v@) == low(v@, len as nat) + carry * weight(len as nat));
    }
}

/// `a - b`, or `None` when `b` is larger.
pub fn subtract(a: &Vec<u32>, b: &Vec<u32>) -> (r: Option<Vec<u32>>)
    ensures
        match r {
            Some(d) => natural(a@) >= natural(b@) && natural(d@) == natural(a@) - natural(b@),
            None => natural(a@) < natural(b@),
        },
{
    let len: usize = if a.len() >= b.len() {
        a.len()
    } else {
        b.len()
    };
    let mut d: Vec<u32> = Vec::new();
    let mut borrow: u64 = 0;
    let mut i: usize = 0;
    proof {
        lemma_weight_step(0);
    }
    while i < len
        invariant
            i <= len,
            len >= a@.len(),
            len >= b@.len(),
            d@.len() == i,
            borrow <= 1,
            low(d@, i as nat) + low(b@, i as nat) == low(a@, i as nat) + borrow * weight(i as nat),
            low(d@, i as nat) < weight(i as nat),
        decreases len - i,
    {
        let x: u64 = if i < a.len() {
            a[i] as u64
        } else {
            0
        };
        let y: u64 = if i < b.len() {
            b[i] as u64
        } else {
            0
        };
        let t: u64 = 0x1_0000_0000 + x - y - borrow;
        let digit: u64 = t % 0x1_0000_0000;
        let next: u64 = if t >= 0x1_0000_0000 {
            0
        } else {
            1
        };
        let ghost before = d@;
        d.push(digit as u32);
        proof {
            lemma_weight_step(i as nat);
            let w = weight(i as nat);
            lemma_low_prefix(before, d@, i as nat);
            assert(digit * w + y * w + borrow * w == x * w + next * (w * 0x1_0000_0000)) by (nonlinear_arith)
                requires
                    digit + y + borrow == x + next * 0x1_0000_0000,
            ;
            assert(digit * w <= 0xffff_ffff * w) by (nonlinear_arith)
                requires
                    digit <= 0xffff_ffff,
            ;
        }
        borrow = next;
        i = i + 1;
    }
    proof {
        lemma_low_beyond(a@, len as nat);
        lemma_low_beyond(b@, len as nat);
        lemma_weight_step(len as nat);
        assert(0 * weight(len as nat) == 0 && 1 * weight(len as nat) == weight(len as nat));
    }
    if borrow == 0 {
        Some(d)
    } else {
        None
    }
}

/// The number as a machine word, where it takes at most two limbs.
pub fn to_u64(v: &Vec<u32>) -> (r: Option<u64>)
    ensures
        r matches Some(x) ==> x == natural(v@),
        v@.len() == 2 ==> r is Some,
{
    if v.len() != 2 {
        return None;
    }
    let lo: u64 = v[0] as u64;
    let hi: u64 = v[1] as u64;
    proof {
        lemma_weight_step(0);
        reveal_with_fuel(low, 3);
        assert(low(v@, 2) == low(v@, 1) + hi * weight(1));
        assert(low(v@, 1) == low(v@, 0) + lo * weight(0));
    }
    Some(hi * 0x1_0000_0000 + lo)
}

} // verus!
