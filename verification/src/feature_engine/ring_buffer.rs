//! The latest mid prices with running sums.

use crate::num::double::{double_int, seen_double};
use crate::num::model::{
    at_most, difference, double_format, finite_positive, product, quotient, sum, zero, Num,
};
use crate::num::Double;
use std::collections::VecDeque;
use vstd::prelude::*;

verus! {

/// The latest mid prices with their timestamps, their sum and the sum of their squares.
#[derive(Debug)]
pub struct RingBuffer {
    buf: VecDeque<(Double, i64)>,
    capacity: usize,
    min_samples: usize,
    sum: Double,
    sum_sq: Double,
}

#[verifier::ext_equal]
pub struct RingModel {
    /// Oldest first.
    pub samples: Seq<(Num, i64)>,
    pub capacity: nat,
    pub sum: Num,
    pub sum_sq: Num,
}

pub open spec fn empty_ring(capacity: nat) -> RingModel {
    RingModel { samples: Seq::empty(), capacity, sum: zero(), sum_sq: zero() }
}

impl RingModel {
    /// The least number of samples that makes the window full.
    pub open spec fn needed(self) -> nat {
        if self.capacity < 2 {
            2
        } else {
            self.capacity
        }
    }

    /// The capacity is kept.
    pub open spec fn valid(self) -> bool {
        self.samples.len() <= self.capacity
    }

    pub open spec fn ready(self) -> bool {
        self.samples.len() >= self.needed()
    }

    /// The oldest sample is dropped where the buffer is full.
    pub open spec fn trimmed(self) -> RingModel {
        if self.samples.len() == self.capacity && self.samples.len() > 0 {
            let gone = self.samples[0].0;
            let f = double_format();
            RingModel {
                samples: self.samples.drop_first(),
                sum: difference(f, self.sum, gone),
                sum_sq: difference(f, self.sum_sq, product(f, gone, gone)),
                ..self
            }
        } else {
            self
        }
    }

    /// A finite positive mid price is added; any other is ignored. A buffer of no capacity holds
    /// nothing.
    pub open spec fn pushed(self, mid: Num, ts: i64) -> RingModel {
        if finite_positive(mid) && self.capacity > 0 {
            let t = self.trimmed();
            let f = double_format();
            RingModel {
                samples: t.samples.push((mid, ts)),
                sum: sum(f, t.sum, mid),
                sum_sq: sum(f, t.sum_sq, product(f, mid, mid)),
                ..t
            }
        } else {
            self
        }
    }

    pub open spec fn mean(self) -> Option<Num> {
        let m = quotient(double_format(), self.sum, double_int(self.samples.len() as int));
        if self.samples.len() > 0 && self.sum is Fin && finite_positive(m) {
            Some(m)
        } else {
            None
        }
    }

    pub open spec fn var(self) -> Option<Num> {
        let f = double_format();
        let n = double_int(self.samples.len() as int);
        let m = quotient(f, self.sum, n);
        let v = difference(f, quotient(f, self.sum_sq, n), product(f, m, m));
        if self.samples.len() >= 2 && self.sum is Fin && self.sum_sq is Fin && v is Fin && at_most(
            zero(),
            v,
        ) {
            Some(v)
        } else {
            None
        }
    }
}

/// The view of an optional sample.
pub open spec fn seen_sample(x: Option<(Double, i64)>) -> Option<(Num, i64)> {
    match x {
        Some(v) => Some((v.0@, v.1)),
        None => None,
    }
}

impl View for RingBuffer {
    type V = RingModel;

    closed spec fn view(&self) -> RingModel {
        RingModel {
            samples: self.buf@.map_values(|p: (Double, i64)| (p.0@, p.1)),
            capacity: self.capacity as nat,
            sum: self.sum@,
            sum_sq: self.sum_sq@,
        }
    }
}

impl RingBuffer {
    #[verifier::type_invariant]
    spec fn inv(self) -> bool {
        &&& self.min_samples == if self.capacity < 2 {
            2
        } else {
            self.capacity
        }
        &&& self.buf@.len() <= self.capacity
    }

    /// An empty buffer.
    pub fn new(capacity: usize) -> (r: Self)
        ensures
            r@ == empty_ring(capacity as nat),
    {
        let buf: VecDeque<(Double, i64)> = VecDeque::new();
        let min_samples: usize = if capacity < 2 {
            2
        } else {
            capacity
        };
        let r = RingBuffer {
            buf,
            capacity,
            min_samples,
            sum: Double::zero(),
            sum_sq: Double::zero(),
        };
        proof {
            assert(r@.samples =~= Seq::<(Num, i64)>::empty());
        }
        r
    }

    /// Adds a mid price, dropping the oldest at capacity; ignores one that is not finite and
    /// positive. With no capacity nothing is held.
    pub fn push(&mut self, mid: Double, ts: i64)
        ensures
            final(self)@ == old(self)@.pushed(mid@, ts),
    {
        proof {
            use_type_invariant(&*self);
        }
        if !mid.is_finite_positive() || self.capacity == 0 {
            return;
        }
        let ghost before = self@;
        let mut buf: VecDeque<(Double, i64)> = VecDeque::new();
        std::mem::swap(&mut buf, &mut self.buf);
        let ghost held = buf@;
        let mut sum = self.sum;
        let mut sum_sq = self.sum_sq;
        if buf.len() == self.capacity {
            if let Some((gone, _)) = buf.pop_front() {
                sum = sum.minus(gone);
                sum_sq = sum_sq.minus(gone.times(gone));
            }
        }
        let ghost kept = buf@;
        sum = sum.plus(mid);
        sum_sq = sum_sq.plus(mid.times(mid));
        buf.push_back((mid, ts));
        proof {
            let seen = |p: (Double, i64)| (p.0@, p.1);
            assert(before.samples == held.map_values(seen));
            assert(before.trimmed().samples =~= kept.map_values(seen));
            assert(buf@.map_values(seen) =~= kept.map_values(seen).push((mid@, ts)));
        }
        self.sum = sum;
        self.sum_sq = sum_sq;
        self.buf = buf;
    }

    /// Whether the window is full.
    pub fn is_ready(&self) -> (r: bool)
        ensures
            r == self@.ready(),
    {
        proof {
            use_type_invariant(&*self);
        }
        self.buf.len() >= self.min_samples
    }

    pub fn len(&self) -> (r: usize)
        ensures
            r == self@.samples.len(),
    {
        self.buf.len()
    }

    pub fn is_empty(&self) -> (r: bool)
        ensures
            r == (self@.samples.len() == 0),
    {
        self.buf.len() == 0
    }

    /// The oldest sample.
    pub fn first(&self) -> (r: Option<(Double, i64)>)
        ensures
            seen_sample(r) == if self@.samples.len() > 0 {
                Some(self@.samples[0])
            } else {
                None
            },
    {
        if self.buf.len() == 0 {
            None
        } else {
            Some(self.buf[0])
        }
    }

    /// The newest sample.
    pub fn last(&self) -> (r: Option<(Double, i64)>)
        ensures
            seen_sample(r) == if self@.samples.len() > 0 {
                Some(self@.samples.last())
            } else {
                None
            },
    {
        let n: usize = self.buf.len();
        if n == 0 {
            None
        } else {
            Some(self.buf[n - 1])
        }
    }

    /// The mid price before the newest.
    pub fn prev_mid(&self) -> (r: Option<Double>)
        ensures
            seen_double(r) == if self@.samples.len() >= 2 {
                Some(self@.samples[self@.samples.len() - 2].0)
            } else {
                None
            },
    {
        let n: usize = self.buf.len();
        if n >= 2 {
            Some(self.buf[n - 2].0)
        } else {
            None
        }
    }

    /// Mean of the window.
    pub fn mean(&self) -> (r: Option<Double>)
        ensures
            seen_double(r) == self@.mean(),
    {
        let n: usize = self.buf.len();
        if n == 0 || !self.sum.is_finite() {
            return None;
        }
        let m = self.sum.over(Double::from_unsigned(n as u64));
        if m.is_finite_positive() {
            Some(m)
        } else {
            None
        }
    }

    /// Population variance of the window.
    pub fn var(&self) -> (r: Option<Double>)
        ensures
            seen_double(r) == self@.var(),
    {
        let n: usize = self.buf.len();
        if n < 2 || !self.sum.is_finite() || !self.sum_sq.is_finite() {
            return None;
        }
        let count = Double::from_unsigned(n as u64);
        let m = self.sum.over(count);
        let v = self.sum_sq.over(count).minus(m.times(m));
        if v.is_finite() && Double::zero().within(v) {
            Some(v)
        } else {
            None
        }
    }
}

/// The buffer after a sequence of pushes.
pub open spec fn after_pushes(capacity: nat, ticks: Seq<(Num, i64)>) -> RingModel
    decreases ticks.len(),
{
    if ticks.len() == 0 {
        empty_ring(capacity)
    } else {
        after_pushes(capacity, ticks.drop_last()).pushed(ticks.last().0, ticks.last().1)
    }
}

/// The ticks whose mid price is finite and positive.
pub open spec fn accepted(ticks: Seq<(Num, i64)>) -> Seq<(Num, i64)>
    decreases ticks.len(),
{
    if ticks.len() == 0 {
        Seq::empty()
    } else if finite_positive(ticks.last().0) {
        accepted(ticks.drop_last()).push(ticks.last())
    } else {
        accepted(ticks.drop_last())
    }
}

/// The last `n` elements, or all of them.
pub open spec fn latest<T>(s: Seq<T>, n: nat) -> Seq<T> {
    if s.len() <= n {
        s
    } else {
        s.skip(s.len() - n)
    }
}

/// The buffer holds the latest `capacity` accepted ticks in their order, so it is ready exactly
/// from the `capacity`-th accepted tick on (with a capacity of two or more). It never holds more
/// than its capacity.
pub proof fn law_ring_holds_latest(capacity: nat, ticks: Seq<(Num, i64)>)
    ensures
        after_pushes(capacity, ticks).samples == latest(accepted(ticks), capacity),
        after_pushes(capacity, ticks).capacity == capacity,
        after_pushes(capacity, ticks).valid(),
        capacity >= 2 ==> (after_pushes(capacity, ticks).ready() <==> accepted(ticks).len()
            >= capacity),
    decreases ticks.len(),
{
    if ticks.len() > 0 {
        let before = ticks.drop_last();
        law_ring_holds_latest(capacity, before);
        let ring = after_pushes(capacity, before);
        let last = ticks.last();
        if finite_positive(last.0) {
            assert(capacity == 0 ==> latest(accepted(ticks), capacity).len() == 0);
            assert(after_pushes(capacity, ticks).samples =~= latest(accepted(ticks), capacity));
        }
    } else {
        assert(after_pushes(capacity, ticks).samples =~= latest(accepted(ticks), capacity));
    }
}

/// A finite positive mid price adds itself and its square to the sums; at capacity the oldest
/// leaves them first. Mean and variance come from the sums and the number of samples.
pub proof fn law_sums_follow_the_samples(r: RingModel, mid: Num, ts: i64)
    requires
        finite_positive(mid),
        r.capacity > 0,
        r.samples.len() <= r.capacity,
    ensures
        ({
            let f = double_format();
            let after = r.pushed(mid, ts);
            let square = product(f, mid, mid);
            let full = r.samples.len() == r.capacity;
            let old = r.samples[0].0;
            &&& after.samples.last() == (mid, ts)
            &&& after.samples.len() == if full {
                r.samples.len()
            } else {
                r.samples.len() + 1
            }
            &&& !full ==> after.sum == sum(f, r.sum, mid) && after.sum_sq == sum(
                f,
                r.sum_sq,
                square,
            )
            &&& full ==> after.sum == sum(f, difference(f, r.sum, old), mid) && after.sum_sq == sum(
                f,
                difference(f, r.sum_sq, product(f, old, old)),
                square,
            )
        }),
        r.samples.len() > 0 && r.sum is Fin ==> {
            let m = quotient(double_format(), r.sum, double_int(r.samples.len() as int));
            r.mean() == if finite_positive(m) {
                Some(m)
            } else {
                None
            }
        },
        r.samples.len() < 2 ==> r.var() is None,
        r.var() matches Some(v) ==> {
            let f = double_format();
            let n = double_int(r.samples.len() as int);
            let m = quotient(f, r.sum, n);
            v is Fin && at_most(zero(), v) && v == difference(
                f,
                quotient(f, r.sum_sq, n),
                product(f, m, m),
            )
        },
{
}

} // verus!
