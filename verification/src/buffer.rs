//! Fixed-capacity moving-average buffer.
//!
//! The buffer is a first-in-first-out window over the most recent
//! filtered samples: a push evicts the oldest slot and appends the new
//! value at the newest position. A fresh buffer starts with all slots
//! zero; the resulting cold-start bias is accepted, not corrected.

use vstd::prelude::*;

use crate::filter::{all_in_adc_range, sum_seq};

verus! {

/// A sequence of `n` zeroed slots.
pub open spec fn zeros(n: nat) -> Seq<u16> {
    Seq::new(n, |i: int| 0u16)
}

/// The contents after pushing `vals`, oldest-first eviction.
pub open spec fn push_all(s: Seq<u16>, vals: Seq<u16>) -> Seq<u16>
    decreases vals.len(),
{
    if vals.len() == 0 {
        s
    } else {
        push_all(s.drop_first().push(vals.first()), vals.drop_first())
    }
}

/// Fixed-capacity window of the most recent filtered samples.
pub struct MovingAverageBuffer {
    slots: Vec<u16>,
}

impl View for MovingAverageBuffer {
    type V = Seq<u16>;

    closed spec fn view(&self) -> Seq<u16> {
        self.slots@
    }
}

impl MovingAverageBuffer {
    /// Every slot fits the 12-bit sample range and the window is a
    /// usable size.
    pub open spec fn wf(&self) -> bool {
        &&& all_in_adc_range(self@)
        &&& 1 <= self@.len() <= 1024
    }

    /// A fresh buffer: `capacity` zeroed slots (cold start).
    pub fn new(capacity: usize) -> (r: Self)
        requires
            1 <= capacity <= 1024,
        ensures
            r@ == zeros(capacity as nat),
            r.wf(),
    {
        let mut slots: Vec<u16> = Vec::new();
        let mut i: usize = 0;
        while i < capacity
            invariant
                i <= capacity,
                slots@ == zeros(i as nat),
            decreases capacity - i,
        {
            slots.push(0u16);
            proof {
                assert(slots@ =~= zeros(i as nat + 1));
            }
            i = i + 1;
        }
        MovingAverageBuffer { slots }
    }

    /// Number of slots; fixed for the life of the buffer.
    pub fn capacity(&self) -> (r: usize)
        ensures
            r == self@.len(),
    {
        self.slots.len()
    }

    /// The slot at position `i`; position zero is the oldest.
    pub fn get(&self, i: usize) -> (r: u16)
        requires
            i < self@.len(),
        ensures
            r == self@[i as int],
    {
        self.slots[i]
    }

    /// FIFO push: evicts the oldest slot, appends the newest; returns
    /// the next buffer state.
    pub fn push(&self, val: u16) -> (r: Self)
        requires
            self.wf(),
            val < 4096,
        ensures
            r@ == self@.drop_first().push(val),
            r@ == push_all(self@, seq![val]),
            r.wf(),
            r@.len() == self@.len(),
    {
        let n: usize = self.slots.len();
        let mut next: Vec<u16> = Vec::new();
        let mut i: usize = 0;
        while i + 1 < n
            invariant
                i + 1 <= n,
                n == self@.len(),
                self.wf(),
                next@ == self@.subrange(1, i + 1),
            decreases n - i,
        {
            next.push(self.slots[i + 1]);
            proof {
                assert(next@ =~= self@.subrange(1, i + 2));
            }
            i = i + 1;
        }
        next.push(val);
        proof {
            assert(next@ =~= self@.drop_first().push(val));
            assert(push_all(self@, seq![val]) == push_all(
                self@.drop_first().push(val),
                seq![val].drop_first(),
            ));
            assert(seq![val].drop_first() =~= Seq::<u16>::empty());
        }
        MovingAverageBuffer { slots: next }
    }

    /// Sum of all slots; variant B feeds this to the converter to keep
    /// the fractional precision of its division by five.
    pub fn sum(&self) -> (r: u32)
        requires
            self.wf(),
        ensures
            r == sum_seq(self@),
    {
        crate::filter::sum_samples(&self.slots)
    }

    /// Smoothed value: the mean of all slots, truncated toward zero
    /// (exact for variant A, whose capacity is a power of two).
    pub fn average(&self) -> (r: u16)
        requires
            self.wf(),
        ensures
            r == sum_seq(self@) / self@.len() as int,
            r < 4096,
    {
        crate::filter::average(&self.slots)
    }
}

/// The window slides over the pushed stream: after the pushes the
/// contents are the matching slice of the initial slots followed by the
/// pushed values.
pub proof fn lemma_push_all_window(s: Seq<u16>, vals: Seq<u16>)
    requires
        s.len() >= 1,
    ensures
        push_all(s, vals) == (s + vals).subrange(vals.len() as int, vals.len() + s.len() as int),
    decreases vals.len(),
{
    if vals.len() == 0 {
        assert((s + vals).subrange(0, s.len() as int) =~= s);
    } else {
        let s1 = s.drop_first().push(vals.first());
        lemma_push_all_window(s1, vals.drop_first());
        assert(s1 + vals.drop_first() =~= (s + vals).subrange(1, (s + vals).len() as int));
        assert(push_all(s, vals) == (s1 + vals.drop_first()).subrange(
            vals.len() - 1,
            vals.len() - 1 + s.len(),
        ));
        assert((s1 + vals.drop_first()).subrange(vals.len() - 1, vals.len() - 1 + s.len()) =~= (s
            + vals).subrange(vals.len() as int, vals.len() + s.len() as int));
    }
}

/// Moving-average FIFO law: once at least `capacity` values have been
/// pushed into a `capacity`-slot buffer, the buffer holds exactly the
/// last `capacity` pushed values, in push order.
pub proof fn lemma_fifo_window(s: Seq<u16>, vals: Seq<u16>)
    requires
        s.len() >= 1,
        vals.len() >= s.len(),
    ensures
        push_all(s, vals) == vals.subrange(vals.len() - s.len(), vals.len() as int),
{
    lemma_push_all_window(s, vals);
    assert((s + vals).subrange(vals.len() as int, vals.len() + s.len() as int) =~= vals.subrange(
        vals.len() - s.len(),
        vals.len() as int,
    ));
}

/// A run of zeroed slots sums to zero.
proof fn lemma_sum_zeros(n: nat)
    ensures
        sum_seq(zeros(n)) == 0,
    decreases n,
{
    if n > 0 {
        lemma_sum_zeros((n - 1) as nat);
        assert(zeros(n).drop_last() =~= zeros((n - 1) as nat));
    }
}

/// Cold-start law: while the buffer is still filling, the unpopulated
/// slots are exactly the leading zeros and contribute nothing to the
/// sum the average is taken over.
pub proof fn lemma_cold_start(cap: nat, vals: Seq<u16>)
    requires
        1 <= cap,
        vals.len() <= cap,
    ensures
        push_all(zeros(cap), vals) == zeros((cap - vals.len()) as nat) + vals,
        sum_seq(push_all(zeros(cap), vals)) == sum_seq(vals),
{
    lemma_push_all_window(zeros(cap), vals);
    assert(push_all(zeros(cap), vals) =~= zeros((cap - vals.len()) as nat) + vals);
    crate::filter::lemma_sum_concat(zeros((cap - vals.len()) as nat), vals);
    lemma_sum_zeros((cap - vals.len()) as nat);
}

} // verus!
