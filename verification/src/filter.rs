//! Outlier-trimmed averaging of raw sample batches.
//!
//! A batch of twelve raw counts is sorted ascending, the two smallest and
//! two largest are discarded, and the remaining eight are averaged with
//! truncating division.

use vstd::prelude::*;

verus! {

/// Ascending order on raw samples.
pub open spec fn sample_le() -> spec_fn(u16, u16) -> bool {
    |x: u16, y: u16| x <= y
}

/// The sample order is a total ordering, as the sorting lemmas need.
pub proof fn lemma_sample_le_total_ordering()
    ensures
        vstd::relations::total_ordering(sample_le()),
{
    let leq = sample_le();
    assert forall|x: u16, y: u16| #[trigger] leq(x, y) || #[trigger] leq(y, x) by {}
    assert forall|x: u16| #[trigger] leq(x, x) by {}
    assert forall|x: u16, y: u16| #[trigger] leq(x, y) && #[trigger] leq(y, x) implies x == y by {}
    assert forall|x: u16, y: u16, z: u16|
        #[trigger] leq(x, y) && #[trigger] leq(y, z) implies leq(x, z) by {}
}

/// Sum of a sequence of samples as a mathematical integer.
pub open spec fn sum_seq(s: Seq<u16>) -> int
    decreases s.len(),
{
    if s.len() == 0 {
        0
    } else {
        sum_seq(s.drop_last()) + s.last()
    }
}

/// Every value fits the 12-bit conversion range.
pub open spec fn all_in_adc_range(s: Seq<u16>) -> bool {
    forall|i: int| 0 <= i < s.len() ==> s[i] < 4096
}

/// A sum of in-range samples is non-negative and at most 4095 per slot.
pub proof fn lemma_sum_bounds(s: Seq<u16>)
    ensures
        0 <= sum_seq(s),
        all_in_adc_range(s) ==> sum_seq(s) <= 4095 * s.len(),
    decreases s.len(),
{
    if s.len() > 0 {
        lemma_sum_bounds(s.drop_last());
        if all_in_adc_range(s) {
            assert(all_in_adc_range(s.drop_last()));
        }
    }
}

/// Summation distributes over concatenation.
pub proof fn lemma_sum_concat(a: Seq<u16>, b: Seq<u16>)
    ensures
        sum_seq(a + b) == sum_seq(a) + sum_seq(b),
    decreases b.len(),
{
    if b.len() == 0 {
        assert(a + b =~= a);
    } else {
        lemma_sum_concat(a, b.drop_last());
        assert((a + b).drop_last() =~= a + b.drop_last());
        assert((a + b).last() == b.last());
    }
}

/// Sum of all slots of the vector.
pub fn sum_samples(buf: &Vec<u16>) -> (r: u32)
    requires
        all_in_adc_range(buf@),
        buf@.len() <= 1024,
    ensures
        r == sum_seq(buf@),
{
    let n: usize = buf.len();
    let mut total: u32 = 0;
    let mut i: usize = 0;
    while i < n
        invariant
            i <= n,
            n == buf@.len(),
            n <= 1024,
            all_in_adc_range(buf@),
            total == sum_seq(buf@.subrange(0, i as int)),
            total <= 4095 * i,
        decreases n - i,
    {
        proof {
            assert(buf@.subrange(0, i + 1).drop_last() =~= buf@.subrange(0, i as int));
        }
        total = total + buf[i] as u32;
        i = i + 1;
    }
    proof {
        assert(buf@.subrange(0, n as int) =~= buf@);
    }
    total
}

/// Mean of all slots, truncated toward zero.
pub fn average(buf: &Vec<u16>) -> (r: u16)
    requires
        all_in_adc_range(buf@),
        0 < buf@.len() <= 1024,
    ensures
        r == sum_seq(buf@) / buf@.len() as int,
        r < 4096,
{
    let total = sum_samples(buf);
    let n: u32 = buf.len() as u32;
    let avg: u32 = total / n;
    proof {
        lemma_sum_bounds(buf@);
        vstd::arithmetic::div_mod::lemma_div_is_ordered(total as int, 4095 * n, n as int);
        vstd::arithmetic::div_mod::lemma_div_by_multiple(4095, n as int);
    }
    avg as u16
}

/// Sorts the samples ascending; the result is the mathematical
/// `sort_by` of the original contents.
pub fn sort(arr: &mut Vec<u16>)
    ensures
        final(arr)@ == old(arr)@.sort_by(sample_le()),
{
    let ghost orig: Seq<u16> = arr@;
    let n: usize = arr.len();
    let mut i: usize = 0;
    while i < n
        invariant
            i <= n,
            n == arr@.len(),
            arr@.to_multiset() == orig.to_multiset(),
            forall|k: int, l: int|
                0 <= k < l < n && n - i <= l ==> #[trigger] arr@[k] <= #[trigger] arr@[l],
        decreases n - i,
    {
        let mut j: usize = 0;
        while j + 1 < n - i
            invariant
                i < n,
                n == arr@.len(),
                j + 1 <= n - i,
                arr@.to_multiset() == orig.to_multiset(),
                forall|k: int, l: int|
                    0 <= k < l < n && n - i <= l ==> #[trigger] arr@[k] <= #[trigger] arr@[l],
                forall|k: int| 0 <= k <= j ==> #[trigger] arr@[k] <= arr@[j as int],
            decreases n - i - j,
        {
            let ghost before = arr@;
            if arr[j] > arr[j + 1] {
                let a: u16 = arr[j];
                let b: u16 = arr[j + 1];
                arr[j] = b;
                arr[j + 1] = a;
                proof {
                    broadcast use vstd::multiset::group_multiset_axioms;
                    broadcast use vstd::seq_lib::group_to_multiset_ensures;

                    assert(arr@ =~= before.update(j as int, b).update(j + 1, a));
                    assert(before[j as int] == a);
                    assert(before.contains(a));
                    vstd::seq_lib::to_multiset_update(before, j as int, b);
                    vstd::seq_lib::to_multiset_update(before.update(j as int, b), j + 1, a);
                    assert(arr@.to_multiset() =~= before.to_multiset());
                }
            }
            proof {
                assert forall|k: int| 0 <= k <= j + 1 implies #[trigger] arr@[k] <= arr@[j
                    + 1] by {
                    if k <= j {
                        assert(before[k] <= before[j as int]);
                    }
                }
            }
            j = j + 1;
        }
        i = i + 1;
    }
    proof {
        let leq = sample_le();
        assert(vstd::relations::sorted_by(arr@, leq)) by {
            assert forall|p: int, q: int| 0 <= p < q < arr@.len() implies #[trigger] leq(
                arr@[p],
                arr@[q],
            ) by {
                assert(arr@[p] <= arr@[q]);
            }
        }
        lemma_sample_le_total_ordering();
        orig.lemma_sort_by_ensures(leq);
        vstd::seq_lib::lemma_sorted_unique(arr@, orig.sort_by(leq), leq);
        assert(arr@ =~= orig.sort_by(leq));
    }
}

/// Trimmed mean of a twelve-sample batch: the batch sorted ascending,
/// the two smallest and two largest discarded, the remaining eight
/// averaged with truncating division.
pub open spec fn trimmed_mean_spec(s: Seq<u16>) -> int {
    sum_seq(s.sort_by(sample_le()).subrange(2, 10)) / 8
}

/// Elements of the sorted batch stay within the range of the batch.
proof fn lemma_sort_by_preserves_range(s: Seq<u16>)
    requires
        all_in_adc_range(s),
    ensures
        all_in_adc_range(s.sort_by(sample_le())),
{
    let sorted = s.sort_by(sample_le());
    s.lemma_sort_by_ensures(sample_le());
    assert forall|i: int| 0 <= i < sorted.len() implies sorted[i] < 4096 by {
        assert(sorted.contains(sorted[i]));
        assert(s.contains(sorted[i]));
    }
}

/// Filters one batch of twelve raw samples into a single value.
pub fn trimmed_mean(samples: &Vec<u16>) -> (r: u16)
    requires
        samples@.len() == 12,
        all_in_adc_range(samples@),
    ensures
        r == trimmed_mean_spec(samples@),
        r < 4096,
{
    let mut batch: Vec<u16> = Vec::new();
    let mut k: usize = 0;
    while k < 12
        invariant
            k <= 12,
            samples@.len() == 12,
            batch@ == samples@.subrange(0, k as int),
        decreases 12 - k,
    {
        batch.push(samples[k]);
        proof {
            assert(batch@ =~= samples@.subrange(0, k + 1));
        }
        k = k + 1;
    }
    proof {
        assert(batch@ =~= samples@);
    }
    sort(&mut batch);
    proof {
        broadcast use vstd::seq_lib::group_to_multiset_ensures;

        lemma_sort_by_preserves_range(samples@);
        samples@.lemma_sort_by_ensures(sample_le());
        assert(batch@.to_multiset().len() == samples@.to_multiset().len());
        assert(batch@.len() == 12);
    }
    let mut trimmed: Vec<u16> = Vec::new();
    proof {
        assert(trimmed@ =~= batch@.subrange(2, 2));
    }
    let mut t: usize = 0;
    while t < 8
        invariant
            t <= 8,
            batch@ == samples@.sort_by(sample_le()),
            batch@.len() == 12,
            all_in_adc_range(batch@),
            trimmed@ == batch@.subrange(2, 2 + t),
        decreases 8 - t,
    {
        trimmed.push(batch[t + 2]);
        proof {
            assert(trimmed@ =~= batch@.subrange(2, 2 + t + 1));
        }
        t = t + 1;
    }
    proof {
        assert(all_in_adc_range(trimmed@));
    }
    average(&trimmed)
}

/// Trim-mean correctness: the filtered value depends only on which
/// samples were taken, never on the order the batch arrived in.
pub proof fn lemma_trimmed_mean_order_independent(a: Seq<u16>, b: Seq<u16>)
    requires
        a.to_multiset() == b.to_multiset(),
    ensures
        trimmed_mean_spec(a) == trimmed_mean_spec(b),
{
    let leq = sample_le();
    lemma_sample_le_total_ordering();
    a.lemma_sort_by_ensures(leq);
    b.lemma_sort_by_ensures(leq);
    vstd::seq_lib::lemma_sorted_unique(a.sort_by(leq), b.sort_by(leq), leq);
}

} // verus!
