//! One sampling cycle, as the timer interrupt runs it.
//!
//! The hardware edge — triggering conversions and reading the counts —
//! stays with the caller; this module takes the raw counts and does the
//! rest of the cycle: filter, absorb into the window, convert, publish.

use vstd::prelude::*;

use crate::buffer::MovingAverageBuffer;
use crate::convert::{celsius_tenths_spec, convert, convert_sum, fahrenheit_tenths_spec};
use crate::filter::{all_in_adc_range, sum_seq, trimmed_mean, trimmed_mean_spec};
use crate::state::SharedTemperatureState;

verus! {

/// One cycle of the twelve-sample variant: the batch is reduced by the
/// outlier-trimmed average, the window absorbs the filtered value, and
/// the converted smoothed readings are published as one pair.
pub fn sampling_cycle(
    buf: &MovingAverageBuffer,
    state: &mut SharedTemperatureState,
    samples: &Vec<u16>,
) -> (r: MovingAverageBuffer)
    requires
        buf.wf(),
        samples@.len() == 12,
        all_in_adc_range(samples@),
    ensures
        r@ == buf@.drop_first().push(trimmed_mean_spec(samples@) as u16),
        r.wf(),
        r@.len() == buf@.len(),
        final(state)@.0 == celsius_tenths_spec((sum_seq(r@) / r@.len() as int) * 3300, 4096),
        final(state)@.1 == fahrenheit_tenths_spec((sum_seq(r@) / r@.len() as int) * 3300, 4096),
{
    let filtered: u16 = trimmed_mean(samples);
    let next = buf.push(filtered);
    let smoothed: u16 = next.average();
    let (celsius, fahrenheit) = convert(smoothed);
    state.publish(celsius, fahrenheit);
    next
}

/// One cycle of the single-sample variant: the raw count goes straight
/// into the five-slot window and the conversion keeps the fractional
/// precision of the division by five.
pub fn sampling_cycle_single(
    buf: &MovingAverageBuffer,
    state: &mut SharedTemperatureState,
    sample: u16,
) -> (r: MovingAverageBuffer)
    requires
        buf.wf(),
        buf@.len() == 5,
        sample < 4096,
    ensures
        r@ == buf@.drop_first().push(sample),
        r.wf(),
        r@.len() == 5,
        final(state)@.0 == celsius_tenths_spec(sum_seq(r@) * 660, 4096),
        final(state)@.1 == fahrenheit_tenths_spec(sum_seq(r@) * 660, 4096),
{
    let next = buf.push(sample);
    let total: u32 = next.sum();
    proof {
        crate::filter::lemma_sum_bounds(next@);
    }
    let (celsius, fahrenheit) = convert_sum(total);
    state.publish(celsius, fahrenheit);
    next
}

} // verus!
