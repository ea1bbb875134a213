//! Conversion of a smoothed 12-bit count to tenths of a degree.
//!
//! Millivolts are `count * 3300 / 4096` against a 3.3 V reference; the
//! sensor reads 10 mV per degree Celsius with a 500 mV offset;
//! Fahrenheit is `celsius * 9 / 5 + 32`. Both results are scaled by ten
//! and truncated toward zero, exactly as the real-valued formula would
//! be at the final cast. No clamping: out-of-range counts give
//! out-of-range tenths without error signalling.

use vstd::prelude::*;

verus! {

/// Division truncating toward zero, for a positive divisor.
pub open spec fn div_trunc(a: int, b: int) -> int {
    if a >= 0 {
        a / b
    } else {
        -((-a) / b)
    }
}

/// Celsius tenths for a millivolt reading given as `num / den`.
pub open spec fn celsius_tenths_spec(num: int, den: int) -> int {
    div_trunc(num - 500 * den, den)
}

/// Fahrenheit tenths for the same millivolt reading: the truncation
/// applies to the complete value `(mv - 500) * 9 / 5 + 320`, offset
/// included, as the final cast of the real-valued formula would.
pub open spec fn fahrenheit_tenths_spec(num: int, den: int) -> int {
    div_trunc((num - 500 * den) * 9 + 1600 * den, 5 * den)
}

/// Converts a smoothed count (variant with the eight-slot buffer, whose
/// average is already truncated to a whole count).
pub fn convert(smoothed: u16) -> (r: (i16, i16))
    requires
        smoothed < 4096,
    ensures
        r.0 == celsius_tenths_spec(smoothed * 3300, 4096),
        r.1 == fahrenheit_tenths_spec(smoothed * 3300, 4096),
{
    let num: u32 = (smoothed as u32) * 3300;
    let celsius: i16;
    let fahrenheit: i16;
    if num >= 2048000 {
        let d: u32 = num - 2048000;
        celsius = (d / 4096) as i16;
        fahrenheit = ((d * 9 + 6553600) / 20480) as i16;
    } else {
        let d: u32 = 2048000 - num;
        celsius = -((d / 4096) as i16);
        if d * 9 <= 6553600 {
            fahrenheit = ((6553600 - d * 9) / 20480) as i16;
        } else {
            fahrenheit = -(((d * 9 - 6553600) / 20480) as i16);
        }
    }
    (celsius, fahrenheit)
}

/// Converts the slot sum of the five-slot buffer without first
/// truncating the average: millivolts are `sum / 5 * 3300 / 4096`,
/// which is `sum * 660 / 4096` exactly.
pub fn convert_sum(sum: u32) -> (r: (i16, i16))
    requires
        sum <= 20475,
    ensures
        r.0 == celsius_tenths_spec(sum * 660, 4096),
        r.1 == fahrenheit_tenths_spec(sum * 660, 4096),
{
    let num: u32 = sum * 660;
    let celsius: i16;
    let fahrenheit: i16;
    if num >= 2048000 {
        let d: u32 = num - 2048000;
        celsius = (d / 4096) as i16;
        fahrenheit = ((d * 9 + 6553600) / 20480) as i16;
    } else {
        let d: u32 = 2048000 - num;
        celsius = -((d / 4096) as i16);
        if d * 9 <= 6553600 {
            fahrenheit = ((6553600 - d * 9) / 20480) as i16;
        } else {
            fahrenheit = -(((d * 9 - 6553600) / 20480) as i16);
        }
    }
    (celsius, fahrenheit)
}

/// The sensor transfer function from a whole millivolt reading:
/// Celsius tenths are `mv - 500`; Fahrenheit tenths follow the
/// nine-fifths rule, truncated toward zero.
pub fn convert_millivolts(mv: u16) -> (r: (i16, i16))
    requires
        mv <= 4000,
    ensures
        r.0 == celsius_tenths_spec(mv as int, 1),
        r.1 == fahrenheit_tenths_spec(mv as int, 1),
{
    let celsius: i16;
    let fahrenheit: i16;
    if mv >= 500 {
        let d: u16 = mv - 500;
        celsius = d as i16;
        fahrenheit = ((d as u32 * 9 + 1600) / 5) as i16;
    } else {
        let d: u16 = 500 - mv;
        celsius = -(d as i16);
        if d as u32 * 9 <= 1600 {
            fahrenheit = ((1600 - d as u32 * 9) / 5) as i16;
        } else {
            fahrenheit = -(((d as u32 * 9 - 1600) / 5) as i16);
        }
    }
    (celsius, fahrenheit)
}

/// Round-trip sanity: a reading of exactly 500 mV converts to 0.0 °C
/// (32.0 °F) and a reading of exactly 600 mV converts to 10.0 °C
/// (50.0 °F), whatever denominator represents the reading.
pub proof fn lemma_conversion_round_trip(den: int)
    requires
        den > 0,
    ensures
        celsius_tenths_spec(500 * den, den) == 0,
        fahrenheit_tenths_spec(500 * den, den) == 320,
        celsius_tenths_spec(600 * den, den) == 100,
        fahrenheit_tenths_spec(600 * den, den) == 500,
{
    vstd::arithmetic::div_mod::lemma_div_basics(den);
    assert(celsius_tenths_spec(500 * den, den) == 0);

    assert(600 * den - 500 * den == 100 * den) by (nonlinear_arith);
    vstd::arithmetic::div_mod::lemma_div_multiples_vanish(100, den);
    assert(celsius_tenths_spec(600 * den, den) == (den * 100) / den) by {
        assert(100 * den == den * 100) by (nonlinear_arith);
    }

    assert((500 * den - 500 * den) * 9 + 1600 * den == (5 * den) * 320) by (nonlinear_arith);
    assert((5 * den) * 320 >= 0) by (nonlinear_arith)
        requires
            den > 0,
    ;
    vstd::arithmetic::div_mod::lemma_div_multiples_vanish(320, 5 * den);
    assert(fahrenheit_tenths_spec(500 * den, den) == 320);

    assert((600 * den - 500 * den) * 9 + 1600 * den == (5 * den) * 500) by (nonlinear_arith);
    assert((5 * den) * 500 >= 0) by (nonlinear_arith)
        requires
            den > 0,
    ;
    vstd::arithmetic::div_mod::lemma_div_multiples_vanish(500, 5 * den);
    assert(fahrenheit_tenths_spec(600 * den, den) == 500);
}

} // verus!
