//! Fixed-width rendering of a tenths-scaled reading.
//!
//! The sign is always shown, `+` for non-negative. The magnitude is
//! split into decimal digits; the tenths digit always follows the
//! decimal point, and a space and the unit letter close the field.
//! Readings beyond the digits a layout can show render wrongly but
//! totally — a documented limitation, not an error path.

use vstd::prelude::*;

verus! {

/// The decimal digit `d` as a character.
pub open spec fn digit_char(d: int) -> char {
    (48 + d) as char
}

/// `+` for non-negative readings, `-` otherwise; never omitted.
pub open spec fn sign_char(val: int) -> char {
    if val < 0 {
        '-'
    } else {
        '+'
    }
}

/// Absolute value of a reading.
pub open spec fn magnitude(val: int) -> int {
    if val < 0 {
        -val
    } else {
        val
    }
}

/// Layout with leading-zero suppression: sign, up to two leading
/// digits rendered as spaces when zero, ones, point, tenths, space,
/// unit — eight characters.
pub open spec fn format_spec(val: int, unit: char) -> Seq<char> {
    let m = magnitude(val);
    let tenths = digit_char(m % 10);
    let ones = digit_char((m / 10) % 10);
    let tens = (m / 100) % 10;
    let hundreds = (m / 1000) % 10;
    if hundreds == 0 && tens == 0 {
        seq![sign_char(val), ' ', ' ', ones, '.', tenths, ' ', unit]
    } else if hundreds == 0 {
        seq![sign_char(val), ' ', digit_char(tens), ones, '.', tenths, ' ', unit]
    } else {
        seq![sign_char(val), digit_char(hundreds), digit_char(tens), ones, '.', tenths, ' ', unit]
    }
}

/// Fixed layout without suppression: sign, tens, ones, point, tenths,
/// space, unit — seven characters. Readings of a hundred degrees or
/// more do not fit and render wrongly.
pub open spec fn format_fixed_spec(val: int, unit: char) -> Seq<char> {
    let m = magnitude(val);
    seq![
        sign_char(val),
        digit_char((m / 100) % 10),
        digit_char((m / 10) % 10),
        '.',
        digit_char(m % 10),
        ' ',
        unit,
    ]
}

/// Relies on String::push: appends the given character to the end of
/// the string.
#[verifier::external_body]
fn push_char(s: &mut String, c: char)
    ensures
        final(s)@ == old(s)@.push(c),
{
    s.push(c)
}

/// The decimal digit `d` as a character.
fn digit_to_char(d: u8) -> (c: char)
    requires
        d < 10,
    ensures
        c == digit_char(d as int),
{
    (48 + d) as char
}

/// Renders a reading with leading-zero suppression (the layout of the
/// twelve-sample variant).
pub fn formatter(val: i16, unit: char) -> (r: String)
    ensures
        r@ == format_spec(val as int, unit),
        r@.len() == 8,
{
    let v: i32 = val as i32;
    let m: u32 = if v < 0 {
        (0 - v) as u32
    } else {
        v as u32
    };
    proof {
        assert(m == magnitude(val as int));
    }
    let tenths: u8 = (m % 10) as u8;
    let ones: u8 = ((m / 10) % 10) as u8;
    let tens: u8 = ((m / 100) % 10) as u8;
    let hundreds: u8 = ((m / 1000) % 10) as u8;
    let mut out = String::new();
    push_char(&mut out, if v < 0 { '-' } else { '+' });
    if hundreds == 0 && tens == 0 {
        push_char(&mut out, ' ');
        push_char(&mut out, ' ');
    } else if hundreds == 0 {
        push_char(&mut out, ' ');
        push_char(&mut out, digit_to_char(tens));
    } else {
        push_char(&mut out, digit_to_char(hundreds));
        push_char(&mut out, digit_to_char(tens));
    }
    push_char(&mut out, digit_to_char(ones));
    push_char(&mut out, '.');
    push_char(&mut out, digit_to_char(tenths));
    push_char(&mut out, ' ');
    push_char(&mut out, unit);
    proof {
        assert(out@ =~= format_spec(val as int, unit));
    }
    out
}

/// Renders a reading in the fixed three-digit layout (the layout of
/// the single-sample variant).
pub fn formatter_fixed(val: i16, unit: char) -> (r: String)
    ensures
        r@ == format_fixed_spec(val as int, unit),
        r@.len() == 7,
{
    let v: i32 = val as i32;
    let m: u32 = if v < 0 {
        (0 - v) as u32
    } else {
        v as u32
    };
    proof {
        assert(m == magnitude(val as int));
    }
    let tenths: u8 = (m % 10) as u8;
    let ones: u8 = ((m / 10) % 10) as u8;
    let tens: u8 = ((m / 100) % 10) as u8;
    let mut out = String::new();
    push_char(&mut out, if v < 0 { '-' } else { '+' });
    push_char(&mut out, digit_to_char(tens));
    push_char(&mut out, digit_to_char(ones));
    push_char(&mut out, '.');
    push_char(&mut out, digit_to_char(tenths));
    push_char(&mut out, ' ');
    push_char(&mut out, unit);
    proof {
        assert(out@ =~= format_fixed_spec(val as int, unit));
    }
    out
}

} // verus!
