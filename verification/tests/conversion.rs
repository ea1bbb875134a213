use tempsense::convert::{convert, convert_millivolts, convert_sum};

#[test]
fn transfer_function_at_500_millivolts_reads_zero_celsius() {
    assert_eq!(convert_millivolts(500), (0, 320));
}

#[test]
fn transfer_function_at_600_millivolts_reads_ten_celsius() {
    assert_eq!(convert_millivolts(600), (100, 500));
}

#[test]
fn transfer_function_below_offset_is_negative() {
    // 400 mV: -10.0 degrees Celsius, 14.0 degrees Fahrenheit.
    assert_eq!(convert_millivolts(400), (-100, 140));
}

#[test]
fn count_just_above_500_millivolts() {
    // 621 counts are 500.31 mV: 0.0 degrees Celsius, 32.0 Fahrenheit.
    assert_eq!(convert(621), (0, 320));
}

#[test]
fn count_just_above_600_millivolts() {
    // 745 counts are 600.21 mV: 10.0 degrees Celsius, 50.0 Fahrenheit.
    assert_eq!(convert(745), (100, 500));
}

#[test]
fn count_zero_gives_the_negative_rail() {
    // 0 mV: -50.0 degrees Celsius, -58.0 degrees Fahrenheit.
    assert_eq!(convert(0), (-500, -580));
}

#[test]
fn count_full_scale() {
    // 4095 counts are 3299.19 mV: 279.9 degrees Celsius, out of the
    // sensor's range but converted without clamping.
    assert_eq!(convert(4095), (2799, 5358));
}

#[test]
fn below_freezing_truncates_the_whole_fahrenheit_value() {
    // 560 counts are 451.17 mV, -4.88 degrees Celsius, 23.21
    // Fahrenheit: the truncation applies to the complete Fahrenheit
    // value, so the tenths are 232, not the offset plus a truncated
    // negative term.
    assert_eq!(convert(560), (-48, 232));
}

#[test]
fn sum_conversion_keeps_fifth_precision() {
    // A slot sum of 3103 over five slots is 620.6 counts, 499.98 mV:
    // -0.002 degrees Celsius truncates to 0, and 31.996 Fahrenheit
    // truncates to 319.
    assert_eq!(convert_sum(3103), (0, 319));
    // A sum of 3114 is 622.8 counts; converting the sum keeps the
    // fraction, while first truncating the average to 622 counts
    // loses a tenth of a degree Fahrenheit.
    assert_eq!(convert_sum(3114), (1, 323));
    assert_eq!(convert(3114 / 5), (1, 322));
}

#[test]
fn sum_conversion_full_scale() {
    assert_eq!(convert_sum(20475), (2799, 5358));
}
