use tempsense::format::{formatter, formatter_fixed};

#[test]
fn suppressing_layout_small_value() {
    assert_eq!(formatter(5, 'C'), "+  0.5 C");
}

#[test]
fn suppressing_layout_small_negative_value() {
    assert_eq!(formatter(-5, 'C'), "-  0.5 C");
}

#[test]
fn suppressing_layout_four_digits() {
    assert_eq!(formatter(1005, 'F'), "+100.5 F");
}

#[test]
fn suppressing_layout_three_digits_negative() {
    assert_eq!(formatter(-234, 'C'), "- 23.4 C");
}

#[test]
fn suppressing_layout_two_digit_boundary() {
    assert_eq!(formatter(100, 'F'), "+ 10.0 F");
    assert_eq!(formatter(99, 'F'), "+  9.9 F");
}

#[test]
fn suppressing_layout_zero() {
    assert_eq!(formatter(0, 'C'), "+  0.0 C");
}

#[test]
fn suppressing_layout_is_total_at_the_signed_extreme() {
    // The magnitude of the most negative reading has five digits; the
    // layout shows only the low four — visually wrong, as documented,
    // but rendered without any error path.
    assert_eq!(formatter(-32768, 'C'), "-276.8 C");
}

#[test]
fn fixed_layout_small_value() {
    assert_eq!(formatter_fixed(5, 'F'), "+00.5 F");
}

#[test]
fn fixed_layout_small_negative_value() {
    assert_eq!(formatter_fixed(-5, 'C'), "-00.5 C");
}

#[test]
fn fixed_layout_two_digits() {
    assert_eq!(formatter_fixed(-234, 'C'), "-23.4 C");
    assert_eq!(formatter_fixed(997, 'F'), "+99.7 F");
}

#[test]
fn fixed_layout_drops_the_hundreds_digit() {
    // 100.5 degrees does not fit the fixed layout: the hundreds digit
    // is silently dropped, a documented limitation.
    assert_eq!(formatter_fixed(1005, 'F'), "+00.5 F");
}
