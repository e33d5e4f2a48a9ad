use glider_telemetry::util::decimal::{
    div_round_half_even, parse_digits, parse_numeral, parse_unsigned_numeral, power_of_ten,
    push_decimal, push_fixed, push_scaled, push_two_places, rescale, unsigned_magnitude,
};
use glider_telemetry::util::scan::find_byte;

fn decimal(n: u64) -> String {
    let mut out = String::new();
    push_decimal(&mut out, n);
    out
}

fn fixed(v: i64) -> String {
    let mut out = String::new();
    push_fixed(&mut out, v);
    out
}

fn scaled(v: i64) -> String {
    let mut out = String::new();
    push_scaled(&mut out, v);
    out
}

#[test]
fn decimal_numerals_have_no_leading_zeros() {
    assert_eq!(decimal(0), "0");
    assert_eq!(decimal(7), "7");
    assert_eq!(decimal(10), "10");
    assert_eq!(decimal(29), "29");
    assert_eq!(decimal(255), "255");
    assert_eq!(decimal(1_000_000), "1000000");
    assert_eq!(decimal(u64::MAX), "18446744073709551615");
}

#[test]
fn numerals_are_appended_behind_what_is_there() {
    let mut out = String::from("x=");
    push_decimal(&mut out, 42);
    push_two_places(&mut out, true, 5);
    push_fixed(&mut out, 120);
    push_scaled(&mut out, 120);
    assert_eq!(out, "x=42-0.051.200.01");
}

#[test]
fn quantities_show_two_fraction_digits() {
    assert_eq!(fixed(0), "0.00");
    assert_eq!(fixed(1), "0.01");
    assert_eq!(fixed(10), "0.10");
    assert_eq!(fixed(99), "0.99");
    assert_eq!(fixed(100), "1.00");
    assert_eq!(fixed(1_900), "19.00");
    assert_eq!(fixed(101_325), "1013.25");
    assert_eq!(fixed(-1), "-0.01");
    assert_eq!(fixed(-4_015), "-40.15");
    assert_eq!(fixed(i64::MAX), "92233720368547758.07");
    assert_eq!(fixed(i64::MIN), "-92233720368547758.08");
}

#[test]
fn hundredth_parts_are_rounded_to_two_fraction_digits() {
    assert_eq!(scaled(0), "0.00");
    assert_eq!(scaled(101_325), "10.13");
    assert_eq!(scaled(138_200), "13.82");
    assert_eq!(scaled(45_200), "4.52");
    assert_eq!(scaled(1_900), "0.19");
    assert_eq!(scaled(50), "0.00");
    assert_eq!(scaled(150), "0.02");
    assert_eq!(scaled(-150), "-0.02");
    assert_eq!(scaled(-50), "-0.00");
    assert_eq!(scaled(-1), "-0.00");
    assert_eq!(scaled(i64::MAX), "922337203685477.58");
    assert_eq!(scaled(i64::MIN), "-922337203685477.58");
}

#[test]
fn magnitude_of_every_sign() {
    assert_eq!(unsigned_magnitude(0), 0);
    assert_eq!(unsigned_magnitude(17), 17);
    assert_eq!(unsigned_magnitude(-17), 17);
    assert_eq!(unsigned_magnitude(i64::MAX), 9_223_372_036_854_775_807);
    assert_eq!(unsigned_magnitude(i64::MIN), 9_223_372_036_854_775_808);
}

#[test]
fn division_rounds_to_nearest_and_ties_to_even() {
    assert_eq!(div_round_half_even(0, 100), 0);
    assert_eq!(div_round_half_even(49, 100), 0);
    assert_eq!(div_round_half_even(50, 100), 0);
    assert_eq!(div_round_half_even(51, 100), 1);
    assert_eq!(div_round_half_even(150, 100), 2);
    assert_eq!(div_round_half_even(250, 100), 2);
    assert_eq!(div_round_half_even(350, 100), 4);
    assert_eq!(div_round_half_even(7, 2), 4);
    assert_eq!(div_round_half_even(5, 2), 2);
    assert_eq!(div_round_half_even(10, 3), 3);
    assert_eq!(div_round_half_even(11, 3), 4);
    assert_eq!(div_round_half_even(5, 1), 5);
    assert_eq!(div_round_half_even(u64::MAX, 1), u64::MAX);
    assert_eq!(div_round_half_even(u64::MAX, 2), 9_223_372_036_854_775_808);
    assert_eq!(div_round_half_even(u64::MAX, u64::MAX), 1);
    assert_eq!(div_round_half_even(u64::MAX - 1, u64::MAX), 1);
    assert_eq!(div_round_half_even(u64::MAX / 2, u64::MAX), 0);
    assert_eq!(div_round_half_even(u64::MAX / 2 + 1, u64::MAX), 1);
}

#[test]
fn rescaling_keeps_the_sign() {
    assert_eq!(rescale(16_384, 100, 16_384), 100);
    assert_eq!(rescale(-16_384, 100, 16_384), -100);
    assert_eq!(rescale(2_048, 100, 16_384), 12);
    assert_eq!(rescale(-2_048, 100, 16_384), -12);
    assert_eq!(rescale(6_144, 100, 16_384), 38);
    assert_eq!(rescale(-6_144, 100, 16_384), -38);
    assert_eq!(rescale(131, 100, 131), 100);
    assert_eq!(rescale(1, 100, 131), 1);
    assert_eq!(rescale(-1, 100, 131), -1);
    assert_eq!(rescale(0, 100, 131), 0);
    assert_eq!(rescale(i64::MAX, 1, 1), i64::MAX);
    assert_eq!(rescale(-i64::MAX, 1, 1), -i64::MAX);
}

#[test]
fn powers_of_ten() {
    assert_eq!(power_of_ten(0), 1);
    assert_eq!(power_of_ten(1), 10);
    assert_eq!(power_of_ten(7), 10_000_000);
    assert_eq!(power_of_ten(18), 1_000_000_000_000_000_000);
}

#[test]
fn runs_of_digits_are_read() {
    assert_eq!(parse_digits(b"", 9), Some(0));
    assert_eq!(parse_digits(b"0", 9), Some(0));
    assert_eq!(parse_digits(b"007", 9), Some(7));
    assert_eq!(parse_digits(b"123456789", 9), Some(123_456_789));
    assert_eq!(parse_digits(b"1234567890", 9), None);
    assert_eq!(parse_digits(b"999999999999999999", 18), Some(999_999_999_999_999_999));
    assert_eq!(parse_digits(b"12a", 9), None);
    assert_eq!(parse_digits(b"-1", 9), None);
    assert_eq!(parse_digits(b"1.0", 9), None);
    assert_eq!(parse_digits(b"/", 9), None);
    assert_eq!(parse_digits(b":", 9), None);
    assert_eq!(parse_digits(b"1", 0), None);
    assert_eq!(parse_digits(b"", 0), Some(0));
}

#[test]
fn numerals_are_read_as_counts_of_a_decimal_fraction() {
    assert_eq!(parse_numeral(b"0", 2), Some(0));
    assert_eq!(parse_numeral(b"12", 2), Some(1_200));
    assert_eq!(parse_numeral(b"12.5", 2), Some(1_250));
    assert_eq!(parse_numeral(b"12.50", 2), Some(1_250));
    assert_eq!(parse_numeral(b"12.05", 2), Some(1_205));
    assert_eq!(parse_numeral(b"-12.05", 2), Some(-1_205));
    assert_eq!(parse_numeral(b"-0.5", 2), Some(-50));
    assert_eq!(parse_numeral(b"-0", 2), Some(0));
    assert_eq!(parse_numeral(b"007.1", 2), Some(710));
    assert_eq!(parse_numeral(b"43.1234567", 7), Some(431_234_567));
    assert_eq!(parse_numeral(b"-179.9999999", 7), Some(-1_799_999_999));
    assert_eq!(parse_numeral(b"43.1", 7), Some(431_000_000));
    assert_eq!(parse_numeral(b"5", 0), Some(5));
    assert_eq!(parse_numeral(b"999999999.999999999", 9), Some(999_999_999_999_999_999));
    assert_eq!(parse_numeral(b"-999999999.999999999", 9), Some(-999_999_999_999_999_999));
}

#[test]
fn malformed_numerals_are_worth_nothing() {
    assert_eq!(parse_numeral(b"", 2), None);
    assert_eq!(parse_numeral(b"-", 2), None);
    assert_eq!(parse_numeral(b".", 2), None);
    assert_eq!(parse_numeral(b".5", 2), None);
    assert_eq!(parse_numeral(b"5.", 2), None);
    assert_eq!(parse_numeral(b"-.5", 2), None);
    assert_eq!(parse_numeral(b"+5", 2), None);
    assert_eq!(parse_numeral(b"--5", 2), None);
    assert_eq!(parse_numeral(b"5-", 2), None);
    assert_eq!(parse_numeral(b"1.2.3", 7), None);
    assert_eq!(parse_numeral(b"1,5", 2), None);
    assert_eq!(parse_numeral(b"1e5", 2), None);
    assert_eq!(parse_numeral(b" 1", 2), None);
    assert_eq!(parse_numeral(b"1 ", 2), None);
    assert_eq!(parse_numeral(b"1.234", 2), None);
    assert_eq!(parse_numeral(b"5.0", 0), None);
    assert_eq!(parse_numeral(b"1234567890", 2), None);
    assert_eq!(parse_numeral(b"1234567890.5", 2), None);
    assert_eq!(parse_unsigned_numeral(b"-1", 2), None);
    assert_eq!(parse_unsigned_numeral(b"1.5", 2), Some(150));
}

#[test]
fn first_position_of_a_byte() {
    assert_eq!(find_byte(b"a,b,c", b',', 0), 1);
    assert_eq!(find_byte(b"a,b,c", b',', 1), 1);
    assert_eq!(find_byte(b"a,b,c", b',', 2), 3);
    assert_eq!(find_byte(b"a,b,c", b',', 4), 5);
    assert_eq!(find_byte(b"a,b,c", b',', 5), 5);
    assert_eq!(find_byte(b"a,b,c", b',', 99), 5);
    assert_eq!(find_byte(b"a,b,c", b'x', 0), 5);
    assert_eq!(find_byte(b"", b',', 0), 0);
}
