use cteepbd::decimal::{format_pair, format_thousandths, parse_pair, parse_thousandths};

#[test]
fn thousandths_are_written_with_three_decimals() {
    assert_eq!("0.000", format_thousandths(0));
    assert_eq!("2.500", format_thousandths(2500));
    assert_eq!("0.005", format_thousandths(5));
    assert_eq!("0.414", format_thousandths(414));
    assert_eq!("1234.567", format_thousandths(1_234_567));
    assert_eq!("-0.005", format_thousandths(-5));
    assert_eq!("-12.340", format_thousandths(-12_340));
}

#[test]
fn extreme_thousandths_are_written_in_full() {
    assert_eq!("9223372036854775.807", format_thousandths(i64::MAX));
    assert_eq!("-9223372036854775.808", format_thousandths(i64::MIN));
}

#[test]
fn pairs_are_written_with_comma_and_space() {
    assert_eq!("0.000, 2.500", format_pair(0, 2500));
    assert_eq!("-1.000, 0.001", format_pair(-1000, 1));
}

#[test]
fn decimals_are_read_as_thousandths() {
    assert_eq!(Some(2500), parse_thousandths("2.5"));
    assert_eq!(Some(2500), parse_thousandths("2.500"));
    assert_eq!(Some(0), parse_thousandths("0"));
    assert_eq!(Some(7000), parse_thousandths("7"));
    assert_eq!(Some(7000), parse_thousandths("7."));
    assert_eq!(Some(500), parse_thousandths(".5"));
    assert_eq!(Some(-1300), parse_thousandths("-1.3"));
    assert_eq!(Some(1300), parse_thousandths("+1.3"));
    assert_eq!(Some(2270), parse_thousandths("  2.27\t"));
}

#[test]
fn digits_beyond_the_third_decimal_are_dropped() {
    assert_eq!(Some(1234), parse_thousandths("1.2349"));
    assert_eq!(Some(-1234), parse_thousandths("-1.23499999"));
}

#[test]
fn what_is_no_decimal_is_not_read() {
    assert_eq!(None, parse_thousandths(""));
    assert_eq!(None, parse_thousandths("   "));
    assert_eq!(None, parse_thousandths("."));
    assert_eq!(None, parse_thousandths("-"));
    assert_eq!(None, parse_thousandths("1.2.3"));
    assert_eq!(None, parse_thousandths("1,5"));
    assert_eq!(None, parse_thousandths("abc"));
    assert_eq!(None, parse_thousandths("1 2"));
    assert_eq!(None, parse_thousandths("--1"));
    assert_eq!(None, parse_thousandths("1e3"));
}

#[test]
fn decimals_too_large_to_store_are_not_read() {
    assert_eq!(Some(i64::MAX), parse_thousandths("9223372036854775.807"));
    assert_eq!(Some(-i64::MAX), parse_thousandths("-9223372036854775.807"));
    assert_eq!(None, parse_thousandths("9223372036854775.808"));
    assert_eq!(None, parse_thousandths("9223372036854776"));
    assert_eq!(None, parse_thousandths("99999999999999999999999999999999"));
}

#[test]
fn pairs_are_read_around_one_comma() {
    assert_eq!(Some((0, 2500)), parse_pair("0.0, 2.5"));
    assert_eq!(Some((0, 2500)), parse_pair("0.000, 2.500"));
    assert_eq!(Some((2270, 230)), parse_pair(" 2.27 ,0.23 "));
    assert_eq!(None, parse_pair("2.5"));
    assert_eq!(None, parse_pair("1, 2, 3"));
    assert_eq!(None, parse_pair("1, x"));
    assert_eq!(None, parse_pair(", 1"));
    assert_eq!(None, parse_pair(""));
}

#[test]
fn what_is_written_reads_back() {
    for v in [0i64, 1, -1, 999, 1000, -1000, 2500, 123_456_789, -987_654_321, i64::MAX, -i64::MAX] {
        assert_eq!(Some(v), parse_thousandths(&format_thousandths(v)));
    }
    assert_eq!(Some((414, 1954)), parse_pair(&format_pair(414, 1954)));
}

/// A sequence of numbers that looks random and is the same on every run.
struct Dice(u64);

impl Dice {
    fn next(&mut self, below: u64) -> u64 {
        self.0 = self.0.wrapping_mul(6364136223846793005).wrapping_add(1442695040888963407);
        (self.0 >> 33) % below
    }
}

#[test]
fn writing_agrees_with_the_formatting_of_floats() {
    let mut d = Dice(7);
    for _ in 0..5000 {
        let size = 10u64.pow(d.next(10) as u32 + 1);
        let v = d.next(size) as i64 * if d.next(2) == 0 { 1 } else { -1 };
        assert_eq!(format!("{:.3}", v as f64 / 1000.0), format_thousandths(v));
    }
}

#[test]
fn reading_agrees_with_the_reading_of_floats() {
    let mut d = Dice(11);
    for _ in 0..5000 {
        let whole = d.next(100_000);
        let places = d.next(4) as usize;
        let frac = d.next(1000);
        let sign = ["", "-", "+"][d.next(3) as usize];
        let text = if places == 0 {
            format!("{}{}", sign, whole)
        } else {
            format!("{}{}.{}", sign, whole, &format!("{:03}", frac)[..places])
        };
        let expected = (text.parse::<f64>().unwrap() * 1000.0).round() as i64;
        assert_eq!(Some(expected), parse_thousandths(&text), "{}", text);
        let padded = format!(" \t{}  ", text);
        assert_eq!(Some(expected), parse_thousandths(&padded));
    }
}
