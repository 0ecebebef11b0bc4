use fan_manager::decimal::{format_thousandths, parse_thousandths, parse_u16, push_nat};

#[test]
fn format_whole_numbers_without_a_point() {
    assert_eq!(format_thousandths(0), "0");
    assert_eq!(format_thousandths(50_000), "50");
    assert_eq!(format_thousandths(100_000), "100");
    assert_eq!(format_thousandths(-7_000), "-7");
}

#[test]
fn format_drops_trailing_zeros_of_the_fraction() {
    assert_eq!(format_thousandths(12_500), "12.5");
    assert_eq!(format_thousandths(12_520), "12.52");
    assert_eq!(format_thousandths(12_525), "12.525");
    assert_eq!(format_thousandths(100), "0.1");
    assert_eq!(format_thousandths(10), "0.01");
    assert_eq!(format_thousandths(1), "0.001");
    assert_eq!(format_thousandths(1_001), "1.001");
    assert_eq!(format_thousandths(1_010), "1.01");
}

#[test]
fn format_negative_values() {
    assert_eq!(format_thousandths(-250), "-0.25");
    assert_eq!(format_thousandths(-1), "-0.001");
    assert_eq!(format_thousandths(-12_500), "-12.5");
}

#[test]
fn format_the_extremes() {
    assert_eq!(format_thousandths(i32::MAX), "2147483.647");
    assert_eq!(format_thousandths(i32::MIN), "-2147483.648");
}

#[test]
fn push_nat_appends_decimal_digits() {
    let mut out = String::from("n=");
    push_nat(&mut out, 0);
    assert_eq!(out, "n=0");
    push_nat(&mut out, 907);
    assert_eq!(out, "n=0907");
    let mut big = String::new();
    push_nat(&mut big, u64::MAX);
    assert_eq!(big, "18446744073709551615");
}

#[test]
fn parse_plain_decimals() {
    assert_eq!(parse_thousandths("50"), Some(50_000));
    assert_eq!(parse_thousandths("50.5"), Some(50_500));
    assert_eq!(parse_thousandths("0.001"), Some(1));
    assert_eq!(parse_thousandths("0.01"), Some(10));
    assert_eq!(parse_thousandths("0.1"), Some(100));
    assert_eq!(parse_thousandths("007.250"), Some(7_250));
    assert_eq!(parse_thousandths("0"), Some(0));
}

#[test]
fn parse_signs() {
    assert_eq!(parse_thousandths("+5"), Some(5_000));
    assert_eq!(parse_thousandths("-5"), Some(-5_000));
    assert_eq!(parse_thousandths("-0.25"), Some(-250));
    assert_eq!(parse_thousandths("-0"), Some(0));
    assert_eq!(parse_thousandths("+"), None);
    assert_eq!(parse_thousandths("-"), None);
    assert_eq!(parse_thousandths("--5"), None);
    assert_eq!(parse_thousandths("+-5"), None);
}

#[test]
fn parse_accepts_a_missing_side_of_the_point() {
    assert_eq!(parse_thousandths(".5"), Some(500));
    assert_eq!(parse_thousandths("5."), Some(5_000));
    assert_eq!(parse_thousandths("-.5"), Some(-500));
    assert_eq!(parse_thousandths("."), None);
    assert_eq!(parse_thousandths("-."), None);
}

#[test]
fn parse_rejects_other_text() {
    assert_eq!(parse_thousandths(""), None);
    assert_eq!(parse_thousandths(" 5"), None);
    assert_eq!(parse_thousandths("5 "), None);
    assert_eq!(parse_thousandths("5a"), None);
    assert_eq!(parse_thousandths("a5"), None);
    assert_eq!(parse_thousandths("1e2"), None);
    assert_eq!(parse_thousandths("inf"), None);
    assert_eq!(parse_thousandths("NaN"), None);
    assert_eq!(parse_thousandths("1.2.3"), None);
    assert_eq!(parse_thousandths("1,5"), None);
    assert_eq!(parse_thousandths("5.1a"), None);
    assert_eq!(parse_thousandths("\u{0663}"), None);
    assert_eq!(parse_thousandths("5\u{00e9}"), None);
}

#[test]
fn parse_rejects_more_than_three_digits_after_the_point() {
    assert_eq!(parse_thousandths("50.1234"), None);
    assert_eq!(parse_thousandths("50.0000"), None);
    assert_eq!(parse_thousandths("50.123"), Some(50_123));
}

#[test]
fn parse_range() {
    assert_eq!(parse_thousandths("2147483.647"), Some(i32::MAX));
    assert_eq!(parse_thousandths("2147483.648"), None);
    assert_eq!(parse_thousandths("-2147483.648"), Some(i32::MIN));
    assert_eq!(parse_thousandths("-2147483.649"), None);
    assert_eq!(parse_thousandths("2147484"), None);
    assert_eq!(parse_thousandths("-2147484"), None);
    assert_eq!(parse_thousandths("99999999999999999999999999999999"), None);
    assert_eq!(parse_thousandths("00000000000000000000000000000001"), Some(1_000));
}

#[test]
fn parse_reads_back_what_format_writes() {
    let values = [
        0, 1, -1, 9, 10, 99, 100, 999, 1_000, 1_001, -1_001, 12_500, 50_000, 100_000, -273_150,
        i32::MAX, i32::MIN, i32::MAX - 647, 2_147_483_000,
    ];
    for v in values {
        let text = format_thousandths(v);
        assert_eq!(parse_thousandths(&text), Some(v), "{}", text);
    }
}

#[test]
fn parse_u16_reads_unsigned_decimals() {
    assert_eq!(parse_u16("8080"), Some(8080));
    assert_eq!(parse_u16("+80"), Some(80));
    assert_eq!(parse_u16("0"), Some(0));
    assert_eq!(parse_u16("0080"), Some(80));
    assert_eq!(parse_u16("65535"), Some(65535));
    assert_eq!(parse_u16("65536"), None);
    assert_eq!(parse_u16("99999999999999999999"), None);
    assert_eq!(parse_u16(""), None);
    assert_eq!(parse_u16("+"), None);
    assert_eq!(parse_u16("-1"), None);
    assert_eq!(parse_u16("-0"), None);
    assert_eq!(parse_u16("80 "), None);
    assert_eq!(parse_u16("8o"), None);
    assert_eq!(parse_u16("8.0"), None);
}
