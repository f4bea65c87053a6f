use gt_qd_orderbook::decimal::{
    chars_of, format_price, format_u64, parse_digits, parse_price, parse_quantity, PRICE_DECIMALS,
    PRICE_SCALE,
};

#[test]
fn scale_is_ten_to_the_decimals() {
    assert_eq!(PRICE_DECIMALS, 8);
    assert_eq!(PRICE_SCALE, 10u64.pow(PRICE_DECIMALS as u32));
}

#[test]
fn chars_of_lists_the_characters() {
    assert_eq!(chars_of(""), Vec::<char>::new());
    assert_eq!(chars_of("1.5"), vec!['1', '.', '5']);
    assert_eq!(chars_of("é1"), vec!['é', '1']);
}

#[test]
fn parse_digits_reads_a_range() {
    let text = chars_of("ab123cd");
    assert_eq!(parse_digits(&text, 2, 5), Some(123));
    assert_eq!(parse_digits(&text, 2, 2), Some(0));
    assert_eq!(parse_digits(&text, 1, 5), None);
    assert_eq!(parse_digits(&text, 2, 6), None);
}

#[test]
fn quantity_accepts_digits_with_optional_plus() {
    assert_eq!(parse_quantity("0"), Some(0));
    assert_eq!(parse_quantity("42"), Some(42));
    assert_eq!(parse_quantity("+42"), Some(42));
    assert_eq!(parse_quantity("00012"), Some(12));
    assert_eq!(parse_quantity("18446744073709551615"), Some(u64::MAX));
}

#[test]
fn quantity_rejects_everything_else() {
    assert_eq!(parse_quantity(""), None);
    assert_eq!(parse_quantity("+"), None);
    assert_eq!(parse_quantity("-1"), None);
    assert_eq!(parse_quantity("++1"), None);
    assert_eq!(parse_quantity(" 1"), None);
    assert_eq!(parse_quantity("1 "), None);
    assert_eq!(parse_quantity("1_000"), None);
    assert_eq!(parse_quantity("1.0"), None);
    assert_eq!(parse_quantity("12a"), None);
    assert_eq!(parse_quantity("１２"), None);
    assert_eq!(parse_quantity("18446744073709551616"), None);
    assert_eq!(parse_quantity("99999999999999999999999"), None);
}

#[test]
fn quantity_reads_as_the_standard_parser_does() {
    let samples = [
        "", "+", "-", "0", "+0", "-0", "7", "007", "+007", "1e3", "0x10", " 5", "5 ", "5\n",
        "18446744073709551615", "18446744073709551616", "+18446744073709551615", "٣", "1,000",
        "184467440737095516150",
    ];
    for s in samples {
        assert_eq!(parse_quantity(s), s.parse::<u64>().ok(), "{:?}", s);
    }
}

#[test]
fn price_counts_ticks() {
    assert_eq!(parse_price("100"), Some(100 * PRICE_SCALE));
    assert_eq!(parse_price("0"), Some(0));
    assert_eq!(parse_price("100.5"), Some(100 * PRICE_SCALE + 50_000_000));
    assert_eq!(parse_price("100.50"), Some(100 * PRICE_SCALE + 50_000_000));
    assert_eq!(parse_price("3988.59"), Some(398_859_000_000));
    assert_eq!(parse_price("0.00000001"), Some(1));
    assert_eq!(parse_price("0.12345678"), Some(12_345_678));
    assert_eq!(parse_price("007.1"), Some(7 * PRICE_SCALE + 10_000_000));
    assert_eq!(parse_price("184467440737.09551615"), Some(u64::MAX));
    assert_eq!(parse_price("184467440737"), Some(18_446_744_073_700_000_000));
}

#[test]
fn price_rejects_everything_else() {
    assert_eq!(parse_price(""), None);
    assert_eq!(parse_price("."), None);
    assert_eq!(parse_price("1."), None);
    assert_eq!(parse_price(".5"), None);
    assert_eq!(parse_price("1.2.3"), None);
    assert_eq!(parse_price("1..2"), None);
    assert_eq!(parse_price("+1"), None);
    assert_eq!(parse_price("-1"), None);
    assert_eq!(parse_price("1e3"), None);
    assert_eq!(parse_price("abc"), None);
    assert_eq!(parse_price("1,5"), None);
    assert_eq!(parse_price(" 1"), None);
    assert_eq!(parse_price("1.5 "), None);
    assert_eq!(parse_price("0.000000001"), None);
    assert_eq!(parse_price("1.123456789"), None);
    assert_eq!(parse_price("184467440737.09551616"), None);
    assert_eq!(parse_price("184467440738"), None);
    assert_eq!(parse_price("99999999999999999999999999"), None);
    assert_eq!(parse_price("1.１"), None);
}

#[test]
fn format_u64_writes_decimal_digits() {
    for n in [0u64, 1, 9, 10, 11, 99, 100, 12345, 1_000_000, u64::MAX - 1, u64::MAX] {
        assert_eq!(format_u64(n), n.to_string());
    }
}

#[test]
fn format_price_writes_units_and_fraction() {
    assert_eq!(format_price(0), "0");
    assert_eq!(format_price(100 * PRICE_SCALE), "100");
    assert_eq!(format_price(950_000_000), "9.5");
    assert_eq!(format_price(1_025_000_000), "10.25");
    assert_eq!(format_price(1), "0.00000001");
    assert_eq!(format_price(10), "0.0000001");
    assert_eq!(format_price(12_345_678), "0.12345678");
    assert_eq!(format_price(398_859_000_000), "3988.59");
    assert_eq!(format_price(u64::MAX), "184467440737.09551615");
}

#[test]
fn written_price_reads_back() {
    let mut ticks: u64 = 1;
    for step in 0..2000u64 {
        assert_eq!(parse_price(&format_price(ticks)), Some(ticks));
        ticks = ticks.wrapping_mul(6364136223846793005).wrapping_add(1442695040888963407 + step);
    }
    for ticks in [0, PRICE_SCALE - 1, PRICE_SCALE, PRICE_SCALE + 1, u64::MAX] {
        assert_eq!(parse_price(&format_price(ticks)), Some(ticks));
    }
}

#[test]
fn written_quantity_reads_back() {
    for n in [0u64, 5, 10, 1234567890, u64::MAX] {
        assert_eq!(parse_quantity(&format_u64(n)), Some(n));
    }
}
