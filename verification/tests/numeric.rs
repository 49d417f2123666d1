use web_scraper::numeric::Decimal;
use web_scraper::numeric::dec_eq_value;
use web_scraper::numeric::dec_lt;
use web_scraper::numeric::deviates;
use web_scraper::numeric::string_to_decimal;

fn dec(mantissa: u64, scale: u32) -> Decimal {
    Decimal { mantissa, scale }
}

#[test]
fn parses_comma_as_decimal_dot() {
    assert_eq!(string_to_decimal("12,99"), Some(dec(1299, 2)));
    assert_eq!(string_to_decimal("12,99 PLN"), Some(dec(1299, 2)));
}

#[test]
fn parses_plain_integer() {
    // "99" reads as ninety-nine with no fractional digits
    assert_eq!(string_to_decimal("99"), Some(dec(99, 0)));
    assert_eq!(string_to_decimal("99 zl"), Some(dec(99, 0)));
}

#[test]
fn first_dot_wins_later_separators_drop() {
    // "1.234,56" -> "1.23456": the first dot stays, the comma-dot drops
    assert_eq!(string_to_decimal("1.234,56"), Some(dec(123456, 5)));
    // "1.234.567,89" -> "1.23456789"
    assert_eq!(string_to_decimal("1.234.567,89"), Some(dec(123456789, 8)));
}

#[test]
fn dot_edge_positions() {
    assert_eq!(string_to_decimal("5."), Some(dec(5, 0)));
    assert_eq!(string_to_decimal(",5"), Some(dec(5, 1)));
    assert_eq!(string_to_decimal("0,10"), Some(dec(10, 2)));
}

#[test]
fn rejects_text_without_digits() {
    assert_eq!(string_to_decimal(""), None);
    assert_eq!(string_to_decimal("price"), None);
    assert_eq!(string_to_decimal(","), None);
    assert_eq!(string_to_decimal("..."), None);
}

#[test]
fn rejects_more_than_eighteen_digits() {
    assert_eq!(string_to_decimal("123456789012345678"), Some(dec(123456789012345678, 0)));
    assert_eq!(string_to_decimal("1234567890123456789"), None);
}

#[test]
fn value_comparisons() {
    assert!(dec_lt(&dec(1299, 2), &dec(1999, 2)));
    assert!(!dec_lt(&dec(1999, 2), &dec(1299, 2)));
    // 12.99 == 12.990 as values, at different scales
    assert!(dec_eq_value(&dec(1299, 2), &dec(12990, 3)));
    assert!(!dec_lt(&dec(1299, 2), &dec(12990, 3)));
    // 0.999 < 1, comparing across scales
    assert!(dec_lt(&dec(999, 3), &dec(1, 0)));
}

#[test]
fn deviation_threshold_is_ten_percent() {
    let hundred = dec(100, 0);
    assert!(deviates(&dec(150, 0), &hundred));
    assert!(!deviates(&dec(102, 0), &hundred));
    // exactly 10% does not exceed the threshold
    assert!(!deviates(&dec(110, 0), &hundred));
    assert!(deviates(&dec(1101, 1), &hundred));
    assert!(deviates(&dec(89, 0), &hundred));
    assert!(!deviates(&dec(90, 0), &hundred));
    // against a zero last price, any non-zero reading is suspicious
    assert!(deviates(&dec(1, 2), &dec(0, 0)));
    assert!(!deviates(&dec(0, 2), &dec(0, 0)));
}
