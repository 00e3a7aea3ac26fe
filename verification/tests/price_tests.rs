use anixe_cli::price::{parse_decimal, price_per_pax, PriceError};

#[test]
fn price_per_pax_divides_and_keeps_two_decimals() {
    assert_eq!(price_per_pax("150.00", 3).unwrap(), "50.00");
    assert_eq!(price_per_pax("100.00", 3).unwrap(), "33.33");
    assert_eq!(price_per_pax("10", 4).unwrap(), "2.50");
    assert_eq!(price_per_pax("0.05", 2).unwrap(), "0.03");
    assert_eq!(price_per_pax("1.005", 1).unwrap(), "1.01");
    assert_eq!(price_per_pax("2", 3).unwrap(), "0.67");
    assert_eq!(price_per_pax("0", 5).unwrap(), "0.00");
}

#[test]
fn price_per_pax_refuses_zero_pax() {
    assert_eq!(price_per_pax("150.00", 0), Err(PriceError::DivisionByZero));
}

#[test]
fn price_per_pax_rejects_malformed_amounts() {
    assert_eq!(price_per_pax("abc", 2), Err(PriceError::Malformed));
    assert_eq!(price_per_pax("", 2), Err(PriceError::Malformed));
    assert_eq!(price_per_pax("1,50", 2), Err(PriceError::Malformed));
}

#[test]
fn parse_decimal_reads_plain_and_fractional_amounts() {
    assert_eq!(parse_decimal("1000"), Some((1000, 0)));
    assert_eq!(parse_decimal("12.5"), Some((125, 1)));
    assert_eq!(parse_decimal("0.05"), Some((5, 2)));
}

#[test]
fn parse_decimal_rejects_out_of_grammar_text() {
    assert!(parse_decimal(".5").is_none());
    assert!(parse_decimal("5.").is_none());
    assert!(parse_decimal("1.2.3").is_none());
    assert!(parse_decimal("-5").is_none());
    assert!(parse_decimal("1234567890123456").is_none());
    assert!(parse_decimal("1.0000000001").is_none());
}
