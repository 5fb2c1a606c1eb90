use batch_convert::decimal::{format_number, parse_number};

#[test]
fn digits_are_read_as_a_number() {
    assert_eq!(parse_number("0"), Some(0));
    assert_eq!(parse_number("42"), Some(42));
    assert_eq!(parse_number("1234567890"), Some(1234567890));
}

#[test]
fn leading_zeros_and_a_plus_sign_are_read() {
    assert_eq!(parse_number("007"), Some(7));
    assert_eq!(parse_number("+7"), Some(7));
    assert_eq!(parse_number("+0"), Some(0));
}

#[test]
fn what_is_no_number_is_not_read() {
    assert_eq!(parse_number(""), None);
    assert_eq!(parse_number("+"), None);
    assert_eq!(parse_number("-1"), None);
    assert_eq!(parse_number("++1"), None);
    assert_eq!(parse_number("12a"), None);
    assert_eq!(parse_number("a12"), None);
    assert_eq!(parse_number(" 12"), None);
    assert_eq!(parse_number("1 2"), None);
    assert_eq!(parse_number("١٢"), None);
}

#[test]
fn the_greatest_number_is_read_and_the_next_is_not() {
    let greatest = format!("{}", usize::MAX);
    assert_eq!(parse_number(&greatest), Some(usize::MAX));
    let tenfold = format!("{}0", usize::MAX);
    assert_eq!(parse_number(&tenfold), None);
    let next = format!("{}", usize::MAX as u128 + 1);
    assert_eq!(parse_number(&next), None);
    let padded = format!("000{}", usize::MAX);
    assert_eq!(parse_number(&padded), Some(usize::MAX));
}

#[test]
fn numbers_are_written_without_leading_zeros() {
    assert_eq!(format_number(0), "0");
    assert_eq!(format_number(7), "7");
    assert_eq!(format_number(10), "10");
    assert_eq!(format_number(1234567890), "1234567890");
    assert_eq!(format_number(usize::MAX), format!("{}", usize::MAX));
}

#[test]
fn a_written_number_reads_back() {
    for n in [0usize, 1, 9, 10, 99, 100, 4096, usize::MAX - 1, usize::MAX] {
        assert_eq!(parse_number(&format_number(n)), Some(n));
    }
}
