use byteslice::numeral::{parse_u64_numeral, NumeralError};

#[test]
fn plain_decimal() {
    assert_eq!(parse_u64_numeral(b"0"), Ok(0));
    assert_eq!(parse_u64_numeral(b"123"), Ok(123));
    assert_eq!(parse_u64_numeral(b"007"), Ok(7));
}

#[test]
fn hexadecimal_with_prefix() {
    assert_eq!(parse_u64_numeral(b"0x0"), Ok(0));
    assert_eq!(parse_u64_numeral(b"0x1f"), Ok(31));
    assert_eq!(parse_u64_numeral(b"0xFF"), Ok(255));
    assert_eq!(parse_u64_numeral(b"0xDeadBeef"), Ok(0xdead_beef));
}

#[test]
fn octal_with_prefix() {
    assert_eq!(parse_u64_numeral(b"0o17"), Ok(15));
    assert_eq!(parse_u64_numeral(b"0o0"), Ok(0));
}

#[test]
fn binary_with_prefix() {
    assert_eq!(parse_u64_numeral(b"0b101"), Ok(5));
    assert_eq!(parse_u64_numeral(b"0b0"), Ok(0));
}

#[test]
fn separators_are_stripped_anywhere() {
    assert_eq!(parse_u64_numeral(b"1_000"), Ok(1000));
    assert_eq!(parse_u64_numeral(b"1__0"), Ok(10));
    assert_eq!(parse_u64_numeral(b"_1_"), Ok(1));
    // stripping happens before the prefix is looked at
    assert_eq!(parse_u64_numeral(b"0_x_ff"), Ok(255));
}

#[test]
fn empty_inputs_are_rejected() {
    assert_eq!(parse_u64_numeral(b""), Err(NumeralError::Empty));
    assert_eq!(parse_u64_numeral(b"_"), Err(NumeralError::Empty));
    assert_eq!(parse_u64_numeral(b"0x"), Err(NumeralError::Empty));
    assert_eq!(parse_u64_numeral(b"0b_"), Err(NumeralError::Empty));
}

#[test]
fn invalid_digits_are_rejected() {
    assert_eq!(parse_u64_numeral(b"12a"), Err(NumeralError::InvalidDigit));
    assert_eq!(parse_u64_numeral(b"0b12"), Err(NumeralError::InvalidDigit));
    assert_eq!(parse_u64_numeral(b"0o8"), Err(NumeralError::InvalidDigit));
    assert_eq!(parse_u64_numeral(b"0xg"), Err(NumeralError::InvalidDigit));
    // only the lower-case prefixes select a radix
    assert_eq!(parse_u64_numeral(b"0X10"), Err(NumeralError::InvalidDigit));
    assert_eq!(parse_u64_numeral(b"+5"), Err(NumeralError::InvalidDigit));
    assert_eq!(parse_u64_numeral(b"-5"), Err(NumeralError::InvalidDigit));
}

#[test]
fn sixty_four_bit_limits() {
    assert_eq!(parse_u64_numeral(b"18446744073709551615"), Ok(u64::MAX));
    assert_eq!(
        parse_u64_numeral(b"18446744073709551616"),
        Err(NumeralError::TooLarge)
    );
    assert_eq!(parse_u64_numeral(b"0xffff_ffff_ffff_ffff"), Ok(u64::MAX));
    assert_eq!(
        parse_u64_numeral(b"0x1_0000_0000_0000_0000"),
        Err(NumeralError::TooLarge)
    );
}

#[test]
fn fault_order_is_left_to_right() {
    // an invalid digit before the value can grow too large
    assert_eq!(
        parse_u64_numeral(b"9z9999999999999999999"),
        Err(NumeralError::InvalidDigit)
    );
    // the value exceeds u64 before the invalid digit is reached
    assert_eq!(
        parse_u64_numeral(b"99999999999999999999z"),
        Err(NumeralError::TooLarge)
    );
}
