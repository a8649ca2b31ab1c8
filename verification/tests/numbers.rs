use rok::assembler::number::{parse_u32, parse_u8};
use rok::errors::Fault;
use std::num::IntErrorKind;

fn fault_of(kind: &IntErrorKind) -> Fault {
    match kind {
        IntErrorKind::Empty => Fault::Empty,
        IntErrorKind::InvalidDigit => Fault::InvalidDigit,
        IntErrorKind::PosOverflow => Fault::Overflow,
        other => panic!("no unsigned number fails with {:?}", other),
    }
}

fn std_u8(token: &str) -> Result<u8, Fault> {
    token.parse::<u8>().map_err(|e| fault_of(e.kind()))
}

fn std_u32(token: &str) -> Result<u32, Fault> {
    token.parse::<u32>().map_err(|e| fault_of(e.kind()))
}

#[test]
fn numbers_of_eight_bits() {
    assert_eq!(parse_u8("0"), Ok(0));
    assert_eq!(parse_u8("7"), Ok(7));
    assert_eq!(parse_u8("42"), Ok(42));
    assert_eq!(parse_u8("255"), Ok(255));
    assert_eq!(parse_u8("+7"), Ok(7));
    assert_eq!(parse_u8("007"), Ok(7));
    assert_eq!(parse_u8("0000000000000000000000255"), Ok(255));
}

#[test]
fn numbers_of_thirty_two_bits() {
    assert_eq!(parse_u32("0"), Ok(0));
    assert_eq!(parse_u32("42"), Ok(42));
    assert_eq!(parse_u32("65536"), Ok(65536));
    assert_eq!(parse_u32("4294967295"), Ok(4294967295));
    assert_eq!(parse_u32("+4294967295"), Ok(4294967295));
    assert_eq!(parse_u32("00000000000000000001"), Ok(1));
}

#[test]
fn an_empty_token_is_empty() {
    assert_eq!(parse_u8(""), Err(Fault::Empty));
    assert_eq!(parse_u32(""), Err(Fault::Empty));
}

#[test]
fn what_is_no_digit_is_an_invalid_digit() {
    assert_eq!(parse_u8("+"), Err(Fault::InvalidDigit));
    assert_eq!(parse_u8("-"), Err(Fault::InvalidDigit));
    assert_eq!(parse_u8("-1"), Err(Fault::InvalidDigit));
    assert_eq!(parse_u8("++1"), Err(Fault::InvalidDigit));
    assert_eq!(parse_u8("12a"), Err(Fault::InvalidDigit));
    assert_eq!(parse_u8("a12"), Err(Fault::InvalidDigit));
    assert_eq!(parse_u8(" 1"), Err(Fault::InvalidDigit));
    assert_eq!(parse_u8("1 "), Err(Fault::InvalidDigit));
    assert_eq!(parse_u8("1_0"), Err(Fault::InvalidDigit));
    assert_eq!(parse_u8("0x10"), Err(Fault::InvalidDigit));
    assert_eq!(parse_u8("\u{ff11}"), Err(Fault::InvalidDigit));
    assert_eq!(parse_u32("notanumber"), Err(Fault::InvalidDigit));
    assert_eq!(parse_u32("1.5"), Err(Fault::InvalidDigit));
}

#[test]
fn too_large_a_number_is_an_overflow() {
    assert_eq!(parse_u8("256"), Err(Fault::Overflow));
    assert_eq!(parse_u8("300"), Err(Fault::Overflow));
    assert_eq!(parse_u8("+256"), Err(Fault::Overflow));
    assert_eq!(parse_u8("99999999999999999999999999"), Err(Fault::Overflow));
    assert_eq!(parse_u32("4294967296"), Err(Fault::Overflow));
    assert_eq!(parse_u32("99999999999999999999999999"), Err(Fault::Overflow));
}

#[test]
fn the_first_thing_wrong_is_reported() {
    // The digits overflow before the letter is reached.
    assert_eq!(parse_u8("999x"), Err(Fault::Overflow));
    assert_eq!(parse_u8("256x"), Err(Fault::Overflow));
    // The letter is reached before anything overflows.
    assert_eq!(parse_u8("99x"), Err(Fault::InvalidDigit));
    assert_eq!(parse_u8("25x6"), Err(Fault::InvalidDigit));
    assert_eq!(parse_u8("x999"), Err(Fault::InvalidDigit));
}

#[test]
fn every_number_of_eight_bits_is_read() {
    for n in 0..=u8::MAX {
        assert_eq!(parse_u8(&n.to_string()), Ok(n));
        assert_eq!(parse_u8(&format!("+{}", n)), Ok(n));
        assert_eq!(parse_u8(&format!("0{}", n)), Ok(n));
    }
    for n in 256..2000u32 {
        assert_eq!(parse_u8(&n.to_string()), Err(Fault::Overflow));
    }
}

#[test]
fn numbers_are_read_as_the_standard_library_reads_them() {
    let tokens = [
        "", "0", "1", "9", "10", "42", "255", "256", "257", "999", "1000", "+", "-", "+0", "-0",
        "+1", "-1", "+255", "+256", "++1", "+-1", "-+1", "1+", "1-", "00", "000", "0255", "0256",
        "a", "1a", "a1", "99x", "999x", "25x6", "2x56", " 1", "1 ", "\t1", "1\n", "1_000", "0x1f",
        "1e3", "1.0", ".", "4294967295", "4294967296", "4294967297", "+4294967295", "+4294967296",
        "42949672950", "429496729", "4294967295x", "429496729x", "4294967296x", "18446744073709551616",
        "\u{661}", "\u{ff11}", "1\u{ff11}", "\u{e9}", "12\u{e9}", "999\u{e9}", "\u{1f600}",
    ];
    for token in tokens {
        assert_eq!(parse_u8(token), std_u8(token), "{:?} as u8", token);
        assert_eq!(parse_u32(token), std_u32(token), "{:?} as u32", token);
    }
}

#[test]
fn short_tokens_are_read_as_the_standard_library_reads_them() {
    let alphabet = ['0', '1', '2', '5', '6', '9', '+', '-', 'x', ' '];
    let mut tokens: Vec<String> = vec![String::new()];
    let mut from = 0;
    for _ in 0..4 {
        let until = tokens.len();
        for i in from..until {
            for c in alphabet {
                let mut longer = tokens[i].clone();
                longer.push(c);
                tokens.push(longer);
            }
        }
        from = until;
    }
    assert_eq!(tokens.len(), 11111);
    for token in tokens {
        assert_eq!(parse_u8(&token), std_u8(&token), "{:?} as u8", token);
        assert_eq!(parse_u32(&token), std_u32(&token), "{:?} as u32", token);
    }
}
