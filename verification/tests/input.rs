use guess_game::input::{parse_input, ParseError};
use std::num::IntErrorKind;

/// What std makes of the same line: line feeds at the end dropped, then the
/// white space around, then the rest read as a `u32`.
fn by_std(line: &str) -> Result<u32, ParseError> {
    match line.trim_end_matches('\n').trim().parse::<u32>() {
        Ok(number) => Ok(number),
        Err(error) => match error.kind() {
            IntErrorKind::Empty => Err(ParseError::Empty),
            IntErrorKind::InvalidDigit => Err(ParseError::InvalidDigit),
            IntErrorKind::PosOverflow => Err(ParseError::PosOverflow),
            _ => panic!("no such error for an unsigned number"),
        },
    }
}

#[test]
fn plain_numbers_are_read() {
    assert_eq!(parse_input("0"), Ok(0));
    assert_eq!(parse_input("7"), Ok(7));
    assert_eq!(parse_input("42"), Ok(42));
    assert_eq!(parse_input("99"), Ok(99));
    assert_eq!(parse_input("10000"), Ok(10_000));
    assert_eq!(parse_input("4294967295"), Ok(u32::MAX));
}

#[test]
fn line_ends_and_white_space_around_are_dropped() {
    assert_eq!(parse_input("42\n"), Ok(42));
    assert_eq!(parse_input("42\r\n"), Ok(42));
    assert_eq!(parse_input("42\n\n\n"), Ok(42));
    assert_eq!(parse_input("  42  "), Ok(42));
    assert_eq!(parse_input("\t42 \n"), Ok(42));
    assert_eq!(parse_input("\u{a0}42\u{3000}"), Ok(42));
    assert_eq!(parse_input("\n42"), Ok(42));
}

#[test]
fn plus_sign_and_leading_zeros_are_accepted() {
    assert_eq!(parse_input("+42"), Ok(42));
    assert_eq!(parse_input(" +7\n"), Ok(7));
    assert_eq!(parse_input("007"), Ok(7));
    assert_eq!(parse_input("+0"), Ok(0));
    assert_eq!(parse_input("000000000000000000004294967295"), Ok(u32::MAX));
}

#[test]
fn empty_lines_are_empty() {
    assert_eq!(parse_input(""), Err(ParseError::Empty));
    assert_eq!(parse_input("\n"), Err(ParseError::Empty));
    assert_eq!(parse_input("   "), Err(ParseError::Empty));
    assert_eq!(parse_input(" \t\r\n"), Err(ParseError::Empty));
    assert_eq!(parse_input("\0"), Err(ParseError::InvalidDigit));
}

#[test]
fn text_that_is_not_digits_is_refused() {
    assert_eq!(parse_input("abc"), Err(ParseError::InvalidDigit));
    assert_eq!(parse_input("12a"), Err(ParseError::InvalidDigit));
    assert_eq!(parse_input("a12"), Err(ParseError::InvalidDigit));
    assert_eq!(parse_input("4 2"), Err(ParseError::InvalidDigit));
    assert_eq!(parse_input("-1"), Err(ParseError::InvalidDigit));
    assert_eq!(parse_input("-"), Err(ParseError::InvalidDigit));
    assert_eq!(parse_input("+"), Err(ParseError::InvalidDigit));
    assert_eq!(parse_input("++1"), Err(ParseError::InvalidDigit));
    assert_eq!(parse_input("+ 1"), Err(ParseError::InvalidDigit));
    assert_eq!(parse_input("1_000"), Err(ParseError::InvalidDigit));
    assert_eq!(parse_input("4.2"), Err(ParseError::InvalidDigit));
    assert_eq!(parse_input("0x10"), Err(ParseError::InvalidDigit));
    assert_eq!(parse_input("\u{0664}\u{0662}"), Err(ParseError::InvalidDigit));
    assert_eq!(parse_input("\u{ff14}\u{ff12}"), Err(ParseError::InvalidDigit));
}

#[test]
fn numbers_above_the_largest_are_refused() {
    assert_eq!(parse_input("4294967296"), Err(ParseError::PosOverflow));
    assert_eq!(parse_input("4294967300"), Err(ParseError::PosOverflow));
    assert_eq!(parse_input("42949672950"), Err(ParseError::PosOverflow));
    assert_eq!(parse_input("99999999999999999999999999"), Err(ParseError::PosOverflow));
    assert_eq!(parse_input("+4294967296\n"), Err(ParseError::PosOverflow));
}

#[test]
fn what_goes_wrong_first_decides_the_error() {
    assert_eq!(parse_input("99999999999x"), Err(ParseError::PosOverflow));
    assert_eq!(parse_input("4294967296x"), Err(ParseError::PosOverflow));
    assert_eq!(parse_input("4294967295x"), Err(ParseError::InvalidDigit));
    assert_eq!(parse_input("9x99999999999"), Err(ParseError::InvalidDigit));
    assert_eq!(parse_input("x99999999999"), Err(ParseError::InvalidDigit));
}

#[test]
fn agrees_with_std_on_sample_lines() {
    let lines = [
        "", "\n", " ", "0", "1", "50", "99", "100", "+", "-", "+1", "-1", "++1", "+-1", "1+",
        "12 34", " 12", "12 ", "\t12\t", "12\n", "12\r\n", "\n12\n", "12\n ", "12 \n\n",
        "4294967295", "4294967296", "04294967295", "+4294967295", "+4294967296", "42949672950",
        "4294967295x", "4294967296x", "99999999999x", "1e3", "1.0", "0b1", "0x1", "1_0", "١٢٣",
        "１２", "1\u{a0}", "\u{a0}1", "\u{2003}1\u{2003}", "1\u{200b}", "\u{feff}1", "1\u{85}",
        "\u{1680}7\u{205f}", "\u{180e}7", "7\u{2028}\u{2029}", "\u{202f}7", "\u{b}7\u{c}", "7\0",
        "00000000000000000000", "00000000000000000001", "18446744073709551616", "  +  ",
    ];
    for line in lines {
        assert_eq!(parse_input(line), by_std(line), "line {:?}", line);
    }
}

#[test]
fn agrees_with_std_on_every_number_near_the_bounds() {
    for number in (0..=2000u64).chain(4_294_965_000..=4_294_969_000) {
        let line = format!("{}\n", number);
        assert_eq!(parse_input(&line), by_std(&line), "line {:?}", line);
        if number <= u32::MAX as u64 {
            assert_eq!(parse_input(&line), Ok(number as u32));
        } else {
            assert_eq!(parse_input(&line), Err(ParseError::PosOverflow));
        }
    }
}

#[test]
fn agrees_with_std_on_every_character_around_a_digit() {
    for code in 0..=0x10ffffu32 {
        if let Some(c) = char::from_u32(code) {
            let before = format!("{}7", c);
            assert_eq!(parse_input(&before), by_std(&before), "line {:?}", before);
            let after = format!("7{}", c);
            assert_eq!(parse_input(&after), by_std(&after), "line {:?}", after);
            if c.is_whitespace() {
                assert_eq!(parse_input(&before), Ok(7));
                assert_eq!(parse_input(&after), Ok(7));
            }
        }
    }
}

#[test]
fn agrees_with_std_on_every_short_line_of_a_few_characters() {
    let alphabet = ['0', '1', '9', '+', '-', ' ', '\n', 'x'];
    let mut lines: Vec<String> = vec![String::new()];
    let mut last: Vec<String> = vec![String::new()];
    for _ in 0..5 {
        let mut longer: Vec<String> = Vec::new();
        for line in &last {
            for c in alphabet {
                let mut grown = line.clone();
                grown.push(c);
                longer.push(grown);
            }
        }
        lines.extend(longer.iter().cloned());
        last = longer;
    }
    assert_eq!(lines.len(), 1 + 8 + 64 + 512 + 4096 + 32768);
    for line in &lines {
        assert_eq!(parse_input(line), by_std(line), "line {:?}", line);
    }
}
