use befunge_rust::interpreter::operations::{
    coordinate, difference, divide, low_bits, modulo, pick_direction, product, random_direction,
    sum,
};
use befunge_rust::interpreter::Direction;
use befunge_rust::text::{
    append, line_end, magnitude, parse_between, push_decimal, push_hex, push_integer,
    push_latin1, trim_bounds,
};

fn parse(text: &str) -> Option<i64> {
    parse_between(text.as_bytes(), 0, text.len())
}

fn trimmed(text: &str) -> &str {
    let (from, to) = trim_bounds(text.as_bytes(), 0, text.len());
    &text[from..to]
}

#[test]
fn decimal_text_of_integers() {
    let mut out = Vec::new();
    push_decimal(&mut out, 0);
    push_decimal(&mut out, 9);
    push_decimal(&mut out, 10);
    push_decimal(&mut out, u64::MAX);
    assert_eq!(out, b"091018446744073709551615".to_vec());
    let mut out = b"=".to_vec();
    push_integer(&mut out, -120);
    push_integer(&mut out, 120);
    push_integer(&mut out, i64::MIN);
    assert_eq!(out, b"=-120120-9223372036854775808".to_vec());
    assert_eq!(magnitude(i64::MIN), 1u64 << 63);
    assert_eq!(magnitude(-5), 5);
    assert_eq!(magnitude(5), 5);
}

#[test]
fn hexadecimal_digits_are_upper_case() {
    let mut out = Vec::new();
    push_hex(&mut out, 0);
    push_hex(&mut out, 0xBEEF);
    push_hex(&mut out, u64::MAX);
    assert_eq!(out, b"0BEEFFFFFFFFFFFFFFFFF".to_vec());
}

#[test]
fn high_bytes_take_two_bytes_as_characters() {
    let mut out = Vec::new();
    for byte in [0u8, 65, 127, 128, 233, 255] {
        push_latin1(&mut out, byte);
    }
    let expected: String = [0u8, 65, 127, 128, 233, 255].iter().map(|&b| b as char).collect();
    assert_eq!(out, expected.into_bytes());
    append(&mut out, b"xy");
    assert_eq!(&out[out.len() - 2..], b"xy");
}

#[test]
fn lines_end_behind_the_line_feed() {
    let text = b"ab\ncd\n\nef";
    assert_eq!(line_end(text, 0), 3);
    assert_eq!(line_end(text, 1), 3);
    assert_eq!(line_end(text, 3), 6);
    assert_eq!(line_end(text, 6), 7);
    assert_eq!(line_end(text, 7), 9);
    assert_eq!(line_end(text, 9), 9);
}

#[test]
fn trim_takes_white_space_from_both_ends() {
    for text in [
        "", " ", "a", " a", "a ", " a b ", "\t\n\u{b}\u{c}\r x \r\n", "\u{85}x\u{a0}",
        "\u{1680}x\u{2000}", "\u{200a}x\u{2028}", "\u{2029}x\u{202f}", "\u{205f}x\u{3000}",
        "\u{200b}x\u{200b}", "\u{e9} x \u{e9}", " \u{3000} ", "x\u{feff}",
    ] {
        assert_eq!(trimmed(text), text.trim());
    }
    assert_eq!(trim_bounds(b"  ab  ", 1, 5), (2, 4));
    assert_eq!(trim_bounds(b"    ", 1, 3), (3, 3));
}

#[test]
fn integers_parse_as_signed_decimals() {
    for text in [
        "0", "7", "-7", "+7", "007", "-0", "+0", "9223372036854775807", "-9223372036854775808",
        "9223372036854775808", "-9223372036854775809", "99999999999999999999999", "", "+", "-",
        "--1", "+-1", "1-", "1 ", " 1", "1_000", "0x10", "١", "1e3",
        "000000000000000000000000000000000000000123",
    ] {
        assert_eq!(parse(text), text.parse::<i64>().ok());
    }
    assert_eq!(parse("120"), Some(120));
    assert_eq!(parse_between(b"ab-12cd", 2, 5), Some(-12));
    assert_eq!(parse_between(b"ab-12cd", 2, 6), None);
}

#[test]
fn arithmetic_is_total() {
    assert_eq!(sum(2, 3), 5);
    assert_eq!(sum(i64::MAX, i64::MAX), -2);
    assert_eq!(difference(2, 3), -1);
    assert_eq!(difference(i64::MIN, i64::MAX), 1);
    assert_eq!(product(-4, 5), -20);
    assert_eq!(product(i64::MIN, -1), i64::MIN);
    assert_eq!(divide(9, 2), 4);
    assert_eq!(divide(-9, 2), -4);
    assert_eq!(divide(i64::MIN, -1), i64::MIN);
    assert_eq!(modulo(8, 3), 2);
    assert_eq!(modulo(-8, 3), -2);
    assert_eq!(modulo(i64::MIN, -1), 0);
    assert_eq!(low_bits(0x141), 0x41);
    assert_eq!(low_bits(-1), 255);
    assert_eq!(low_bits(-256), 0);
    assert_eq!(coordinate(7, 5), 2);
    assert_eq!(coordinate(-1, 10), 5);
    assert_eq!(coordinate(i64::MIN, 3), ((1u64 << 63) % 3) as usize);
}

#[test]
fn two_tosses_pick_a_direction() {
    assert_eq!(pick_direction(true, true), Direction::Up);
    assert_eq!(pick_direction(true, false), Direction::Down);
    assert_eq!(pick_direction(false, true), Direction::Left);
    assert_eq!(pick_direction(false, false), Direction::Right);
    let mut seen = [false; 4];
    for _ in 0..400 {
        let index = match random_direction() {
            Direction::Up => 0,
            Direction::Down => 1,
            Direction::Left => 2,
            Direction::Right => 3,
        };
        seen[index] = true;
    }
    assert_eq!(seen, [true; 4]);
}
