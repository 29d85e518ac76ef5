use window_debug::numeral::chars_of;
use window_debug::numeral::decimal_text;
use window_debug::numeral::parse_radix;
use window_debug::numeral::push_decimal;
use window_debug::numeral::push_padded_upper_hex;
use window_debug::numeral::push_upper_hex;
use window_debug::numeral::upper_hex_len;

fn parse(text: &str, radix: u32, max: u64) -> Option<u64> {
    let chars: Vec<char> = text.chars().collect();
    parse_radix(&chars, radix, max)
}

#[test]
fn decimal_text_of_small_and_large_numbers() {
    assert_eq!(decimal_text(0), "0");
    assert_eq!(decimal_text(7), "7");
    assert_eq!(decimal_text(10), "10");
    assert_eq!(decimal_text(300), "300");
    assert_eq!(decimal_text(1080), "1080");
    assert_eq!(decimal_text(usize::MAX), format!("{}", usize::MAX));
}

#[test]
fn decimal_text_agrees_with_the_formatter() {
    for n in (0..200000usize).step_by(97) {
        assert_eq!(decimal_text(n), format!("{}", n));
    }
}

#[test]
fn push_decimal_appends() {
    let mut text = String::from("w=");
    push_decimal(&mut text, 1920);
    assert_eq!(text, "w=1920");
}

#[test]
fn upper_hex_is_upper_case_without_padding() {
    let mut text = String::new();
    push_upper_hex(&mut text, 0xE6003A);
    assert_eq!(text, "E6003A");
    let mut zero = String::new();
    push_upper_hex(&mut zero, 0);
    assert_eq!(zero, "0");
    assert_eq!(upper_hex_len(0), 1);
    assert_eq!(upper_hex_len(0xF), 1);
    assert_eq!(upper_hex_len(0x10), 2);
    assert_eq!(upper_hex_len(u32::MAX), 8);
}

#[test]
fn padded_hex_agrees_with_the_formatter() {
    for n in [0u32, 1, 0xAB, 0xB300, 0xFFFFF, 0x100000, 0xFFFFFF, 0x1000000, u32::MAX] {
        let mut text = String::new();
        push_padded_upper_hex(&mut text, n, 6);
        assert_eq!(text, format!("{:0>6X}", n));
    }
    let mut narrow = String::from("x");
    push_padded_upper_hex(&mut narrow, 0xABC, 0);
    assert_eq!(narrow, "xABC");
}

#[test]
fn chars_of_keeps_every_character() {
    assert_eq!(chars_of(""), Vec::<char>::new());
    assert_eq!(chars_of("a٣b"), vec!['a', '٣', 'b']);
}

#[test]
fn parse_reads_digits_of_both_cases() {
    assert_eq!(parse("ff", 16, u32::MAX as u64), Some(255));
    assert_eq!(parse("FF8000", 16, u32::MAX as u64), Some(0xFF8000));
    assert_eq!(parse("e6003A", 16, u32::MAX as u64), Some(0xE6003A));
    assert_eq!(parse("0", 10, 100), Some(0));
    assert_eq!(parse("0042", 10, 100), Some(42));
    assert_eq!(parse("z", 36, 100), Some(35));
}

#[test]
fn parse_takes_one_plus_sign() {
    assert_eq!(parse("+7", 10, 100), Some(7));
    assert_eq!(parse("+", 10, 100), None);
    assert_eq!(parse("++7", 10, 100), None);
    assert_eq!(parse("7+", 10, 100), None);
}

#[test]
fn parse_refuses_what_is_no_number() {
    assert_eq!(parse("", 10, 100), None);
    assert_eq!(parse("-", 10, 100), None);
    assert_eq!(parse("-1", 10, 100), None);
    assert_eq!(parse("1_0", 10, 100), None);
    assert_eq!(parse(" 1", 10, 100), None);
    assert_eq!(parse("1 ", 10, 100), None);
    assert_eq!(parse("12a", 10, 100), None);
    assert_eq!(parse("g", 16, 100), None);
    assert_eq!(parse("٣", 10, 100), None);
    assert_eq!(parse("0x10", 16, 100), None);
}

#[test]
fn parse_refuses_numbers_above_the_limit() {
    assert_eq!(parse("100", 10, 100), Some(100));
    assert_eq!(parse("101", 10, 100), None);
    assert_eq!(parse("FFFFFFFF", 16, u32::MAX as u64), Some(u32::MAX as u64));
    assert_eq!(parse("100000000", 16, u32::MAX as u64), None);
    assert_eq!(parse("18446744073709551615", 10, u64::MAX), Some(u64::MAX));
    assert_eq!(parse("18446744073709551616", 10, u64::MAX), None);
    assert_eq!(parse("99999999999999999999999999", 10, u64::MAX), None);
    assert_eq!(parse("00000000000000000000000001", 10, u64::MAX), Some(1));
}

#[test]
fn parse_agrees_with_the_standard_parser() {
    let samples = [
        "", "+", "-", "0", "+0", "-0", "7", "+7", "-7", "007", "12", "4294967295", "4294967296",
        "ff", "FF", "fF", "abcdef", "ABCDEF0", "100000000", "ffffffff", "+ffffffff", "g", "1g",
        " 1", "1 ", "1_000", "0x1f", "٣", "1٣", "++1", "+-1", "9999999999", "00000000000000ff",
    ];
    for text in samples {
        assert_eq!(
            parse(text, 16, u32::MAX as u64),
            u32::from_str_radix(text, 16).ok().map(|v| v as u64),
            "{:?} in hexadecimal",
            text
        );
        assert_eq!(
            parse(text, 10, usize::MAX as u64),
            usize::from_str_radix(text, 10).ok().map(|v| v as u64),
            "{:?} in decimal",
            text
        );
    }
}
