use movie_saver::text::{
    decimal_text, is_space_char, parse_i32, parse_usize, signed_decimal_text, trim,
};

#[test]
fn trim_strips_both_ends() {
    assert_eq!(trim("  Inception \n"), "Inception");
    assert_eq!(trim("\t\r\n x y \u{3000}"), "x y");
    assert_eq!(trim("Dune"), "Dune");
}

#[test]
fn trim_of_blank_is_empty() {
    assert_eq!(trim(""), "");
    assert_eq!(trim(" \n\t "), "");
}

#[test]
fn trim_agrees_with_std_on_unicode_space() {
    let samples = ["\u{a0}a\u{a0}", "\u{2003}b", "c\u{85}", "\u{200b}d\u{200b}", "\u{1680}e\u{205f}"];
    for s in samples {
        assert_eq!(trim(s), s.trim());
    }
}

#[test]
fn white_space_agrees_with_std() {
    let mut n: u32 = 0;
    while n < 0x3100 {
        if let Some(c) = char::from_u32(n) {
            assert_eq!(is_space_char(c), c.is_whitespace(), "code point {}", n);
        }
        n += 1;
    }
}

#[test]
fn parse_usize_reads_plain_numbers() {
    assert_eq!(parse_usize("0"), Some(0));
    assert_eq!(parse_usize("7"), Some(7));
    assert_eq!(parse_usize("+12"), Some(12));
    assert_eq!(parse_usize("0012"), Some(12));
    assert_eq!(parse_usize(&usize::MAX.to_string()), Some(usize::MAX));
}

#[test]
fn parse_usize_rejects_what_is_no_number() {
    assert_eq!(parse_usize(""), None);
    assert_eq!(parse_usize("+"), None);
    assert_eq!(parse_usize("-1"), None);
    assert_eq!(parse_usize("-0"), None);
    assert_eq!(parse_usize("1 "), None);
    assert_eq!(parse_usize("1.5"), None);
    assert_eq!(parse_usize("++1"), None);
    assert_eq!(parse_usize("99999999999999999999999999"), None);
    assert_eq!(parse_usize("18446744073709551616"), None);
}

#[test]
fn parse_usize_agrees_with_std() {
    let samples = ["", "0", "+0", "-0", "12a", "a12", "+", "-", "007", "4294967296", " 1", "١"];
    for s in samples {
        assert_eq!(parse_usize(s), s.parse::<usize>().ok(), "input {:?}", s);
    }
}

#[test]
fn parse_i32_reads_signed_numbers() {
    assert_eq!(parse_i32("2010"), Some(2010));
    assert_eq!(parse_i32("-5"), Some(-5));
    assert_eq!(parse_i32("+7"), Some(7));
    assert_eq!(parse_i32("2147483647"), Some(i32::MAX));
    assert_eq!(parse_i32("-2147483648"), Some(i32::MIN));
    assert_eq!(parse_i32("-0000000000000000000001"), Some(-1));
}

#[test]
fn parse_i32_rejects_what_does_not_fit() {
    assert_eq!(parse_i32("2147483648"), None);
    assert_eq!(parse_i32("-2147483649"), None);
    assert_eq!(parse_i32(""), None);
    assert_eq!(parse_i32("-"), None);
    assert_eq!(parse_i32("+"), None);
    assert_eq!(parse_i32("+-1"), None);
    assert_eq!(parse_i32("20x0"), None);
    assert_eq!(parse_i32("99999999999999999999999999999999999999999"), None);
}

#[test]
fn parse_i32_agrees_with_std() {
    let samples = ["", "0", "+0", "-0", "12a", "-12", "--1", "00", "2147483647", "2147483648", "1e3"];
    for s in samples {
        assert_eq!(parse_i32(s), s.parse::<i32>().ok(), "input {:?}", s);
    }
}

#[test]
fn decimal_text_writes_base_ten() {
    assert_eq!(decimal_text(0), "0");
    assert_eq!(decimal_text(9), "9");
    assert_eq!(decimal_text(10), "10");
    assert_eq!(decimal_text(2021), "2021");
    assert_eq!(decimal_text(u64::MAX), "18446744073709551615");
}

#[test]
fn signed_decimal_text_writes_the_sign() {
    assert_eq!(signed_decimal_text(0), "0");
    assert_eq!(signed_decimal_text(2010), "2010");
    assert_eq!(signed_decimal_text(-44), "-44");
    assert_eq!(signed_decimal_text(i32::MIN), "-2147483648");
    assert_eq!(signed_decimal_text(i32::MAX), "2147483647");
}

#[test]
fn decimal_reads_back() {
    for v in [0, 1, -1, 10, -10, 1999, i32::MAX, i32::MIN] {
        assert_eq!(parse_i32(&signed_decimal_text(v)), Some(v));
    }
}
