use nsh::text::{blank, characters, decimal, digit, integer};

#[test]
fn blank_is_unicode_white_space() {
    let mut code: u32 = 0;
    while code <= 0x10ffff {
        if let Some(c) = char::from_u32(code) {
            assert_eq!(blank(c), c.is_whitespace(), "U+{:04X}", code);
        }
        code += 1;
    }
}

#[test]
fn digit_is_an_ascii_digit() {
    assert!(digit('0'));
    assert!(digit('9'));
    assert!(!digit('a'));
    assert!(!digit('/'));
    assert!(!digit(':'));
    assert!(!digit('\u{0663}'));
}

#[test]
fn integer_reads_what_the_standard_library_reads() {
    let cases = [
        "0", "7", "42", "-1", "+5", "-0", "+0", "007", "2147483647", "2147483648", "-2147483648",
        "-2147483649", "99999999999999999999", "", "+", "-", "--1", "+-1", "1a", "a1", " 1", "1 ",
        "1.5", "0x10", "१२",
    ];
    for case in cases {
        assert_eq!(integer(case), case.parse::<i32>().ok(), "{:?}", case);
    }
    assert_eq!(integer("2147483647"), Some(i32::MAX));
    assert_eq!(integer("-2147483648"), Some(i32::MIN));
    assert_eq!(integer("abc"), None);
}

#[test]
fn decimal_writes_what_the_standard_library_writes() {
    for n in [0, 1, 9, 10, 11, 99, 100, 12345, -1, -10, -999, i32::MAX, i32::MIN] {
        assert_eq!(decimal(n), n.to_string());
    }
}

#[test]
fn integer_reads_back_what_decimal_writes() {
    for n in [0, 5, -5, 1000, -1000, i32::MAX, i32::MIN] {
        assert_eq!(integer(&decimal(n)), Some(n));
    }
}

#[test]
fn characters_are_those_of_the_text() {
    assert_eq!(characters("añ🙂"), vec!['a', 'ñ', '🙂']);
    assert_eq!(characters(""), Vec::<char>::new());
}
