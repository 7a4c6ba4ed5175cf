use listing_watch::text::{
    chars_of, class_has, i32_to_string, parse_decimal, same_text, scan_run, split_segments,
    starts_at, strip_commas, trim_bounds, CharClass, NumberError,
};

fn chars(s: &str) -> Vec<char> {
    s.chars().collect()
}

fn text(v: &[char]) -> String {
    v.iter().collect()
}

#[test]
fn chars_of_is_the_characters() {
    assert_eq!(chars_of("a★b"), vec!['a', '★', 'b']);
    assert_eq!(chars_of(""), Vec::<char>::new());
}

#[test]
fn space_class_is_unicode_white_space() {
    let mut code: u32 = 0;
    while code <= 0x10FFFF {
        if let Some(c) = char::from_u32(code) {
            assert_eq!(class_has(CharClass::Space, c), c.is_whitespace(), "U+{:X}", code);
        }
        code += 1;
    }
}

#[test]
fn classes_hold_what_they_name() {
    for c in ['a', 'Z', ' '] {
        assert!(class_has(CharClass::Word, c));
        assert!(class_has(CharClass::Grade, c));
    }
    assert!(!class_has(CharClass::Word, '-'));
    assert!(class_has(CharClass::Grade, '-'));
    assert!(!class_has(CharClass::Word, '4'));
    assert!(!class_has(CharClass::Grade, '('));
    assert!(class_has(CharClass::Digit, '0') && class_has(CharClass::Digit, '9'));
    assert!(!class_has(CharClass::Digit, ','));
    assert!(!class_has(CharClass::Digit, '٣'));
    assert!(class_has(CharClass::Amount, ',') && class_has(CharClass::Amount, '5'));
    assert!(!class_has(CharClass::Amount, '円'));
}

#[test]
fn run_ends_at_the_first_stranger() {
    let v = chars("abc12 x");
    assert_eq!(scan_run(&v, 0, CharClass::Word), 3);
    assert_eq!(scan_run(&v, 3, CharClass::Digit), 5);
    assert_eq!(scan_run(&v, 3, CharClass::Word), 3);
    assert_eq!(scan_run(&v, 5, CharClass::Word), 7);
    assert_eq!(scan_run(&v, 7, CharClass::Word), 7);
}

#[test]
fn literal_is_found_where_it_stands() {
    let v = chars("a | b");
    let sep = chars(" | ");
    assert!(starts_at(&v, 1, &sep));
    assert!(!starts_at(&v, 0, &sep));
    assert!(!starts_at(&v, 3, &sep));
    assert!(!starts_at(&v, 5, &sep));
    assert!(starts_at(&v, 5, &Vec::new()));
}

#[test]
fn same_text_compares_characters() {
    assert!(same_text("★", "★"));
    assert!(!same_text("★", "★ "));
    assert!(!same_text("ab", "ac"));
    assert!(same_text("", ""));
}

#[test]
fn trimming_agrees_with_std() {
    for s in ["", " ", "  a b  ", "\u{3000}★\n", "x", "\t\r\n", " a", "a ", "\u{a0}q\u{2003}"] {
        let v = chars(s);
        let (start, end) = trim_bounds(&v);
        assert_eq!(text(&v[start..end]), s.trim(), "{:?}", s);
    }
}

#[test]
fn splitting_agrees_with_std() {
    for s in [
        "",
        "a",
        "a | b",
        "a | b | c",
        " | ",
        " |  | ",
        " | | ",
        "a |b",
        "a | ",
        " | a",
        "x | y | ",
        " |  |  | ",
        "AK-47 | Redline (Field-Tested) #123",
    ] {
        let v = chars(s);
        let spans = split_segments(&v);
        let got: Vec<String> = spans.iter().map(|span| text(&v[span.start..span.end])).collect();
        let want: Vec<String> = s.split(" | ").map(|part| part.to_string()).collect();
        assert_eq!(got, want, "{:?}", s);
    }
}

#[test]
fn decimal_numerals_are_read() {
    assert_eq!(parse_decimal(&chars("0")), Ok(0));
    assert_eq!(parse_decimal(&chars("007")), Ok(7));
    assert_eq!(parse_decimal(&chars("15000")), Ok(15000));
    assert_eq!(parse_decimal(&chars("2147483647")), Ok(i32::MAX));
    assert_eq!(parse_decimal(&chars("2147483648")), Err(NumberError::PosOverflow));
    assert_eq!(parse_decimal(&chars("99999999999999999999999")), Err(NumberError::PosOverflow));
    assert_eq!(parse_decimal(&chars("")), Err(NumberError::Empty));
    assert_eq!(parse_decimal(&chars("12a")), Err(NumberError::InvalidDigit));
    assert_eq!(parse_decimal(&chars("-1")), Err(NumberError::InvalidDigit));
    assert_eq!(parse_decimal(&chars("99999999999x")), Err(NumberError::PosOverflow));
    assert_eq!(parse_decimal(&chars("1x99999999999")), Err(NumberError::InvalidDigit));
}

#[test]
fn decimal_numerals_agree_with_std_on_digits() {
    for s in ["1", "10", "0000", "123456789", "2147483647", "2147483648", "4294967296"] {
        let got = parse_decimal(&chars(s)).ok();
        let want = s.parse::<i32>().ok();
        assert_eq!(got, want, "{:?}", s);
    }
}

#[test]
fn commas_are_stripped() {
    assert_eq!(text(&strip_commas(&chars("15,000"))), "15000");
    assert_eq!(text(&strip_commas(&chars(",,"))), "");
    assert_eq!(text(&strip_commas(&chars("1,2,3,"))), "123");
    assert_eq!(text(&strip_commas(&chars(""))), "");
}

#[test]
fn numbers_are_written_as_std_writes_them() {
    for n in [0, 1, 9, 10, 11, 99, 100, 15000, -1, -10, -15000, i32::MAX, i32::MIN, i32::MIN + 1] {
        assert_eq!(i32_to_string(n), n.to_string());
    }
}

#[test]
fn number_errors_say_what_std_says() {
    assert_eq!(NumberError::Empty.as_str(), "".parse::<i32>().unwrap_err().to_string());
    assert_eq!(NumberError::InvalidDigit.as_str(), "x".parse::<i32>().unwrap_err().to_string());
    assert_eq!(
        NumberError::PosOverflow.as_str(),
        "99999999999".parse::<i32>().unwrap_err().to_string()
    );
}
