use crosspoint_service::text::{
    chars_of, has_char, is_whitespace, parse_i32, parse_usize, push_decimal,
    push_decimal_text, push_two_digits, push_unsigned_text, split_at_each, str_eq, string_of,
    trimmed, without_leading,
};

fn chars(text: &str) -> Vec<char> {
    text.chars().collect()
}

fn pieces(text: &str, sep: char) -> Vec<String> {
    split_at_each(&chars(text), sep).iter().map(|piece| piece.iter().collect()).collect()
}

#[test]
fn characters_of_a_string_and_back() {
    assert_eq!(chars_of("aö—z"), vec!['a', 'ö', '—', 'z']);
    assert_eq!(chars_of(""), Vec::<char>::new());
    assert_eq!(string_of(&vec!['a', 'ö', '—', 'z']), "aö—z");
    assert_eq!(string_of(&vec![]), "");
}

#[test]
fn strings_are_equal_when_their_characters_are() {
    assert!(str_eq("", ""));
    assert!(str_eq("Zwölf", "Zwölf"));
    assert!(!str_eq("Zwölf", "Zwolf"));
    assert!(!str_eq("abc", "ab"));
    assert!(!str_eq("ab", "abc"));
    assert!(!str_eq("a", "b"));
}

#[test]
fn decimal_digits_of_a_number() {
    let mut out = vec![b'#'];
    push_decimal(&mut out, 0);
    push_decimal(&mut out, 7);
    push_decimal(&mut out, 10);
    push_decimal(&mut out, 1872);
    push_decimal(&mut out, u64::MAX);
    assert_eq!(out, b"#0710187218446744073709551615".to_vec());
}

#[test]
fn two_digits_at_least() {
    let mut out = Vec::new();
    for n in [0, 5, 9, 10, 16, 99, 100, 12345] {
        push_two_digits(&mut out, n);
        out.push(b' ');
    }
    assert_eq!(out, b"00 05 09 10 16 99 100 12345 ".to_vec());
}

#[test]
fn numbers_as_they_are_printed() {
    let mut text = String::from("n=");
    push_decimal_text(&mut text, 0);
    text.push(',');
    push_decimal_text(&mut text, -1);
    text.push(',');
    push_decimal_text(&mut text, i64::MAX);
    text.push(',');
    push_decimal_text(&mut text, i64::MIN);
    text.push(',');
    push_unsigned_text(&mut text, u64::MAX);
    assert_eq!(
        text,
        format!("n=0,-1,{},{},{}", i64::MAX, i64::MIN, u64::MAX)
    );
}

#[test]
fn parse_i32_agrees_with_the_standard_library() {
    let cases = [
        "", "0", "7", "007", "+7", "-7", "+", "-", "+-7", "--7", "7 ", " 7", "7a", "a7", "1_000",
        "2147483647", "2147483648", "-2147483648", "-2147483649", "+2147483647",
        "00000000000000000000002147483647", "99999999999999999999999999", "-0", "+0", "٣", "1.0",
        "0x10", "１２",
    ];
    for case in cases {
        assert_eq!(parse_i32(&chars(case)), case.parse::<i32>().ok(), "{:?}", case);
    }
    assert_eq!(parse_i32(&chars("-2147483648")), Some(i32::MIN));
    assert_eq!(parse_i32(&chars("12")), Some(12));
    assert_eq!(parse_i32(&chars("2147483648")), None);
}

#[test]
fn parse_usize_agrees_with_the_standard_library() {
    let cases = [
        "", "0", "7", "007", "+7", "-7", "-0", "+", "-", "7 ", " 7", "7a",
        "18446744073709551615", "18446744073709551616", "4294967295", "4294967296",
        "000000000000000000000000000018446744073709551615", "99999999999999999999999999",
        "184467440737095516150", "1e3",
    ];
    for case in cases {
        assert_eq!(parse_usize(&chars(case)), case.parse::<usize>().ok(), "{:?}", case);
    }
    assert_eq!(parse_usize(&chars("+45")), Some(45));
}

#[test]
fn white_space_is_what_the_standard_library_says() {
    for code in 0u32..=0x3100 {
        if let Some(c) = char::from_u32(code) {
            assert_eq!(is_whitespace(c), c.is_whitespace(), "{:x}", code);
        }
    }
    assert!(!is_whitespace('\u{feff}'));
    assert!(!is_whitespace('\u{10ffff}'));
    assert!(is_whitespace('\u{3000}'));
}

#[test]
fn trimmed_agrees_with_the_standard_library() {
    for case in ["", " ", "  a b  ", "\r\nV1X2\r\n", "a", "\u{a0}x\u{2003}", "\t \n", "x \u{feff} "] {
        let expected: Vec<char> = case.trim().chars().collect();
        assert_eq!(trimmed(&chars(case)), expected, "{:?}", case);
    }
    assert_eq!(trimmed(&chars("  a b  ")), vec!['a', ' ', 'b']);
}

#[test]
fn split_agrees_with_the_standard_library() {
    for case in ["", " ", "a", "a b", " a  b ", "a b c", "   ", "ö ü"] {
        let expected: Vec<String> = case.split(' ').map(String::from).collect();
        assert_eq!(pieces(case, ' '), expected, "{:?}", case);
    }
    assert_eq!(pieces("a:b::c:", ':'), vec!["a", "b", "", "c", ""]);
    assert_eq!(pieces("", ':'), vec![""]);
}

#[test]
fn leading_run_is_removed() {
    for case in ["", "V", "VVV", "V12", "VV12V", "12", "vV1", "///a/b/"] {
        let expected: Vec<char> = case.trim_start_matches('V').chars().collect();
        assert_eq!(without_leading(&chars(case), 'V'), expected, "{:?}", case);
    }
    assert_eq!(without_leading(&chars("///a/b/"), '/'), chars("a/b/"));
}

#[test]
fn has_char_finds_a_character() {
    assert!(has_char(&chars("a=b"), '='));
    assert!(has_char(&chars("="), '='));
    assert!(!has_char(&chars("ab"), '='));
    assert!(!has_char(&chars(""), '='));
}
