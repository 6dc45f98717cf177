use tello_autopilot::number::{
    digit, digit_of, parse_isize, parse_usize, push_int_text, push_nat_text, read_in_range,
    scan_integer, Reading,
};
use tello_autopilot::text::{
    chars_of, copy_range, join_words, split, split_words, string_of, trimmed, whitespace, word_is,
};

fn chars(s: &str) -> Vec<char> {
    s.chars().collect()
}

fn strings(v: Vec<Vec<char>>) -> Vec<String> {
    v.into_iter().map(|w| w.into_iter().collect()).collect()
}

#[test]
fn strings_and_characters() {
    assert_eq!(chars_of("a\u{e9}\u{1F681}"), vec!['a', '\u{e9}', '\u{1F681}']);
    assert_eq!(chars_of(""), Vec::<char>::new());
    assert_eq!(string_of(&['u', 'p', ' ', '2', '0']), "up 20");
    assert_eq!(string_of(&[]), "");
    assert_eq!(string_of(&chars_of("caf\u{e9}")), "caf\u{e9}");
    assert_eq!(copy_range(&chars("abcdef"), 2, 4), vec!['c', 'd']);
    assert_eq!(copy_range(&chars("abcdef"), 3, 3), Vec::<char>::new());
    assert_eq!(copy_range(&chars("abcdef"), 0, 6), chars("abcdef"));
}

#[test]
fn white_space_is_the_unicode_property() {
    for c in ['\t', '\n', '\u{0B}', '\u{0C}', '\r', ' ', '\u{85}', '\u{A0}', '\u{1680}', '\u{2000}',
        '\u{2005}', '\u{200A}', '\u{2028}', '\u{2029}', '\u{202F}', '\u{205F}', '\u{3000}']
    {
        assert!(whitespace(c));
    }
    for c in ['a', '0', ';', ':', 'A', '\u{08}', '\u{0E}', '\u{1F}', '!', '\u{200B}', '\u{FEFF}',
        '\u{1FFF}', '\u{2001}'.max('\u{200B}')]
    {
        assert!(!whitespace(c));
    }
    for n in 0..0x3100u32 {
        if let Some(c) = char::from_u32(n) {
            assert_eq!(whitespace(c), c.is_whitespace(), "{:x}", n);
        }
    }
}

#[test]
fn trimming() {
    assert_eq!(trimmed(&chars("  a b \r\n")), chars("a b"));
    assert_eq!(trimmed(&chars("a")), chars("a"));
    assert_eq!(trimmed(&chars("")), chars(""));
    assert_eq!(trimmed(&chars(" \t ")), chars(""));
    assert_eq!(trimmed(&chars("\u{3000}x\u{A0}")), chars("x"));
    for s in ["", " ", "x", " x", "x ", "  up  20  ", "\n\n", "a\tb"] {
        assert_eq!(trimmed(&chars(s)), chars(s.trim()));
    }
}

#[test]
fn splitting_at_a_separator() {
    assert_eq!(strings(split(&chars("a;b;c"), ';')), vec!["a", "b", "c"]);
    assert_eq!(strings(split(&chars("a;b;"), ';')), vec!["a", "b", ""]);
    assert_eq!(strings(split(&chars(";a"), ';')), vec!["", "a"]);
    assert_eq!(strings(split(&chars(""), ';')), vec![""]);
    assert_eq!(strings(split(&chars(";;"), ';')), vec!["", "", ""]);
    assert_eq!(strings(split(&chars("key:value"), ':')), vec!["key", "value"]);
    for s in ["", ";", "a", "a;", ";a", "a;;b", "x:y;z", ";;;"] {
        let expected: Vec<String> = s.split(';').map(|p| p.to_string()).collect();
        assert_eq!(strings(split(&chars(s), ';')), expected);
    }
}

#[test]
fn splitting_into_words() {
    assert_eq!(strings(split_words(&chars("go -100 50 0 30"))), vec!["go", "-100", "50", "0", "30"]);
    assert_eq!(strings(split_words(&chars("  up \t 20\r\n"))), vec!["up", "20"]);
    assert_eq!(strings(split_words(&chars(""))), Vec::<String>::new());
    assert_eq!(strings(split_words(&chars(" \n "))), Vec::<String>::new());
    for s in ["", " ", "x", " x", "x ", "  up  20  ", "a\u{A0}b", "one two  three\tfour\n"] {
        let expected: Vec<String> = s.split_whitespace().map(|p| p.to_string()).collect();
        assert_eq!(strings(split_words(&chars(s))), expected);
    }
}

#[test]
fn joining_words() {
    assert_eq!(join_words(&vec![chars("up"), chars("20")]), chars("up 20"));
    assert_eq!(join_words(&vec![chars("land")]), chars("land"));
    assert_eq!(join_words(&vec![]), chars(""));
    assert_eq!(join_words(&vec![chars("a"), chars(""), chars("b")]), chars("a  b"));
    let words = vec![chars("curve"), chars("-1"), chars("2")];
    assert_eq!(split_words(&join_words(&words)), words);
}

#[test]
fn comparing_with_a_word() {
    assert!(word_is(&chars("up"), "up"));
    assert!(!word_is(&chars("up"), "u"));
    assert!(!word_is(&chars("u"), "up"));
    assert!(!word_is(&chars("uq"), "up"));
    assert!(word_is(&chars(""), ""));
    assert!(!word_is(&chars(""), "x"));
    assert!(word_is(&chars("battery?"), "battery?"));
}

#[test]
fn digits() {
    for (i, c) in "0123456789".chars().enumerate() {
        assert_eq!(digit(c), Some(i as u8));
        assert_eq!(digit_of(i as u8), c);
    }
    for c in ['a', ' ', '+', '-', '.', '/', ':', '\u{0661}', '\u{FF11}'] {
        assert_eq!(digit(c), None);
    }
}

#[test]
fn unsigned_numerals() {
    assert_eq!(parse_usize(&chars("0")), Some(0));
    assert_eq!(parse_usize(&chars("6553")), Some(6553));
    assert_eq!(parse_usize(&chars("+83")), Some(83));
    assert_eq!(parse_usize(&chars("007")), Some(7));
    assert_eq!(parse_usize(&chars(&usize::MAX.to_string())), Some(usize::MAX));
    assert_eq!(parse_usize(&chars("18446744073709551616")), None);
    assert_eq!(parse_usize(&chars("99999999999999999999999999")), None);
    assert_eq!(parse_usize(&chars("-0")), None);
    assert_eq!(parse_usize(&chars("-5")), None);
    assert_eq!(parse_usize(&chars("")), None);
    assert_eq!(parse_usize(&chars("+")), None);
    assert_eq!(parse_usize(&chars("1 ")), None);
    assert_eq!(parse_usize(&chars("1.0")), None);
    assert_eq!(parse_usize(&chars("++1")), None);
    for s in ["0", "12", "+12", "-12", "", "+", "-", "1a", " 1", "18446744073709551615",
        "18446744073709551616", "000000000000000000000000001"]
    {
        assert_eq!(parse_usize(&chars(s)), s.parse::<usize>().ok(), "{}", s);
    }
}

#[test]
fn signed_numerals() {
    assert_eq!(parse_isize(&chars("-102")), Some(-102));
    assert_eq!(parse_isize(&chars("+34")), Some(34));
    assert_eq!(parse_isize(&chars("-0")), Some(0));
    assert_eq!(parse_isize(&chars(&isize::MIN.to_string())), Some(isize::MIN));
    assert_eq!(parse_isize(&chars(&isize::MAX.to_string())), Some(isize::MAX));
    for s in ["0", "12", "+12", "-12", "", "+", "-", "1a", " 1", "-", "--1", "+-1",
        "9223372036854775807", "9223372036854775808", "-9223372036854775808",
        "-9223372036854775809", "-00000000000000000000000000000009"]
    {
        assert_eq!(parse_isize(&chars(s)), s.parse::<isize>().ok(), "{}", s);
    }
}

#[test]
fn scanning_keeps_the_sign_and_marks_what_does_not_fit() {
    let n = scan_integer(&chars("-42")).unwrap();
    assert!(n.negative && n.magnitude.exact && n.magnitude.value == 42);
    let n = scan_integer(&chars("18446744073709551615")).unwrap();
    assert!(!n.negative && n.magnitude.exact && n.magnitude.value == u64::MAX);
    let n = scan_integer(&chars("18446744073709551616")).unwrap();
    assert!(!n.magnitude.exact);
    assert!(scan_integer(&chars("4x")).is_none());
    assert!(scan_integer(&chars("")).is_none());
}

#[test]
fn reading_against_a_range() {
    assert_eq!(read_in_range(&chars("20"), 20, 500), Reading::Value(20));
    assert_eq!(read_in_range(&chars("500"), 20, 500), Reading::Value(500));
    assert_eq!(read_in_range(&chars("19"), 20, 500), Reading::OutOfRange);
    assert_eq!(read_in_range(&chars("501"), 20, 500), Reading::OutOfRange);
    assert_eq!(read_in_range(&chars("-500"), -500, 500), Reading::Value(-500));
    assert_eq!(read_in_range(&chars("-501"), -500, 500), Reading::OutOfRange);
    assert_eq!(read_in_range(&chars("abc"), -500, 500), Reading::Malformed);
    assert_eq!(read_in_range(&chars(""), -500, 500), Reading::Malformed);
    assert_eq!(read_in_range(&chars("99999999999999999999"), 0, i64::MAX), Reading::OutOfRange);
    assert_eq!(
        read_in_range(&chars("-9223372036854775808"), i64::MIN, 0),
        Reading::Value(i64::MIN)
    );
    assert_eq!(read_in_range(&chars("-9223372036854775808"), -5, 0), Reading::OutOfRange);
    assert_eq!(read_in_range(&chars("9223372036854775808"), i64::MIN, i64::MAX), Reading::OutOfRange);
    assert_eq!(
        read_in_range(&chars("9223372036854775807"), i64::MIN, i64::MAX),
        Reading::Value(i64::MAX)
    );
}

#[test]
fn writing_numbers() {
    for n in [0u64, 1, 9, 10, 11, 99, 100, 500, 6553, u64::MAX] {
        let mut out = chars("n=");
        push_nat_text(&mut out, n);
        assert_eq!(out, chars(&format!("n={}", n)));
    }
    for i in [0i64, 1, -1, 10, -10, -102, 326, 411, i64::MAX, i64::MIN] {
        let mut out = Vec::new();
        push_int_text(&mut out, i);
        assert_eq!(out, chars(&i.to_string()));
        assert_eq!(parse_isize(&out), Some(i as isize));
    }
}
