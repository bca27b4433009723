use snek_apollo::text::{
    chars_of, contains_str, find, find_char, lines, parse_number, rfind_char, same, split_at_char,
    starts_with, string_of, to_decimal, to_two_digits, trim, until_char,
};

fn chars(s: &str) -> Vec<char> {
    s.chars().collect()
}

#[test]
fn texts_survive_being_taken_apart() {
    let s = "a\u{e9}\u{1f40d}";
    assert_eq!(chars_of(s), vec!['a', '\u{e9}', '\u{1f40d}']);
    assert_eq!(string_of(&chars_of(s)), s);
    assert_eq!(string_of(&[]), "");
}

#[test]
fn patterns_are_found_where_they_first_occur() {
    assert_eq!(find(&chars("xabab"), &chars("ab")), Some(1));
    assert_eq!(find(&chars("xa"), &chars("ab")), None);
    assert_eq!(find(&chars("x"), &[]), Some(0));
    assert!(contains_str(&chars("x.m3u8?y"), ".m3u8"));
    assert!(starts_with(&chars("https"), "http"));
    assert!(!starts_with(&chars("htt"), "http"));
    assert!(same(&chars("ab"), "ab") && !same(&chars("ab"), "abc"));
    assert_eq!(find_char(&chars("a/b/c"), '/'), Some(1));
    assert_eq!(rfind_char(&chars("a/b/c"), '/'), Some(3));
    assert_eq!(rfind_char(&chars("abc"), '/'), None);
}

#[test]
fn texts_are_trimmed_and_split() {
    assert_eq!(trim(&chars(" \t a b\u{a0}\r\n")), chars("a b").as_slice());
    assert_eq!(trim(&chars("  ")), &[] as &[char]);
    assert_eq!(until_char(&chars("4.5,x"), ','), chars("4.5").as_slice());
    assert_eq!(until_char(&chars("4.5"), ','), chars("4.5").as_slice());
    let (a, b) = (chars("k=v=w"), chars("none"));
    let (key, value) = split_at_char(&a, '=').unwrap();
    assert_eq!((string_of(key).as_str(), string_of(value).as_str()), ("k", "v=w"));
    assert!(split_at_char(&b, '=').is_none());
}

#[test]
fn lines_end_as_lines_do() {
    for s in ["", "a", "a\n", "a\r\nb", "a\r", "\n\n", "a\r\r\nb\n", "\r\n", "x\n\r"] {
        let got: Vec<String> = lines(&chars(s)).iter().map(|l| string_of(l)).collect();
        let want: Vec<&str> = s.lines().collect();
        assert_eq!(got, want);
    }
}

#[test]
fn numbers_are_read() {
    for s in ["0", "7", "+7", "007", "18446744073709551615", "18446744073709551616", "", "+", "-1", "1a", " 1"] {
        assert_eq!(parse_number(&chars(s), u64::MAX), s.parse::<u64>().ok());
    }
    assert_eq!(parse_number(&chars("4294967295"), u32::MAX as u64), Some(4294967295));
    assert_eq!(parse_number(&chars("4294967296"), u32::MAX as u64), None);
}

#[test]
fn numbers_are_written() {
    for n in [0u128, 9, 10, 1234567890, u128::MAX] {
        assert_eq!(string_of(&to_decimal(n)), n.to_string());
    }
    assert_eq!(string_of(&to_two_digits(7)), "07");
    assert_eq!(string_of(&to_two_digits(123)), "123");
    assert_eq!(parse_number(&to_decimal(98765), u64::MAX), Some(98765));
}
