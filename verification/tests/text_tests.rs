use velo_shell::order::stable_order;
use velo_shell::text::{
    chars_of, contains_chars, decimal_chars, eq_ignore_ascii_case_chars, lines_of,
    parse_unsigned_chars, replace_chars, split_whitespace_chars, splitn_chars, string_of,
    strip_prefix_chars, strip_suffix_chars, trim_chars, join_chars, string_from,
};

fn s(v: &Vec<char>) -> String {
    v.iter().collect()
}

fn all(v: &Vec<Vec<char>>) -> Vec<String> {
    v.iter().map(|x| x.iter().collect()).collect()
}

#[test]
fn trim_removes_unicode_whitespace_at_both_ends() {
    assert_eq!(s(&trim_chars(&chars_of(" \t\u{a0}hi there\r\n\u{3000}"))), "hi there");
    assert_eq!(s(&trim_chars(&chars_of("   "))), "");
    assert_eq!(s(&trim_chars(&chars_of("x"))), "x");
}

#[test]
fn lines_follow_str_lines() {
    assert_eq!(all(&lines_of(&chars_of("a\r\nb\n\nc"))), vec!["a", "b", "", "c"]);
    assert_eq!(all(&lines_of(&chars_of("a\n"))), vec!["a"]);
    assert_eq!(all(&lines_of(&chars_of(""))), Vec::<String>::new());
    assert_eq!(all(&lines_of(&chars_of("\n"))), vec![""]);
    assert_eq!(all(&lines_of(&chars_of("end\r"))), vec!["end\r"]);
    let text = "x\r\ny\nz\n\n";
    let expected: Vec<String> = text.lines().map(|l| l.to_string()).collect();
    assert_eq!(all(&lines_of(&chars_of(text))), expected);
}

#[test]
fn splitn_keeps_the_rest_in_the_last_piece() {
    assert_eq!(all(&splitn_chars(&chars_of("yes:80:My:Net"), 3, ':')), vec!["yes", "80", "My:Net"]);
    assert_eq!(all(&splitn_chars(&chars_of("a"), 3, ':')), vec!["a"]);
    assert_eq!(all(&splitn_chars(&chars_of("a:"), 3, ':')), vec!["a", ""]);
    assert_eq!(all(&splitn_chars(&chars_of("a:b:c:d:e"), 4, ':')), vec!["a", "b", "c", "d:e"]);
}

#[test]
fn split_whitespace_drops_empty_words() {
    assert_eq!(all(&split_whitespace_chars(&chars_of("  cpu  1 2\t3 \n"))), vec!["cpu", "1", "2", "3"]);
    assert_eq!(all(&split_whitespace_chars(&chars_of("   "))), Vec::<String>::new());
}

#[test]
fn strip_prefix_and_suffix() {
    assert_eq!(strip_prefix_chars(&chars_of("Name: sink"), &chars_of("Name: ")).map(|v| s(&v)), Some("sink".to_string()));
    assert_eq!(strip_prefix_chars(&chars_of("Nam"), &chars_of("Name: ")), None);
    assert_eq!(strip_suffix_chars(&chars_of("65%"), &chars_of("%")).map(|v| s(&v)), Some("65".to_string()));
    assert_eq!(strip_suffix_chars(&chars_of("65"), &chars_of("%")), None);
}

#[test]
fn contains_and_replace() {
    assert!(contains_chars(&chars_of("Mute: yes"), &chars_of("yes")));
    assert!(!contains_chars(&chars_of("Mute: no"), &chars_of("yes")));
    assert!(!contains_chars(&chars_of("ye"), &chars_of("yes")));
    assert_eq!(s(&replace_chars(&chars_of("a\\:b\\\\:c"), &chars_of("\\:"), &chars_of(":"))), "a:b\\:c");
}

#[test]
fn ascii_case_insensitive_equality() {
    assert!(eq_ignore_ascii_case_chars(&chars_of("Charging"), &chars_of("charging")));
    assert!(eq_ignore_ascii_case_chars(&chars_of("CHARGING"), &chars_of("charging")));
    assert!(!eq_ignore_ascii_case_chars(&chars_of("Discharging"), &chars_of("charging")));
}

#[test]
fn parse_unsigned_follows_str_parse() {
    let p = |t: &str, max: u64| parse_unsigned_chars(&chars_of(t), max);
    assert_eq!(p("42", 255), Some(42));
    assert_eq!(p("+7", 255), Some(7));
    assert_eq!(p("+", 255), None);
    assert_eq!(p("", 255), None);
    assert_eq!(p("-0", 255), None);
    assert_eq!(p("255", 255), Some(255));
    assert_eq!(p("256", 255), None);
    assert_eq!(p("4294967295", 4294967295), Some(4294967295));
    assert_eq!(p("4294967296", 4294967295), None);
    assert_eq!(p("18446744073709551615", u64::MAX), Some(u64::MAX));
    assert_eq!(p("18446744073709551616", u64::MAX), None);
    assert_eq!(p("12a", 255), None);
    assert_eq!(p(" 1", 255), None);
    for t in ["0", "9", "10", "300", "+12", "x", "1_000"] {
        assert_eq!(p(t, 255), t.parse::<u8>().ok().map(|v| v as u64));
    }
}

#[test]
fn decimal_matches_display() {
    for n in [0u64, 7, 10, 99, 100, 1234567890, u64::MAX] {
        assert_eq!(s(&decimal_chars(n)), n.to_string());
    }
}

#[test]
fn strings_are_built_from_characters() {
    assert_eq!(string_of(&chars_of("h\u{e9}llo")), "h\u{e9}llo");
    assert_eq!(string_from("Desktop"), "Desktop");
    let parts = vec![chars_of("a"), chars_of("b"), chars_of("c")];
    assert_eq!(s(&join_chars(&parts, &chars_of(", "))), "a, b, c");
    assert_eq!(s(&join_chars(&Vec::new(), &chars_of(", "))), "");
}

#[test]
fn printed_numbers_read_back() {
    for n in [0u64, 5, 42, 255, 65535, 4294967295] {
        let printed = decimal_chars(n);
        assert_eq!(parse_unsigned_chars(&printed, 4294967295), Some(n));
    }
    assert_eq!(parse_unsigned_chars(&decimal_chars(256), 255), None);
}

#[test]
fn stable_order_by_key() {
    assert_eq!(stable_order(&vec![3, 1, 2, 1, 3], false), vec![1, 3, 2, 0, 4]);
    assert_eq!(stable_order(&vec![3, 1, 2, 1, 3], true), vec![0, 4, 2, 1, 3]);
    assert_eq!(stable_order(&vec![], true), Vec::<usize>::new());
}
