use robot_farm::paths::{components_of, file_name_of, join_str, path_starts_with_chars};
use robot_farm::split::{lines_of_str, next_word_chars, split_pattern, splitn_chars};
use robot_farm::text::{
    i64_to_string, join_strings, parse_i64, parse_u16, parse_u32, trim_str, u64_to_string,
};

fn chars(s: &str) -> Vec<char> {
    s.chars().collect()
}

fn texts(v: &[Vec<char>]) -> Vec<String> {
    v.iter().map(|c| c.iter().collect()).collect()
}

#[test]
fn numbers_print_and_parse_back() {
    for n in [0i64, 7, -7, 1234567890, i64::MIN, i64::MAX] {
        assert_eq!(i64_to_string(n), n.to_string());
        assert_eq!(parse_i64(&chars(&n.to_string())), Some(n));
    }
    assert_eq!(u64_to_string(u64::MAX), u64::MAX.to_string());
    assert_eq!(parse_u32(&chars("+42")), Some(42));
    assert_eq!(parse_u32(&chars("4294967296")), None);
    assert_eq!(parse_u32(&chars("-1")), None);
    assert_eq!(parse_u32(&chars("")), None);
    assert_eq!(parse_u16(&chars("65535")), Some(65535));
    assert_eq!(parse_i64(&chars("-9223372036854775809")), None);
    assert_eq!(parse_i64(&chars("+5")), Some(5));
}

#[test]
fn trimming_uses_unicode_whitespace() {
    assert_eq!(trim_str("\u{3000} a b\t\n"), "a b");
    assert_eq!(trim_str("   "), "");
}

#[test]
fn splitting() {
    assert_eq!(texts(&lines_of_str("a\r\nb\n\nc\n")), vec!["a", "b", "", "c"]);
    assert_eq!(texts(&splitn_chars(&chars("a b c d"), ' ', 3)), vec!["a", "b", "c d"]);
    assert_eq!(texts(&split_pattern(&chars("x\n\ny\n\n"), &chars("\n\n"))), vec!["x", "y", ""]);
    let (w, rest) = next_word_chars(&chars("  +3 -1")).unwrap();
    assert_eq!(w.iter().collect::<String>(), "+3");
    assert_eq!(rest.iter().collect::<String>(), " -1");
    assert!(next_word_chars(&chars("   ")).is_none());
    assert_eq!(join_strings(&vec!["a".to_string(), "b".to_string()], ", "), "a, b");
    assert_eq!(join_strings(&vec![], ", "), "");
}

#[test]
fn unix_paths() {
    assert_eq!(texts(&components_of(&chars("/a//b/./c/"))), vec!["/", "a", "b", "c"]);
    assert_eq!(texts(&components_of(&chars("./a/../b"))), vec![".", "a", "..", "b"]);
    assert!(path_starts_with_chars(&chars("/w/ws1/src"), &chars("/w/ws1")));
    assert!(!path_starts_with_chars(&chars("/w/ws10"), &chars("/w/ws1")));
    assert_eq!(join_str("/w", "ws1"), "/w/ws1");
    assert_eq!(join_str("/w/", "ws1"), "/w/ws1");
    assert_eq!(join_str("/w", "/abs"), "/abs");
    assert_eq!(file_name_of(&chars("/p/ws1/")).unwrap().iter().collect::<String>(), "ws1");
    assert!(file_name_of(&chars("/p/..")).is_none());
}
