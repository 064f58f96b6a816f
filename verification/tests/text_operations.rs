use clawbot_web::keyed::Keyed;
use clawbot_web::text;

#[test]
fn trimming_removes_white_space_at_both_ends() {
    assert_eq!(text::trim("  a b \t\n"), "a b");
    assert_eq!(text::trim("\u{3000}中\u{a0}"), "中");
    assert_eq!(text::trim(" \u{2028}\u{85} "), "");
    assert_eq!(text::trim("\u{200b}x"), "\u{200b}x");
    assert_eq!(text::trim(""), "");
}

#[test]
fn trimming_agrees_with_the_standard_library() {
    for c in (0..0x3100u32).filter_map(char::from_u32) {
        let s = format!("{c}x{c}");
        assert_eq!(text::trim(&s), s.trim());
    }
}

#[test]
fn prefixes_are_stripped() {
    assert_eq!(text::strip_prefix("Bearer abc", "Bearer "), Some("abc".to_string()));
    assert_eq!(text::strip_prefix("Bearer ", "Bearer "), Some(String::new()));
    assert_eq!(text::strip_prefix("bearer abc", "Bearer "), None);
    assert_eq!(text::strip_prefix("Bear", "Bearer "), None);
    assert_eq!(text::strip_prefix("中文", "中"), Some("文".to_string()));
}

#[test]
fn parts_are_found() {
    assert!(text::contains("UNIQUE constraint failed: users.username", "UNIQUE"));
    assert!(text::contains("not UNIQUE", "UNIQUE"));
    assert!(!text::contains("unique", "UNIQUE"));
    assert!(text::contains("abc", ""));
    assert!(text::contains("", ""));
    assert!(!text::contains("", "a"));
}

#[test]
fn numbers_are_parsed() {
    assert_eq!(text::parse_i64("0"), Some(0));
    assert_eq!(text::parse_i64("+17"), Some(17));
    assert_eq!(text::parse_i64("-007"), Some(-7));
    assert_eq!(text::parse_i64("9223372036854775807"), Some(i64::MAX));
    assert_eq!(text::parse_i64("9223372036854775808"), None);
    assert_eq!(text::parse_i64("-9223372036854775808"), Some(i64::MIN));
    assert_eq!(text::parse_i64("-9223372036854775809"), None);
    assert_eq!(text::parse_i64("99999999999999999999999999"), None);
    for s in ["", "-", "+", "1 ", " 1", "1a", "--1", "+-1", "٣"] {
        assert_eq!(text::parse_i64(s), None);
        assert!(s.parse::<i64>().is_err());
    }
}

#[test]
fn numbers_are_written_and_read_back() {
    for n in [0, 1, 9, 10, 99, 100, -1, -10, i64::MAX, i64::MIN, 1234567890] {
        assert_eq!(text::decimal_signed(n), n.to_string());
        assert_eq!(text::parse_i64(&text::decimal_signed(n)), Some(n));
    }
    assert_eq!(text::decimal(u64::MAX), "18446744073709551615");
    assert_eq!(text::decimal(0), "0");
}

#[test]
fn optional_texts() {
    assert_eq!(text::non_empty(&String::new()), None);
    assert_eq!(text::non_empty(&"a".to_string()), Some("a".to_string()));
    assert_eq!(text::or_empty(None), "");
    assert_eq!(text::or_empty(Some("b".to_string())), "b");
    assert_eq!(text::own_option(Some("c")), Some("c".to_string()));
    assert_eq!(text::own_option(None), None);
    assert_eq!(text::join3("a", "", "c"), "ac");
}

#[test]
fn keyed_values_are_replaced_and_removed() {
    let mut t: Keyed<String> = Keyed::new();
    assert_eq!(t.len(), 0);
    t.insert("a".to_string(), "1".to_string());
    t.insert("b".to_string(), "2".to_string());
    t.insert("a".to_string(), "3".to_string());
    assert_eq!(t.len(), 2);
    assert_eq!(t.get("a"), Some(&"3".to_string()));
    assert_eq!(t.get("b"), Some(&"2".to_string()));
    assert_eq!(t.get("c"), None);
    t.remove("a");
    t.remove("c");
    assert_eq!(t.len(), 1);
    assert_eq!(t.get("a"), None);
    assert_eq!(t.get("b"), Some(&"2".to_string()));
}
