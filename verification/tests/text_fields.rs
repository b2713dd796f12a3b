use pwmd::text::{dec_string, parse_unsigned_str, split_once_str, starts_with, str_eq, trim_str};

#[test]
fn split_once_matches_std() {
    for (s, p) in [
        ("code=a; hint=b", "code="),
        ("a; hint=b; hint=c", "; hint="),
        ("abc", "x"),
        ("", ""),
        ("abc", ""),
        ("ab", "abc"),
        ("xxab", "ab"),
    ] {
        assert_eq!(split_once_str(s, p), s.split_once(p), "{s:?} {p:?}");
    }
}

#[test]
fn decimal_text_round_trips() {
    for n in [0u64, 7, 10, 99, 12345, u64::MAX] {
        let t = dec_string(n);
        assert_eq!(t, n.to_string());
        assert_eq!(parse_unsigned_str(&t, 10, u64::MAX), Some(n));
    }
    assert_eq!(parse_unsigned_str("+42", 10, u64::MAX), Some(42));
    assert_eq!(parse_unsigned_str("300", 10, 255), None);
    assert_eq!(parse_unsigned_str("ff", 16, 255), Some(255));
}

#[test]
fn trimming_and_prefixes() {
    assert_eq!(trim_str("  a b \t"), "a b");
    assert!(starts_with("Bearer x", "Bearer "));
    assert!(!starts_with("Bear", "Bearer "));
    assert!(str_eq("abc", "abc"));
    assert!(!str_eq("abc", "abd"));
}
