use conectastore::text::{is_blank, parse_u64};

#[test]
fn blank_names() {
    assert!(is_blank(""));
    assert!(is_blank("   "));
    assert!(is_blank("\t\n\u{a0}\u{3000}"));
    assert!(!is_blank(" a "));
    assert!(!is_blank("João Teste"));
}

#[test]
fn parses_trimmed_unsigned_numbers() {
    assert_eq!(parse_u64("42"), Some(42));
    assert_eq!(parse_u64("  7\n"), Some(7));
    assert_eq!(parse_u64("+15"), Some(15));
    assert_eq!(parse_u64("0007"), Some(7));
    assert_eq!(parse_u64("18446744073709551615"), Some(u64::MAX));
    assert_eq!(parse_u64("18446744073709551616"), None);
    assert_eq!(parse_u64(""), None);
    assert_eq!(parse_u64("+"), None);
    assert_eq!(parse_u64("-1"), None);
    assert_eq!(parse_u64("1 2"), None);
    assert_eq!(parse_u64("abc"), None);
}

#[test]
fn parse_agrees_with_std() {
    for s in ["12", " 9 ", "+3", "x", "", "99999999999999999999", "\u{2003}5"] {
        assert_eq!(parse_u64(s), s.trim().parse::<u64>().ok(), "input {:?}", s);
    }
}
