use s4u_storage::text::{concat3, i64_to_decimal, is_whitespace, same_text, trim};

#[test]
fn trim_removes_surrounding_white_space() {
    assert_eq!(trim("  alice@example.com \t\n"), "alice@example.com");
    assert_eq!(trim("a b"), "a b");
    assert_eq!(trim("   "), "");
    assert_eq!(trim(""), "");
    assert_eq!(trim("\u{3000}x y\u{85}\u{a0}"), "x y");
}

#[test]
fn trim_agrees_with_str_trim() {
    for s in ["", " ", "x", " x ", "\u{2003}é\u{2029}", "a\u{200b}", "\u{1680}\u{180e}z"] {
        assert_eq!(trim(s), s.trim());
    }
}

#[test]
fn whitespace_agrees_with_char() {
    for u in 0u32..0x3100 {
        if let Some(c) = char::from_u32(u) {
            assert_eq!(is_whitespace(c), c.is_whitespace(), "{:x}", u);
        }
    }
}

#[test]
fn decimal_text_of_integers() {
    assert_eq!(i64_to_decimal(0), "0");
    assert_eq!(i64_to_decimal(7), "7");
    assert_eq!(i64_to_decimal(-5), "-5");
    assert_eq!(i64_to_decimal(1700000000), "1700000000");
    assert_eq!(i64_to_decimal(i64::MAX), i64::MAX.to_string());
    assert_eq!(i64_to_decimal(i64::MIN), i64::MIN.to_string());
}

#[test]
fn texts_compare_and_join() {
    assert!(same_text("key", "key"));
    assert!(!same_text("key", "Key"));
    assert_eq!(concat3("a", "/", "b"), "a/b");
}
