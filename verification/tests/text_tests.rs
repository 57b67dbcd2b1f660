use eorzea_bot::text::{push_decimal, text_contains};

#[test]
fn decimal_numerals() {
    for n in [0u64, 7, 10, 99, 100, 12345, u64::MAX] {
        let mut s = String::from("x");
        push_decimal(&mut s, n);
        assert_eq!(s, format!("x{}", n));
    }
}

#[test]
fn substring_search() {
    assert!(text_contains("Fashion Report - Full Details - Week of 1", "Full Details"));
    assert!(text_contains("abc", ""));
    assert!(text_contains("abc", "abc"));
    assert!(!text_contains("abc", "abcd"));
    assert!(!text_contains("ab c", "bc"));
    assert!(text_contains("ééa", "éa"));
}
