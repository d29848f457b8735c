use almarjaa_network::text::{
    chars_equal, chars_of, decimal_string, is_space_char, string_of, string_of_range,
    trim_bounds,
};

#[test]
fn white_space_matches_std() {
    for code in 0u32..=0x10FFFF {
        if let Some(c) = char::from_u32(code) {
            assert_eq!(is_space_char(c), c.is_whitespace(), "{:x}", code);
        }
    }
}

#[test]
fn decimal_numerals() {
    assert_eq!(decimal_string(0), "0");
    assert_eq!(decimal_string(7), "7");
    assert_eq!(decimal_string(10), "10");
    assert_eq!(decimal_string(86400), "86400");
    assert_eq!(decimal_string(u128::MAX), u128::MAX.to_string());
}

#[test]
fn trimming_matches_std() {
    for s in ["", "  a b  ", "\u{3000}x\u{a0}", "\t\n", "abc"] {
        let v = chars_of(s);
        let (a, b) = trim_bounds(&v, 0, v.len());
        assert_eq!(string_of_range(&v, a, b), s.trim());
    }
}

#[test]
fn chars_and_strings() {
    let v = chars_of("مرحبا");
    assert_eq!(v.len(), 5);
    assert!(chars_equal(&v, "مرحبا"));
    assert!(!chars_equal(&v, "مرحب"));
    assert_eq!(string_of("نص"), "نص");
}
