use aims_backend::text::{last_token, parse_u16_or, parse_u32_or, parse_u64, parse_u64_or,
    parse_usize_or, trim_str};

#[test]
fn trim_removes_leading_and_trailing_whitespace() {
    assert_eq!(trim_str("  Data Structures  "), "Data Structures");
    assert_eq!(trim_str("\tMaths\n"), "Maths");
    assert_eq!(trim_str("Physics"), "Physics");
    assert_eq!(trim_str("   "), "");
    assert_eq!(trim_str(""), "");
    assert_eq!(trim_str("\u{a0}wide\u{2003}"), "wide");
}

#[test]
fn last_token_takes_the_trailing_word() {
    assert_eq!(last_token("Fri 2024-03-02"), Some(String::from("2024-03-02")));
    assert_eq!(last_token("2024-03-02"), Some(String::from("2024-03-02")));
    assert_eq!(last_token("a b c  "), Some(String::from("c")));
    assert_eq!(last_token("   "), None);
    assert_eq!(last_token(""), None);
}

#[test]
fn parse_u64_accepts_plain_and_signed_numerals() {
    assert_eq!(parse_u64("0"), Some(0));
    assert_eq!(parse_u64("3001"), Some(3001));
    assert_eq!(parse_u64("+42"), Some(42));
    assert_eq!(parse_u64("18446744073709551615"), Some(u64::MAX));
}

#[test]
fn parse_u64_rejects_junk_and_overflow() {
    assert_eq!(parse_u64(""), None);
    assert_eq!(parse_u64("+"), None);
    assert_eq!(parse_u64("12a"), None);
    assert_eq!(parse_u64("-1"), None);
    assert_eq!(parse_u64(" 7"), None);
    assert_eq!(parse_u64("18446744073709551616"), None);
}

#[test]
fn parse_with_default_falls_back_per_width() {
    assert_eq!(parse_u64_or("10", 99), 10);
    assert_eq!(parse_u64_or("ten", 99), 99);
    assert_eq!(parse_u16_or("3001", 1), 3001);
    assert_eq!(parse_u16_or("70000", 1), 1);
    assert_eq!(parse_u32_or("100", 7), 100);
    assert_eq!(parse_u32_or("4294967296", 7), 7);
    assert_eq!(parse_usize_or("100", 7), 100);
    assert_eq!(parse_usize_or("x", 7), 7);
}
