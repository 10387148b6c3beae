use worldraw::text::{parse_i32, parse_u32};

#[test]
fn integers_parse_like_std() {
    for s in ["0", "-0", "+7", "-2147483648", "2147483647", "007", "", "-", "+", "1_0", " 1", "2147483648", "99999999999999999999"] {
        assert_eq!(parse_i32(s), s.parse::<i32>().ok(), "{s:?}");
        assert_eq!(parse_u32(s), s.parse::<u32>().ok(), "{s:?}");
    }
    assert_eq!(parse_u32("4294967295"), Some(u32::MAX));
    assert_eq!(parse_u32("-1"), None);
}
