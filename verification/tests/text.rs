use singularity_world::text::{
    i64_to_decimal, index_to_string, parse_i32, replace_first_str, replace_str, take_chars_str,
    trim_str, u64_to_decimal,
};

#[test]
fn parses_like_std() {
    for s in ["0", "42", "+7", "-13", "2147483647", "-2147483648", "", "-", "+", " 1", "1 ", "2147483648", "-2147483649", "12a", "００"] {
        assert_eq!(parse_i32(s), s.parse::<i32>().ok(), "input {s:?}");
    }
}

#[test]
fn formats_like_std() {
    for n in [0i64, 7, 10, 99, 100, 123456789, -1, -42, i64::MIN, i64::MAX] {
        assert_eq!(i64_to_decimal(n), n.to_string());
    }
    assert_eq!(u64_to_decimal(u64::MAX), u64::MAX.to_string());
    assert_eq!(index_to_string(305), "305");
}

#[test]
fn replace_and_trim() {
    assert_eq!(replace_str("a-b-c", "-", "+"), "a+b+c");
    assert_eq!(replace_first_str("a-b-c", "-", "+"), "a+b-c");
    assert_eq!(trim_str("\u{3000} x \t"), "x");
    assert_eq!(take_chars_str("一二三四", 2), "一二");
    assert_eq!(take_chars_str("ab", 5), "ab");
}
