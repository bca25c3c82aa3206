use git_branch_manager::text::{hex_string_u64, parse_i64};

#[test]
fn parse_i64_reads_like_the_standard_parser() {
    for s in ["0", "42", "-42", "+7", "9223372036854775807", "-9223372036854775808", "", "-", "+", "1 ", " 1", "9223372036854775808", "-9223372036854775809", "12a", "007", "99999999999999999999999"] {
        assert_eq!(parse_i64(s), s.parse::<i64>().ok(), "input {s:?}");
    }
}

#[test]
fn hex_has_no_leading_zeros() {
    assert_eq!(hex_string_u64(0), "0");
    assert_eq!(hex_string_u64(10), "a");
    assert_eq!(hex_string_u64(0x10), "10");
    assert_eq!(hex_string_u64(0xabcdef0123), "abcdef0123");
    assert_eq!(hex_string_u64(u64::MAX), format!("{:x}", u64::MAX));
}
