use llamadb::text::{
    chars_of, parse_signed, parse_unsigned, parse_unsigned_below, push_decimal, push_signed,
    string_of,
};

fn below(s: &str, limit: u64) -> Option<u64> {
    parse_unsigned_below(&chars_of(s), limit)
}

#[test]
fn test_parse_unsigned_below_a_limit() {
    assert_eq!(below("255", 255), Some(255));
    assert_eq!(below("256", 255), None);
    assert_eq!(below("+17", 255), Some(17));
    assert_eq!(below("007", 255), Some(7));
    assert_eq!(below("", 255), None);
    assert_eq!(below("+", 255), None);
    assert_eq!(below("1a", 255), None);
    assert_eq!(below("-1", 255), None);
}

#[test]
fn test_parse_unsigned_below_a_small_limit() {
    assert_eq!(below("0", 0), Some(0));
    assert_eq!(below("000", 0), Some(0));
    assert_eq!(below("1", 0), None);
    assert_eq!(below("5", 5), Some(5));
    assert_eq!(below("6", 5), None);
    assert_eq!(below("05", 5), Some(5));
    assert_eq!(below("10", 5), None);
    assert_eq!(below("8", 8), Some(8));
    assert_eq!(below("9", 8), None);
}

#[test]
fn test_parse_unsigned_and_signed() {
    assert_eq!(parse_unsigned(&chars_of("18446744073709551615")), Some(u64::MAX));
    assert_eq!(parse_unsigned(&chars_of("18446744073709551616")), None);
    assert_eq!(parse_unsigned(&chars_of("0")), Some(0));
    assert_eq!(parse_signed(&chars_of("-9223372036854775808")), Some(i64::MIN));
    assert_eq!(parse_signed(&chars_of("-9223372036854775809")), None);
    assert_eq!(parse_signed(&chars_of("9223372036854775807")), Some(i64::MAX));
    assert_eq!(parse_signed(&chars_of("9223372036854775808")), None);
    assert_eq!(parse_signed(&chars_of("-")), None);
}

#[test]
fn test_push_numbers() {
    let mut out: Vec<char> = Vec::new();
    push_decimal(&mut out, 0);
    out.push(' ');
    push_decimal(&mut out, u64::MAX);
    out.push(' ');
    push_signed(&mut out, i64::MIN);
    out.push(' ');
    push_signed(&mut out, 42);
    assert_eq!(string_of(&out), "0 18446744073709551615 -9223372036854775808 42");
}
