use llamadb::identifier::Identifier;

fn cmp(a: &'static str, b: &'static str) -> bool {
    Identifier::new(a).unwrap().as_slice() == b
}

fn cmp_none(a: &'static str) -> bool {
    Identifier::new(a).is_none()
}

#[test]
fn test_identifier() {
    assert!(cmp("AbCdEfG", "abcdefg"));
    assert!(cmp("a0123456789", "a0123456789"));
    assert!(cmp("Hello World", "hello world"));
    assert!(cmp_none(""));
    assert!(cmp_none("1a"));
    assert!(cmp_none(" abc "));
    assert!(cmp("_1a", "_1a"));
}

#[test]
fn test_identifier_equality_ignores_case() {
    assert!(Identifier::new("Table One").unwrap() == Identifier::new("table one").unwrap());
    assert!(Identifier::new("a").unwrap() != Identifier::new("b").unwrap());
    assert!(cmp_none("a-b"));
    assert!(cmp_none("caf\u{e9}"));
    assert_eq!(Identifier::new("XyZ").unwrap().into_inner(), "xyz");
}
