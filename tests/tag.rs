use dir_index::tag::{ETag, EtagRejectable};

fn weak(t: &str) -> ETag {
    ETag::new(true, t).unwrap()
}

#[test]
fn header_values() {
    assert_eq!(weak("1.2-3").header_value(), "W/\"1.2-3\"");
    assert_eq!(ETag::new(false, "x").unwrap().header_value(), "\"x\"");
}

#[test]
fn parse_forms() {
    let t = ETag::parse("W/\"abc\"").unwrap();
    assert!(t.is_weak());
    assert_eq!(t.text(), "abc");
    let s = ETag::parse("\"abc\"").unwrap();
    assert!(!s.is_weak());
    assert_eq!(s.text(), "abc");
    assert_eq!(ETag::parse("\"\"").unwrap().text(), "");
    assert!(ETag::parse("abc").is_none());
    assert!(ETag::parse("W/\"").is_none());
    assert!(ETag::parse("\"").is_none());
    assert!(ETag::parse("\"é\"").is_none());
    let long = format!("\"{}\"", "a".repeat(63));
    assert!(ETag::parse(&long).is_none());
    let fits = format!("\"{}\"", "a".repeat(62));
    assert!(ETag::parse(&fits).is_some());
}

#[test]
fn weak_comparison_ignores_weakness() {
    let a = weak("x");
    let b = ETag::new(false, "x").unwrap();
    assert!(a.weak_eq(&b));
    assert!(!a.weak_eq(&weak("y")));
}

#[test]
fn own_header_satisfies() {
    let t = weak("1700000000.5-200");
    let h = t.header_value();
    assert!(t.satisfies_request(Some(&h)));
    assert!(t.satisfies_request(Some("\"1700000000.5-200\"")));
    assert!(!t.satisfies_request(None));
    assert!(!t.satisfies_request(Some("W/\"1700000000.5-201\"")));
    assert!(!t.satisfies_request(Some("")));
}

#[test]
fn new_checks_text() {
    assert!(ETag::new(true, "é").is_none());
    assert!(ETag::new(false, &"a".repeat(63)).is_none());
    let t = ETag::new(false, &"a".repeat(62)).unwrap();
    assert!(!t.is_weak());
    assert_eq!(t.text().len(), 62);
    assert_eq!(ETag::parse(&t.header_value()).unwrap().text(), t.text());
}
