use shared::text::{chars_of, parse_u64, push_decimal, trim_str};

#[test]
fn trim_unicode_white_space() {
    assert_eq!(trim_str("  a b \t\n"), "a b");
    assert_eq!(trim_str("\u{3000}x\u{00A0}"), "x");
    assert_eq!(trim_str("   "), "");
    assert_eq!(trim_str("\u{200B}x"), "\u{200B}x");
}

#[test]
fn lowercase_full_unicode_in_search() {
    let mut c = shared::ItemCollection::new();
    c.add(shared::Item::new("u", "ÄÖÜ Straße", "", shared::Priority::Low));
    assert_eq!(shared::listing::filter_items(&c, "äöü", None, true).len(), 1);
    assert_eq!(shared::listing::filter_items(&c, "ÄÖÜ", None, true).len(), 1);
}

#[test]
fn parse_u64_cases() {
    assert_eq!(parse_u64(&chars_of("0")), Some(0));
    assert_eq!(parse_u64(&chars_of("+12")), Some(12));
    assert_eq!(parse_u64(&chars_of("+")), None);
    assert_eq!(parse_u64(&chars_of("")), None);
    assert_eq!(parse_u64(&chars_of("1a")), None);
    assert_eq!(parse_u64(&chars_of("18446744073709551615")), Some(u64::MAX));
    assert_eq!(parse_u64(&chars_of("18446744073709551616")), None);
    assert_eq!(parse_u64(&chars_of("007")), Some(7));
}

#[test]
fn decimal_formatting() {
    let mut s = String::from("n=");
    push_decimal(&mut s, 0);
    assert_eq!(s, "n=0");
    let mut s = String::new();
    push_decimal(&mut s, u64::MAX);
    assert_eq!(s, "18446744073709551615");
}
