use stalwart::text::{domain_part, push_decimal, rfind_char, str_eq};

#[test]
fn decimals() {
    let mut s = String::from("n=");
    push_decimal(&mut s, 0);
    push_decimal(&mut s, 1234567890);
    assert_eq!(s, "n=01234567890");
    let mut s = String::new();
    push_decimal(&mut s, u64::MAX);
    assert_eq!(s, u64::MAX.to_string());
}

#[test]
fn addresses_and_domains() {
    assert_eq!(rfind_char("a@b@c", '@'), Some(3));
    assert_eq!(rfind_char("\u{e9}@x", '@'), Some(1));
    assert_eq!(rfind_char("none", '@'), None);
    assert_eq!(domain_part("john@example.com"), "example.com");
    assert_eq!(domain_part("a@b@c.org"), "c.org");
    assert_eq!(domain_part("postmaster"), "");
    assert!(str_eq("abc", "abc"));
    assert!(!str_eq("abc", "abd"));
    assert!(!str_eq("ab", "abc"));
}
