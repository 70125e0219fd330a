use stalwart::session::{
    expn_reply, has_failed, is_report, vrfy_lookup_address, vrfy_reply, AddressMatch, RcptResolution, SessionAddress,
};

fn rcpts(addrs: &[&str]) -> Vec<SessionAddress> {
    addrs.iter().map(|a| SessionAddress::new(a.to_string())).collect()
}

#[test]
fn report_addresses_match_patterns() {
    let patterns = vec![
        AddressMatch::StartsWith("dmarc-".to_string()),
        AddressMatch::EndsWith("@reports.example.org".to_string()),
        AddressMatch::Equals("postmaster@example.org".to_string()),
    ];
    assert!(is_report(&patterns, &rcpts(&["bob@example.org", "DMARC-rua@example.org"])));
    assert!(is_report(&patterns, &rcpts(&["tls@Reports.Example.org"])));
    assert!(is_report(&patterns, &rcpts(&["postmaster@example.org"])));
    assert!(!is_report(&patterns, &rcpts(&["postmaster@example.org.uk", "bob@example.org"])));
    assert!(!is_report(&patterns, &rcpts(&[])));
    assert!(!is_report(&vec![], &rcpts(&["dmarc-x@example.org"])));
}

#[test]
fn failed_replies_are_reported() {
    let mut buf = b"250 OK\r\n".to_vec();
    assert_eq!(has_failed(&mut buf), None);
    assert!(buf.is_empty());
    let mut buf = Vec::new();
    assert_eq!(has_failed(&mut buf), None);
    let mut buf = b"550 5.1.1 No such user\r\n".to_vec();
    assert_eq!(has_failed(&mut buf), Some("550 5.1.1 No such user".to_string()));
    assert!(buf.is_empty());
}

#[test]
fn session_addresses_compare_by_lowercase_form() {
    let a = SessionAddress::new("John@Example.COM".to_string());
    let b = SessionAddress::new("john@example.com".to_string());
    let c = SessionAddress::new("jane@example.com".to_string());
    assert!(a == b);
    assert!(a != c);
    assert_eq!(a.domain, "example.com");
}

#[test]
fn vrfy_replies() {
    assert_eq!(vrfy_reply(false, "a@b.c", &Ok(RcptResolution::Accept)), "252 2.5.1 VRFY is disabled.\r\n");
    assert_eq!(vrfy_reply(true, "a@b.c", &Ok(RcptResolution::Accept)), "250 a@b.c\r\n");
    assert_eq!(vrfy_reply(true, "a@b.c", &Ok(RcptResolution::Rewrite("x@y".to_string()))), "250 a@b.c\r\n");
    assert_eq!(vrfy_reply(true, "a@b.c", &Ok(RcptResolution::UnknownDomain)), "550 5.1.2 Address not found.\r\n");
    assert_eq!(vrfy_reply(true, "a@b.c", &Err(())), "252 2.4.3 Unable to verify address at this time.\r\n");
    assert_eq!(vrfy_lookup_address("John@Example.COM"), "john@example.com");
}

#[test]
fn expn_replies() {
    let list = Ok(RcptResolution::Expand(vec!["a@x".to_string(), "b@x".to_string(), "c@x".to_string()]));
    assert_eq!(expn_reply(true, &list), "250-a@x\r\n250-b@x\r\n250 c@x\r\n");
    let one = Ok(RcptResolution::Expand(vec!["a@x".to_string()]));
    assert_eq!(expn_reply(true, &one), "250 a@x\r\n");
    assert_eq!(expn_reply(true, &Ok(RcptResolution::Accept)), "550 5.1.2 Mailing list not found.\r\n");
    assert_eq!(expn_reply(true, &Err(())), "252 2.4.3 Unable to expand mailing list at this time.\r\n");
    assert_eq!(expn_reply(false, &list), "252 2.5.1 EXPN is disabled.\r\n");
}
