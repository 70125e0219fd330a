use stalwart::spam::{lower_prefix, truncate_word, Token};
use stalwart::tokens::{
    same_token, source_tokens, AddressLocation, AddressParts, FoundAddress, FoundHost, FoundUrl,
    PartInfo, TokenSources, Tokens,
};

fn url(v: &str) -> Token {
    Token::Url { value: v.to_string() }
}

#[test]
fn number_tokens_keep_sign_kind_and_digits() {
    let t = Token::from_number(false, "-123");
    assert_eq!(t.prefix(), 1);
    assert_eq!(t.value(), b"I\x03");
    let t = Token::from_number(true, "3.14");
    assert_eq!(t.value(), b"f\x03");
    let t = Token::from_number(false, "42");
    assert_eq!(t.value(), b"i\x02");
}

#[test]
fn hexadecimal_word_becomes_number() {
    let t = Token::from_alphanumeric("deadbeef");
    assert_eq!(t.prefix(), 1);
    assert_eq!(t.value(), b"X\x08");
}

#[test]
fn word_with_one_digit_keeps_its_letters() {
    let t = Token::from_alphanumeric("Abc1xyz");
    assert_eq!(t.prefix(), 0);
    assert_eq!(t.value(), b"abcxyz");
}

#[test]
fn other_words_get_a_shape_code() {
    let t = Token::from_alphanumeric("XYZ123");
    assert_eq!(t.prefix(), 2);
    assert_eq!(t.value(), b"H5B1");
    let t = Token::from_alphanumeric("zzz999zzz");
    assert_eq!(t.value(), b"M7P1");
    let t = Token::from_alphanumeric("x1y2");
    assert_eq!(t.value(), b"M4B4");
    let t = Token::from_alphanumeric("abcdefgh12");
    assert_eq!(t.value(), b"M7D1");
}

#[test]
fn long_hexadecimal_word_is_counted_to_255() {
    let word = "a".repeat(1000);
    let t = Token::from_alphanumeric(&word);
    assert_eq!(t.value(), b"X\xff");
}

#[test]
fn non_ascii_word_is_cured() {
    let t = Token::from_alphanumeric("\u{1D5A0}bc1\u{1D5A0}");
    assert_eq!(t.prefix(), 0);
    for b in t.value() {
        assert!(b.is_ascii_lowercase());
    }
}

#[test]
fn prefix_and_truncation_helpers() {
    assert_eq!(lower_prefix("!", "PDF"), "!pdf");
    assert_eq!(truncate_word("short", 16), "short");
    assert_eq!(truncate_word("abcdefghijklmnopqrstuvwxyz", 16), "abcdefghijklmnop");
    assert_eq!(truncate_word("\u{e9}\u{e9}\u{e9}\u{e9}\u{e9}", 4), "\u{e9}\u{e9}\u{e9}\u{e9}");
    assert_eq!(truncate_word("\u{e9}\u{e9}\u{e9}", 4), "\u{e9}\u{e9}");
}

#[test]
fn tokens_compare_by_kind_and_value() {
    assert!(same_token(&url("a"), &url("a")));
    assert!(!same_token(&url("a"), &Token::Email { value: "a".to_string() }));
    assert!(!same_token(&url("a"), &url("b")));
}

#[test]
fn insert_counts_and_insert_if_missing_does_not() {
    let mut bag = Tokens::new();
    assert!(bag.is_empty());
    bag.insert(url("x"));
    bag.insert(url("x"));
    bag.insert_if_missing(url("x"));
    bag.insert_if_missing(url("y"));
    bag.insert_if_missing(url("y"));
    assert_eq!(bag.count(&url("x")), 2);
    assert_eq!(bag.count(&url("y")), 1);
    assert_eq!(bag.count(&url("z")), 0);
    assert_eq!(bag.len(), 2);
}

#[test]
fn url_path_words() {
    let mut bag = Tokens::new();
    bag.insert_url_path("/path/to_the.page.html");
    for w in ["_path", "_the", "_page", "_html"] {
        assert_eq!(bag.count(&url(w)), 1, "{w}");
    }
    assert_eq!(bag.count(&url("_to")), 0);
    assert_eq!(bag.len(), 4);
    let mut bag = Tokens::new();
    bag.insert_url_path("/abc1/x/supercalifragilisticexpialidocious");
    assert_eq!(bag.count(&url("_supercalifragili")), 1);
    assert_eq!(bag.len(), 1);
}

#[test]
fn email_tokens_for_senders_and_recipients() {
    let mut bag = Tokens::new();
    bag.insert_email("john@mail.example.com", "mail.example.com", Some("example.com"), true);
    bag.insert_email("john@mail.example.com", "mail.example.com", Some("example.com"), true);
    let sender = |v: &str| Token::Sender { value: v.to_string() };
    assert_eq!(bag.count(&sender("john@mail.example.com")), 1);
    assert_eq!(bag.count(&sender("mail.example.com")), 1);
    assert_eq!(bag.count(&sender("example.com")), 1);
    let mut bag = Tokens::new();
    bag.insert_email("jane@example.org", "example.org", Some(""), false);
    assert_eq!(bag.len(), 2);
    assert_eq!(bag.count(&Token::Email { value: "example.org".to_string() }), 1);
    let mut bag = Tokens::new();
    bag.insert_email("", "example.org", None, false);
    assert!(bag.is_empty());
}

#[test]
fn host_network_and_part_tokens() {
    let mut bag = Tokens::new();
    bag.insert_url_host(Some("example.com"), "www.example.com");
    bag.insert_url_host(None, "192.0.2.1");
    bag.insert_hostname("", "localhost");
    bag.insert_hostname("example.net", "mx.example.net");
    bag.insert_asn(0x0102_0304);
    bag.insert_mime_type("Text", Some("HTML"));
    bag.insert_mime_type("APPLICATION", None);
    bag.insert_attachment_extension("report.Final.PDF");
    bag.insert_attachment_extension("noext");
    bag.insert_attachment_extension("trailing.");
    assert_eq!(bag.count(&url("example.com")), 1);
    assert_eq!(bag.count(&url("www.example.com")), 1);
    assert_eq!(bag.count(&url("192.0.2.1")), 1);
    assert_eq!(bag.count(&Token::Hostname { value: "localhost".to_string() }), 1);
    assert_eq!(bag.count(&Token::Hostname { value: "example.net".to_string() }), 1);
    assert_eq!(bag.count(&Token::Asn { number: [1, 2, 3, 4] }), 1);
    assert_eq!(bag.count(&Token::MimeType { value: "text/html".to_string() }), 1);
    assert_eq!(bag.count(&Token::MimeType { value: "application".to_string() }), 1);
    assert_eq!(bag.count(&Token::Attachment { value: "!pdf".to_string() }), 1);
    assert_eq!(bag.len(), 10);
}

#[test]
fn merge_keeps_counts_already_present() {
    let mut body = Tokens::new();
    body.insert(url("a"));
    body.insert(url("a"));
    let mut alt = Tokens::new();
    alt.insert(url("a"));
    alt.insert(url("b"));
    alt.insert(url("b"));
    alt.insert(url("b"));
    body.merge_missing(alt);
    assert_eq!(body.count(&url("a")), 2);
    assert_eq!(body.count(&url("b")), 3);
}

fn parts(address: &str, fqdn: &str, sld: Option<&str>) -> AddressParts {
    AddressParts { address: address.to_string(), fqdn: fqdn.to_string(), sld: sld.map(|s| s.to_string()) }
}

#[test]
fn build_tokens_from_sources() {
    let src = TokenSources {
        dmarc_failed: true,
        env_from: parts("bounce@mail.example.com", "mail.example.com", Some("example.com")),
        from: parts("john@example.com", "example.com", Some("example.com")),
        addresses: vec![
            FoundAddress {
                parts: parts("reply@example.org", "example.org", Some("example.org")),
                location: AddressLocation::HeaderReplyTo,
                trusted: true,
            },
            FoundAddress {
                parts: parts("x@trusted.net", "trusted.net", Some("trusted.net")),
                location: AddressLocation::BodyText,
                trusted: true,
            },
            FoundAddress {
                parts: parts("y@other.net", "other.net", Some("other.net")),
                location: AddressLocation::Elsewhere,
                trusted: false,
            },
        ],
        urls: vec![FoundUrl {
            sld: Some("spam.biz".to_string()),
            fqdn: "www.spam.biz".to_string(),
            path: "/win/money".to_string(),
            trusted: false,
        }],
        hosts: vec![
            FoundHost { sld: "relay.org".to_string(), fqdn: "mx.relay.org".to_string(), counted_location: true, trusted: false },
            FoundHost { sld: "skip.org".to_string(), fqdn: "a.skip.org".to_string(), counted_location: false, trusted: false },
        ],
        asn: Some(64512),
        parts: vec![PartInfo {
            attachment_name: Some("invoice.zip".to_string()),
            content_type: Some(("application".to_string(), Some("ZIP".to_string()))),
        }],
    };
    let bag = source_tokens(&src);
    let sender = |v: &str| Token::Sender { value: v.to_string() };
    assert_eq!(bag.count(&sender("!")), 1);
    assert_eq!(bag.count(&sender("bounce@mail.example.com")), 1);
    assert_eq!(bag.count(&sender("example.com")), 1);
    assert_eq!(bag.count(&sender("john@example.com")), 1);
    assert_eq!(bag.count(&sender("reply@example.org")), 1);
    assert_eq!(bag.count(&Token::Email { value: "x@trusted.net".to_string() }), 0);
    assert_eq!(bag.count(&Token::Email { value: "y@other.net".to_string() }), 0);
    assert_eq!(bag.count(&url("spam.biz")), 1);
    assert_eq!(bag.count(&url("www.spam.biz")), 1);
    assert_eq!(bag.count(&url("_win")), 1);
    assert_eq!(bag.count(&url("_money")), 1);
    assert_eq!(bag.count(&Token::Hostname { value: "relay.org".to_string() }), 1);
    assert_eq!(bag.count(&Token::Hostname { value: "a.skip.org".to_string() }), 0);
    assert_eq!(bag.count(&Token::Asn { number: 64512u32.to_be_bytes() }), 1);
    assert_eq!(bag.count(&Token::Attachment { value: "!zip".to_string() }), 1);
    assert_eq!(bag.count(&Token::MimeType { value: "application/zip".to_string() }), 1);
}
