use stalwart::spam::Token;
use stalwart::text_tokens::{
    spam_build_tokens, HtmlAttrName, HtmlAttribute, HtmlStartTag, HtmlTagName, MessageText, TextPart, TextToken,
};
use stalwart::tokens::{AddressParts, TokenSources, Tokens};

fn word(v: &str) -> Token {
    Token::Word { value: v.to_string() }
}

fn url(v: &str) -> Token {
    Token::Url { value: v.to_string() }
}

fn alpha(w: &str, stems: &[&str]) -> TextToken {
    TextToken::Alphabetic { word: w.to_string(), stems: stems.iter().map(|s| s.to_string()).collect() }
}

fn cured(w: &str) -> String {
    decancer::cure(w, decancer::Options::default()).unwrap().as_str().to_string()
}

#[test]
fn plain_words_add_their_stems() {
    let mut t = Tokens::new();
    t.insert_type(&alpha("Running", &["run"]), true);
    assert_eq!(t.count(&word("run")), 1);
    assert_eq!(t.len(), 1);
    t.insert_type(&alpha("extraordinarilylongword", &["extraordinarilylongword"]), false);
    assert_eq!(t.count(&word("extraordinarilyl")), 1);
}

#[test]
fn all_caps_words_in_a_body() {
    let mut t = Tokens::new();
    t.insert_type(&alpha("FREE", &["free"]), true);
    assert_eq!(t.count(&word("free")), 1);
    assert_eq!(t.count(&word("_allcaps")), 1);
    let mut t = Tokens::new();
    t.insert_type(&alpha("FREE", &["free"]), false);
    assert_eq!(t.count(&word("_allcaps")), 0);
    let mut t = Tokens::new();
    t.insert_type(&alpha("WIN", &["win"]), true);
    assert_eq!(t.count(&word("_allcaps")), 0);
}

#[test]
fn mixed_script_and_confusable_words_are_cured() {
    let mixed = "p\u{0430}ypal";
    let mut t = Tokens::new();
    t.insert_type(&alpha(mixed, &["never"]), false);
    assert_eq!(t.count(&word(&cured(mixed))), 1);
    assert_eq!(t.count(&word("never")), 0);
    let lig = "\u{FB01}le";
    let mut t = Tokens::new();
    t.insert_type(&alpha(lig, &["never"]), false);
    assert_eq!(t.count(&word(&cured(lig))), 1);
}

#[test]
fn numbers_symbols_links_and_addresses() {
    let mut t = Tokens::new();
    t.insert_type(&TextToken::Alphanumeric("abc123".to_string()), false);
    assert_eq!(t.count(&Token::from_alphanumeric("abc123")), 1);
    t.insert_type(&TextToken::Integer("42".to_string()), false);
    assert_eq!(t.count(&Token::from_number(false, "42")), 1);
    t.insert_type(&TextToken::Float("-1.5".to_string()), false);
    assert_eq!(t.count(&Token::from_number(true, "-1.5")), 1);
    t.insert_type(&TextToken::IpAddr, false);
    assert_eq!(t.count(&url("!ip")), 1);
    t.insert_type(&TextToken::Punctuation('!'), false);
    t.insert_type(&TextToken::Other(' '), false);
    t.insert_type(&TextToken::Other('\u{20AC}'), false);
    assert_eq!(t.count(&Token::UnicodeCategory { value: "Sc".to_string() }), 1);
    assert_eq!(t.count(&Token::UnicodeCategory { value: "Po".to_string() }), 0);
    t.insert_type(&TextToken::UrlNoHost("/Account/To/Verify.HTML".to_string()), false);
    assert_eq!(t.count(&url("_account")), 1);
    assert_eq!(t.count(&url("_verify")), 1);
    assert_eq!(t.count(&url("_html")), 1);
    assert_eq!(t.count(&url("_to")), 0);
    let before = t.len();
    t.insert_type(&TextToken::Email, false);
    t.insert_type(&TextToken::Space, false);
    assert_eq!(t.len(), before);
}

#[test]
fn parts_without_words_add_null() {
    let mut t = Tokens::new();
    let part = TextPart::Plain { text_body: "12".to_string(), tokens: vec![TextToken::Integer("12".to_string())] };
    t.insert_text_part(&part, true);
    assert_eq!(t.count(&word("_null")), 1);
    let mut t = Tokens::new();
    t.insert_text_part(&part, false);
    assert_eq!(t.count(&word("_null")), 0);
    let mut t = Tokens::new();
    t.insert_text_part(&TextPart::NoText, true);
    assert!(t.is_empty());
}

#[test]
fn html_parts_add_images_and_links() {
    let part = TextPart::Html {
        text_body: "hello".to_string(),
        tokens: vec![alpha("hello", &["hello"])],
        html_tokens: vec![
            HtmlStartTag {
                name: HtmlTagName::Img,
                attributes: vec![
                    HtmlAttribute { name: HtmlAttrName::Src, value: Some("https://x.example/a.png".to_string()), tokens: vec![] },
                    HtmlAttribute {
                        name: HtmlAttrName::Alt,
                        value: Some("Prize".to_string()),
                        tokens: vec![alpha("Prize", &["prize"])],
                    },
                ],
            },
            HtmlStartTag {
                name: HtmlTagName::A,
                attributes: vec![
                    HtmlAttribute { name: HtmlAttrName::Href, value: Some("mailto:a@b.c".to_string()), tokens: vec![] },
                    HtmlAttribute { name: HtmlAttrName::Href, value: Some("no-scheme".to_string()), tokens: vec![] },
                ],
            },
            HtmlStartTag {
                name: HtmlTagName::Other,
                attributes: vec![HtmlAttribute { name: HtmlAttrName::Src, value: Some("cid:x".to_string()), tokens: vec![] }],
            },
        ],
    };
    let mut t = Tokens::new();
    t.insert_text_part(&part, true);
    assert_eq!(t.count(&word("hello")), 1);
    assert_eq!(t.count(&word("prize")), 1);
    assert_eq!(t.count(&word("_null")), 0);
    assert_eq!(t.count(&Token::HtmlImage { src: "https".to_string() }), 1);
    assert_eq!(t.count(&Token::HtmlImage { src: "cid".to_string() }), 0);
    assert_eq!(t.count(&Token::HtmlAnchor { href: "mailto".to_string() }), 1);
    assert_eq!(t.count(&Token::HtmlAnchor { href: "".to_string() }), 1);
    let mut t = Tokens::new();
    t.insert_text_part(&part, false);
    assert_eq!(t.count(&word("prize")), 0);
    assert_eq!(t.len(), 1);
}

#[test]
fn message_tokens_count_body_and_fill_from_alternatives() {
    let none = AddressParts { address: String::new(), fqdn: String::new(), sld: None };
    let src = TokenSources {
        dmarc_failed: false,
        env_from: AddressParts { address: String::new(), fqdn: String::new(), sld: None },
        from: none,
        addresses: vec![],
        urls: vec![],
        hosts: vec![],
        asn: None,
        parts: vec![],
    };
    let m = MessageText {
        subject_tokens: vec![alpha("Offer", &["offer"])],
        text_parts: vec![
            TextPart::Plain { text_body: "offer plain".to_string(), tokens: vec![alpha("offer", &["offer"]), alpha("plain", &["plain"])] },
            TextPart::Html { text_body: "offer html".to_string(), tokens: vec![alpha("offer", &["offer"]), alpha("html", &["html"])], html_tokens: vec![] },
            TextPart::Plain { text_body: "notes".to_string(), tokens: vec![alpha("notes", &["note"])] },
        ],
        text_body: vec![0],
        html_body: vec![1],
    };
    let bag = spam_build_tokens(&src, &m);
    // subject and HTML body count; the text body is an alternative and only
    // fills in words missing from the rest; a part that is neither counts.
    assert_eq!(bag.count(&word("offer")), 2);
    assert_eq!(bag.count(&word("html")), 1);
    assert_eq!(bag.count(&word("plain")), 1);
    assert_eq!(bag.count(&word("note")), 1);
    assert_eq!(bag.count(&word("_null")), 0);
}
