use stalwart::expression::{
    AddrEntry, ContentType, EmailHeader, EmailParts, ExpressionVariable, FilterContext, FilterItem,
    HeaderValue, ParsedUrl, Recipient, SpamFilterResolver, StringListResolver, StringResolver,
    UrlParts, Variable,
};
use stalwart::text_tokens::{TextPart, TextToken};
use stalwart::external::DateParts;

fn s(t: &str) -> Variable {
    Variable::String(t.to_string())
}

fn list(ts: &[&str]) -> Variable {
    Variable::Array(ts.iter().map(|t| s(t)).collect())
}

fn email(address: &str, local: &str, fqdn: &str, sld: Option<&str>) -> EmailParts {
    EmailParts {
        address: address.to_string(),
        local_part: local.to_string(),
        fqdn: fqdn.to_string(),
        sld: sld.map(|x| x.to_string()),
    }
}

fn recipient(address: &str, name: Option<&str>) -> Recipient {
    let (local, domain) = address.split_once('@').unwrap();
    Recipient { email: email(address, local, domain, None), name: name.map(|n| n.to_string()) }
}

fn context() -> FilterContext {
    FilterContext {
        remote_ip: "192.0.2.1".to_string(),
        iprev_ptr: None,
        ehlo_fqdn: "mx.example.org".to_string(),
        authenticated_as: Some("jane".to_string()),
        asn: Some(64500),
        country: None,
        is_tls: true,
        env_from: email("bounce@example.org", "bounce", "example.org", Some("example.org")),
        env_to: vec![email("a@example.com", "a", "example.com", None)],
        from: recipient("jane@example.org", Some("Jane")),
        reply_to: None,
        recipients_to: vec![recipient("a@example.com", Some("A")), recipient("b@example.net", None)],
        recipients_cc: vec![],
        recipients_bcc: vec![recipient("c@example.com", None)],
        text_body: Some("hello".to_string()),
        html_body: vec![1],
        text_parts: vec![
            TextPart::Plain { text_body: "hello".to_string(), tokens: vec![] },
            TextPart::Html {
                text_body: "hi there".to_string(),
                tokens: vec![
                    TextToken::Alphabetic { word: "hi".to_string(), stems: vec!["hi".to_string()] },
                    TextToken::Space,
                    TextToken::Integer("42".to_string()),
                ],
                html_tokens: vec![],
            },
        ],
        raw_message: vec![b'a', 0xff, b'b'],
        subject_lc: "offer".to_string(),
        subject_thread_lc: "offer".to_string(),
        subject_tokens: vec![TextToken::Alphanumeric("win2".to_string()), TextToken::Punctuation('!')],
        tags: vec!["SPF_FAIL".to_string()],
    }
}

#[test]
fn filter_resolver_reads_message_variables() {
    let ctx = context();
    let item = FilterItem::Text(StringResolver("item".to_string()));
    let r = SpamFilterResolver::new(&ctx, &item, "body");
    assert_eq!(r.resolve_variable(ExpressionVariable::RemoteIp), s("192.0.2.1"));
    assert_eq!(r.resolve_variable(ExpressionVariable::RemoteIpPtr), s(""));
    assert_eq!(r.resolve_variable(ExpressionVariable::AuthenticatedAs), s("jane"));
    assert_eq!(r.resolve_variable(ExpressionVariable::Asn), Variable::Integer(64500));
    assert_eq!(r.resolve_variable(ExpressionVariable::IsTls), Variable::Integer(1));
    assert_eq!(r.resolve_variable(ExpressionVariable::EnvFromDomain), s("example.org"));
    assert_eq!(r.resolve_variable(ExpressionVariable::EnvTo), list(&["a@example.com"]));
    assert_eq!(r.resolve_variable(ExpressionVariable::FromName), s("Jane"));
    assert_eq!(r.resolve_variable(ExpressionVariable::ReplyTo), s(""));
    assert_eq!(r.resolve_variable(ExpressionVariable::To), list(&["a@example.com", "b@example.net"]));
    assert_eq!(r.resolve_variable(ExpressionVariable::ToName), list(&["A"]));
    assert_eq!(r.resolve_variable(ExpressionVariable::ToDomain), list(&["example.com", "example.net"]));
    assert_eq!(r.resolve_variable(ExpressionVariable::CcLocal), list(&[]));
    assert_eq!(r.resolve_variable(ExpressionVariable::BccLocal), list(&["c"]));
    assert_eq!(r.resolve_variable(ExpressionVariable::Location), s("body"));
    assert_eq!(r.resolve_variable(ExpressionVariable::Subject), s("offer"));
}

#[test]
fn filter_resolver_reads_bodies_and_words() {
    let ctx = context();
    let item = FilterItem::Text(StringResolver("item".to_string()));
    let r = SpamFilterResolver::new(&ctx, &item, "body");
    assert_eq!(r.resolve_variable(ExpressionVariable::BodyText), s("hello"));
    assert_eq!(r.resolve_variable(ExpressionVariable::BodyHtml), s("hi there"));
    assert_eq!(r.resolve_variable(ExpressionVariable::BodyWords), list(&["hi", "42"]));
    assert_eq!(r.resolve_variable(ExpressionVariable::SubjectWords), list(&["win2"]));
    assert_eq!(r.resolve_variable(ExpressionVariable::BodyRaw), s("a\u{FFFD}b"));
}

#[test]
fn filter_resolver_html_body_outside_parts() {
    let mut ctx = context();
    ctx.html_body = vec![7];
    let item = FilterItem::Text(StringResolver("item".to_string()));
    let r = SpamFilterResolver::new(&ctx, &item, "body");
    assert_eq!(r.resolve_variable(ExpressionVariable::BodyHtml), s(""));
    assert_eq!(r.resolve_variable(ExpressionVariable::BodyWords), list(&[]));
}

#[test]
fn filter_resolver_falls_back_to_item() {
    let ctx = context();
    let item = FilterItem::Text(StringResolver("item".to_string()));
    let r = SpamFilterResolver::new(&ctx, &item, "body");
    assert_eq!(r.resolve_variable(ExpressionVariable::Value), s("item"));
    let item = FilterItem::Recipient(recipient("x@example.com", None));
    let r = SpamFilterResolver::new(&ctx, &item, "body");
    assert_eq!(r.resolve_variable(ExpressionVariable::Local), s("x"));
    assert_eq!(r.resolve_variable(ExpressionVariable::Port), Variable::Integer(0));
}

#[test]
fn filter_resolver_globals_are_tags() {
    let ctx = context();
    let item = FilterItem::Text(StringResolver("item".to_string()));
    let r = SpamFilterResolver::new(&ctx, &item, "body");
    assert_eq!(r.resolve_global("SPF_FAIL"), Variable::Integer(1));
    assert_eq!(r.resolve_global("DKIM_FAIL"), Variable::Integer(0));
}

#[test]
fn recipient_variables() {
    let mut rc = recipient("John@Example.com", Some("John"));
    rc.email.sld = Some("example.com".to_string());
    assert_eq!(rc.resolve_variable(ExpressionVariable::Email), s("John@Example.com"));
    assert_eq!(rc.resolve_variable(ExpressionVariable::Value), s("John@Example.com"));
    assert_eq!(rc.resolve_variable(ExpressionVariable::Name), s("John"));
    assert_eq!(rc.resolve_variable(ExpressionVariable::Sld), s("example.com"));
    assert_eq!(rc.resolve_variable(ExpressionVariable::Subject), Variable::Integer(0));
    let rc = recipient("a@mail.example.org", None);
    assert_eq!(rc.resolve_variable(ExpressionVariable::Name), s(""));
    assert_eq!(rc.resolve_variable(ExpressionVariable::Sld), s("mail.example.org"));
    assert_eq!(rc.resolve_global("X"), Variable::Integer(0));
}

#[test]
fn header_text_and_raw_variables() {
    let h = EmailHeader {
        name: "Subject".to_string(),
        value: HeaderValue::Text("Hello World".to_string()),
        raw: " Hello World\r\n".to_string(),
    };
    assert_eq!(h.resolve_variable(ExpressionVariable::Name), s("Subject"));
    assert_eq!(h.resolve_variable(ExpressionVariable::NameLower), s("subject"));
    assert_eq!(h.resolve_variable(ExpressionVariable::Value), s("Hello World"));
    assert_eq!(h.resolve_variable(ExpressionVariable::ValueLower), s("hello world"));
    assert_eq!(h.resolve_variable(ExpressionVariable::Raw), s(" Hello World\r\n"));
    assert_eq!(h.resolve_variable(ExpressionVariable::RawLower), s(" hello world\r\n"));
    assert_eq!(h.resolve_variable(ExpressionVariable::Email), Variable::Integer(0));
}

#[test]
fn header_address_lists() {
    let h = EmailHeader {
        name: "To".to_string(),
        value: HeaderValue::Address(vec![
            AddrEntry { name: Some("Ann".to_string()), address: Some("Ann@Example.COM".to_string()) },
            AddrEntry { name: None, address: Some("Bob@Example.com".to_string()) },
            AddrEntry { name: Some("Group".to_string()), address: None },
        ]),
        raw: "".to_string(),
    };
    assert_eq!(h.resolve_variable(ExpressionVariable::ValueLower), list(&["ann@example.com", "bob@example.com"]));
    assert_eq!(h.resolve_variable(ExpressionVariable::Value), list(&["Ann", "Group"]));
    assert_eq!(h.resolve_variable(ExpressionVariable::Attributes), list(&["Ann", "Group"]));
}

#[test]
fn header_text_list_content_type_and_received() {
    let h = EmailHeader {
        name: "Keywords".to_string(),
        value: HeaderValue::TextList(vec!["One".to_string(), "TWO".to_string()]),
        raw: "".to_string(),
    };
    assert_eq!(h.resolve_variable(ExpressionVariable::Value), list(&["One", "TWO"]));
    assert_eq!(h.resolve_variable(ExpressionVariable::ValueLower), list(&["one", "two"]));

    let ct = EmailHeader {
        name: "Content-Type".to_string(),
        value: HeaderValue::ContentType(ContentType {
            ctype: "text".to_string(),
            subtype: Some("html".to_string()),
            attributes: Some(vec![("charset".to_string(), "utf-8".to_string())]),
        }),
        raw: "".to_string(),
    };
    assert_eq!(ct.resolve_variable(ExpressionVariable::Value), s("text/html"));
    assert_eq!(ct.resolve_variable(ExpressionVariable::Attributes), list(&["charset=utf-8"]));
    let bare = EmailHeader {
        name: "Content-Type".to_string(),
        value: HeaderValue::ContentType(ContentType { ctype: "message".to_string(), subtype: None, attributes: None }),
        raw: "".to_string(),
    };
    assert_eq!(bare.resolve_variable(ExpressionVariable::Value), s("message"));
    assert_eq!(bare.resolve_variable(ExpressionVariable::Attributes), list(&[]));

    let rcv = EmailHeader {
        name: "Received".to_string(),
        value: HeaderValue::Received,
        raw: "  from MX.Example.org  \r\n".to_string(),
    };
    assert_eq!(rcv.resolve_variable(ExpressionVariable::Value), s("from MX.Example.org"));
    assert_eq!(rcv.resolve_variable(ExpressionVariable::ValueLower), s("from mx.example.org"));
    let empty = EmailHeader { name: "X".to_string(), value: HeaderValue::Empty, raw: "".to_string() };
    assert_eq!(empty.resolve_variable(ExpressionVariable::Value), s(""));
}

#[test]
fn header_dates_in_rfc3339() {
    let d = DateParts {
        year: 2003,
        month: 7,
        day: 1,
        hour: 10,
        minute: 52,
        second: 37,
        tz_before_gmt: true,
        tz_hour: 2,
        tz_minute: 30,
    };
    let h = EmailHeader { name: "Date".to_string(), value: HeaderValue::DateTime(d), raw: "".to_string() };
    assert_eq!(h.resolve_variable(ExpressionVariable::Value), s("2003-07-01T10:52:37-02:30"));
    let utc = DateParts { tz_before_gmt: false, tz_hour: 0, tz_minute: 0, ..d };
    let h = EmailHeader { name: "Date".to_string(), value: HeaderValue::DateTime(utc), raw: "".to_string() };
    assert_eq!(h.resolve_variable(ExpressionVariable::Value), s("2003-07-01T10:52:37Z"));
}

#[test]
fn url_variables() {
    let u = UrlParts {
        url: "https://www.example.com:8443/a/b?q=1".to_string(),
        url_parsed: Some(ParsedUrl {
            path_and_query: Some("/a/b?q=1".to_string()),
            path: "/a/b".to_string(),
            query: Some("q=1".to_string()),
            scheme: Some("https".to_string()),
            authority: Some("www.example.com:8443".to_string()),
            host_fqdn: "www.example.com".to_string(),
            host_sld: Some("example.com".to_string()),
            port: Some(8443),
        }),
    };
    assert_eq!(u.resolve_variable(ExpressionVariable::Url), s("https://www.example.com:8443/a/b?q=1"));
    assert_eq!(u.resolve_variable(ExpressionVariable::PathQuery), s("/a/b?q=1"));
    assert_eq!(u.resolve_variable(ExpressionVariable::UrlPath), s("/a/b"));
    assert_eq!(u.resolve_variable(ExpressionVariable::Query), s("q=1"));
    assert_eq!(u.resolve_variable(ExpressionVariable::Scheme), s("https"));
    assert_eq!(u.resolve_variable(ExpressionVariable::Authority), s("www.example.com:8443"));
    assert_eq!(u.resolve_variable(ExpressionVariable::Host), s("www.example.com"));
    assert_eq!(u.resolve_variable(ExpressionVariable::Sld), s("example.com"));
    assert_eq!(u.resolve_variable(ExpressionVariable::Port), Variable::Integer(8443));
    assert_eq!(u.resolve_variable(ExpressionVariable::Name), Variable::Integer(0));
    let raw = UrlParts { url: "not a url".to_string(), url_parsed: None };
    assert_eq!(raw.resolve_variable(ExpressionVariable::Host), s(""));
    assert_eq!(raw.resolve_variable(ExpressionVariable::Port), Variable::Integer(0));
}

#[test]
fn string_resolvers() {
    let t = StringResolver("abc".to_string());
    assert_eq!(t.resolve_variable(ExpressionVariable::Subject), s("abc"));
    assert_eq!(t.resolve_global("x"), Variable::Integer(0));
    let l = StringListResolver(vec!["a".to_string(), "b".to_string()]);
    assert_eq!(l.resolve_variable(ExpressionVariable::Value), list(&["a", "b"]));
    assert_eq!(l.resolve_global("x"), Variable::Integer(0));
}
