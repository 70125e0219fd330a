use stalwart::outbound::{
    from_mail_auth_error, from_mta_sts_error, DnsFailure, MtaStsFailure,
    bdat_command, from_smtp_error, from_starttls_error, from_tls_error, lmtp_data_results, rcpt_reply,
    smtp_data_results, write_message, RcptReply, SmtpError, SmtpErrorKind, EXT_CHUNKING, EXT_DSN,
    EXT_REQUIRE_TLS, EXT_SIZE, EXT_SMTP_UTF8,
};
use stalwart::queue::{
    DeliveryStatus, Error, HostResponse, Message, MessageWrapper, QueueExpiry, QueueName, Recipient, Response,
    Schedule, Status, MAIL_REQUIRETLS, MAIL_RET_HDRS, MAIL_SMTPUTF8, RCPT_NOTIFY_DELAY, RCPT_NOTIFY_FAILURE,
    RCPT_NOTIFY_NEVER, RCPT_NOTIFY_SUCCESS,
};
use stalwart::session::DeliveryResult;

fn resp(code: u16, msg: &str) -> Response {
    Response { code, esc: [0, 0, 0], message: msg.to_string() }
}

fn wrapper(flags: u64, env_id: Option<&str>) -> MessageWrapper {
    MessageWrapper {
        queue_id: 1,
        queue_name: QueueName(0),
        span_id: 0,
        message: Message {
            created: 0,
            return_path: "s@example.org".to_string(),
            return_path_lcase: "s@example.org".to_string(),
            return_path_domain: "example.org".to_string(),
            recipients: vec![],
            flags,
            env_id: env_id.map(|s| s.to_string()),
            priority: 0,
            size: 1234,
            blob_hash: vec![],
            quota_keys: vec![],
        },
    }
}

fn rcpt(flags: u64) -> Recipient {
    Recipient {
        address: "r@example.com".to_string(),
        address_lcase: "r@example.com".to_string(),
        status: Status::Scheduled,
        flags,
        orcpt: None,
        retry: Schedule { due: 0, inner: 0 },
        notify: Schedule { due: 0, inner: 0 },
        expires: QueueExpiry::Attempts(1),
        queue: QueueName(0),
    }
}

#[test]
fn mail_from_parameters_follow_capabilities() {
    let m = wrapper(MAIL_REQUIRETLS | MAIL_SMTPUTF8 | MAIL_RET_HDRS, Some("abc"));
    assert_eq!(m.build_mail_from(0), "MAIL FROM:<s@example.org>\r\n");
    assert_eq!(
        m.build_mail_from(EXT_SIZE | EXT_REQUIRE_TLS | EXT_SMTP_UTF8 | EXT_DSN),
        "MAIL FROM:<s@example.org> SIZE=1234 REQUIRETLS SMTPUTF8 RET=HDRS ENVID=abc\r\n"
    );
}

#[test]
fn rcpt_to_notify_list() {
    let m = wrapper(0, None);
    assert_eq!(m.build_rcpt_to(&rcpt(RCPT_NOTIFY_SUCCESS), 0), "RCPT TO:<r@example.com>\r\n");
    assert_eq!(
        m.build_rcpt_to(&rcpt(RCPT_NOTIFY_SUCCESS | RCPT_NOTIFY_DELAY | RCPT_NOTIFY_FAILURE), EXT_DSN),
        "RCPT TO:<r@example.com> NOTIFY=SUCCESS,DELAY,FAILURE\r\n"
    );
    assert_eq!(m.build_rcpt_to(&rcpt(RCPT_NOTIFY_FAILURE), EXT_DSN), "RCPT TO:<r@example.com> NOTIFY=FAILURE\r\n");
    assert_eq!(m.build_rcpt_to(&rcpt(RCPT_NOTIFY_NEVER), EXT_DSN), "RCPT TO:<r@example.com> NOTIFY=NEVER\r\n");
}

#[test]
fn bdat_only_with_chunking() {
    assert_eq!(bdat_command(EXT_CHUNKING, 42), Some("BDAT 42 LAST\r\n".to_string()));
    assert_eq!(bdat_command(0, 42), None);
}

#[test]
fn smtp_errors_map_to_statuses() {
    match from_smtp_error("mx", "  RCPT TO:<a@b>  ", SmtpError { kind: SmtpErrorKind::UnexpectedReply(resp(550, "no")), text: String::new() }) {
        Status::PermanentFailure(e) => match e.details {
            Error::UnexpectedResponse(u) => {
                assert_eq!(u.command, "RCPT TO:<a@b>");
                assert_eq!(u.response.code, 550);
            }
            _ => panic!("expected reply"),
        },
        _ => panic!("expected permanent failure"),
    }
    assert!(matches!(
        from_smtp_error("mx", "DATA", SmtpError { kind: SmtpErrorKind::UnexpectedReply(resp(451, "later")), text: String::new() }),
        Status::TemporaryFailure(_)
    ));
    match from_smtp_error("mx", "", SmtpError { kind: SmtpErrorKind::Timeout, text: "timed out".to_string() }) {
        Status::TemporaryFailure(e) => assert!(matches!(e.details, Error::ConnectionError(ref t) if t == "timed out")),
        _ => panic!("expected temporary failure"),
    }
    assert!(matches!(
        from_smtp_error("mx", "", SmtpError { kind: SmtpErrorKind::MissingStartTls, text: "x".to_string() }),
        Status::PermanentFailure(_)
    ));
}

#[test]
fn starttls_and_tls_errors() {
    match from_starttls_error("mx", None) {
        Status::PermanentFailure(e) => assert!(matches!(e.details, Error::TlsError(ref t) if t == "STARTTLS not advertised by host.")),
        _ => panic!("expected permanent failure"),
    }
    assert!(matches!(from_starttls_error("mx", Some(resp(454, "busy"))), Status::TemporaryFailure(_)));
    match from_tls_error("mx", SmtpError { kind: SmtpErrorKind::Tls("bad".to_string()), text: String::new() }) {
        Status::TemporaryFailure(e) => assert!(matches!(e.details, Error::TlsError(ref t) if t == "Handshake failed: bad")),
        _ => panic!("expected temporary failure"),
    }
    match from_tls_error("mx", SmtpError { kind: SmtpErrorKind::InvalidTlsName, text: String::new() }) {
        Status::PermanentFailure(e) => assert!(matches!(e.details, Error::TlsError(ref t) if t == "Invalid hostname")),
        _ => panic!("expected permanent failure"),
    }
    match from_tls_error("mx", SmtpError { kind: SmtpErrorKind::Base64, text: String::new() }) {
        Status::PermanentFailure(e) => assert!(matches!(e.details, Error::TlsError(ref t) if t == "Other TLS error")),
        _ => panic!("expected permanent failure"),
    }
}

#[test]
fn rcpt_replies() {
    match rcpt_reply("mx", "RCPT TO:<a@b>\r\n", resp(250, "ok")) {
        RcptReply::Accepted(Status::Completed(h)) => assert_eq!(h.hostname, "mx"),
        _ => panic!("expected acceptance"),
    }
    match rcpt_reply("mx", "RCPT TO:<a@b>\r\n", resp(452, "full")) {
        RcptReply::Rejected(Status::TemporaryFailure(e)) => match e.details {
            Error::UnexpectedResponse(u) => assert_eq!(u.command, "RCPT TO:<a@b>"),
            _ => panic!("expected reply"),
        },
        _ => panic!("expected temporary rejection"),
    }
}

fn done(code: u16) -> DeliveryStatus {
    Status::Completed(HostResponse { hostname: "mx".to_string(), response: resp(code, "ok") })
}

#[test]
fn data_replies() {
    let accepted = vec![(0usize, done(250)), (2usize, done(250))];
    let r = smtp_data_results("mx", "DATA", resp(250, "queued"), &accepted, vec![0, 2]);
    assert_eq!(r.len(), 2);
    assert!(matches!(r[1], DeliveryResult::Account { rcpt_idx: 2, .. }));
    let r = smtp_data_results("mx", "DATA", resp(554, "no"), &accepted, vec![0, 2]);
    assert_eq!(r.len(), 1);
    match &r[0] {
        DeliveryResult::Domain { status: Status::PermanentFailure(_), rcpt_idxs } => assert_eq!(rcpt_idxs, &vec![0, 2]),
        _ => panic!("expected domain failure"),
    }
    let r = lmtp_data_results("lmtp", "DATA", &vec![3, 4, 5], vec![resp(250, "ok"), resp(452, "full")]);
    assert_eq!(r.len(), 2);
    assert!(matches!(r[0], DeliveryResult::Account { rcpt_idx: 3, status: Status::Completed(_) }));
    assert!(matches!(r[1], DeliveryResult::Account { rcpt_idx: 4, status: Status::TemporaryFailure(_) }));
}

#[test]
fn message_data_is_dot_stuffed() {
    assert_eq!(write_message(b"a\r\n.b\r\n..\r\n"), b"a\r\n..b\r\n...\r\n\r\n.\r\n".to_vec());
    assert_eq!(write_message(b".start"), b".start\r\n.\r\n".to_vec());
    assert_eq!(write_message(b""), b"\r\n.\r\n".to_vec());
}

fn failure(s: &DeliveryStatus) -> (bool, String, String) {
    match s {
        Status::PermanentFailure(d) | Status::TemporaryFailure(d) => {
            let text = match &d.details {
                Error::DnsError(t) => format!("dns:{t}"),
                Error::MtaStsError(t) => format!("sts:{t}"),
                _ => String::new(),
            };
            (matches!(s, Status::PermanentFailure(_)), d.entity.clone(), text)
        }
        _ => panic!("not a failure"),
    }
}

#[test]
fn dns_failures_to_status() {
    let s = from_mail_auth_error("example.org", DnsFailure::RecordNotFound("NXDomain".to_string()));
    assert_eq!(failure(&s), (true, "example.org".to_string(), "dns:Domain not found: NXDomain".to_string()));
    let s = from_mail_auth_error("example.org", DnsFailure::Other("timed out".to_string()));
    assert_eq!(failure(&s), (false, "example.org".to_string(), "dns:timed out".to_string()));
    let s = from_mail_auth_error("example.org", DnsFailure::InvalidRecordType("bad record".to_string()));
    assert_eq!(failure(&s), (false, "example.org".to_string(), "dns:bad record".to_string()));
}

#[test]
fn mta_sts_failures_to_status() {
    let e = "example.org".to_string();
    let cases = vec![
        (MtaStsFailure::Dns(DnsFailure::RecordNotFound("NXDomain".to_string())), true, "Record not found: NXDomain"),
        (MtaStsFailure::Dns(DnsFailure::InvalidRecordType("x".to_string())), true, "Failed to parse MTA-STS DNS record."),
        (MtaStsFailure::Dns(DnsFailure::Other("refused".to_string())), false, "DNS lookup error: refused"),
        (MtaStsFailure::HttpTimeout, false, "Timeout fetching policy."),
        (MtaStsFailure::HttpConnect, false, "Could not reach policy host."),
        (MtaStsFailure::HttpNotFound, true, "Policy not found."),
        (MtaStsFailure::HttpOther, false, "Failed to fetch policy."),
        (MtaStsFailure::InvalidPolicy("missing mode".to_string()), true, "Failed to parse policy: missing mode"),
    ];
    for (err, permanent, text) in cases {
        let s = from_mta_sts_error("example.org", err);
        assert_eq!(failure(&s), (permanent, e.clone(), format!("sts:{text}")));
    }
}
