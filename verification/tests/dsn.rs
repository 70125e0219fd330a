use stalwart::delivery::QueueSettings;
use stalwart::dsn::{compose_dsn_text, header_excerpt, quoted_headers};
use stalwart::queue::{
    DeliveryStatus, Error, ErrorDetails, HostResponse, Message, MessageWrapper, QueueExpiry, QueueName,
    Recipient, Response, Schedule, Status, UnexpectedResponse, RCPT_DSN_SENT, RCPT_NOTIFY_DELAY,
    RCPT_NOTIFY_FAILURE, RCPT_NOTIFY_SUCCESS,
};

fn response(code: u16, esc: [u8; 3], message: &str) -> Response {
    Response { code, esc, message: message.to_string() }
}

fn rcpt(address: &str, status: DeliveryStatus, flags: u64) -> Recipient {
    Recipient {
        address: address.to_string(),
        address_lcase: address.to_lowercase(),
        status,
        flags,
        orcpt: None,
        retry: Schedule { due: 0, inner: 0 },
        notify: Schedule { due: 0, inner: 0 },
        expires: QueueExpiry::Ttl(3600),
        queue: QueueName(0),
    }
}

fn message(recipients: Vec<Recipient>) -> MessageWrapper {
    MessageWrapper {
        queue_id: 7,
        queue_name: QueueName(0),
        span_id: 1,
        message: Message {
            created: 0,
            return_path: "sender@example.org".to_string(),
            return_path_lcase: "sender@example.org".to_string(),
            return_path_domain: "example.org".to_string(),
            recipients,
            flags: 0,
            env_id: None,
            priority: 0,
            size: 100,
            blob_hash: vec![0u8; 32],
            quota_keys: vec![],
        },
    }
}

fn delivered() -> DeliveryStatus {
    Status::Completed(HostResponse {
        hostname: "mx.example.com".to_string(),
        response: response(250, [2, 1, 5], "Queued as 123"),
    })
}

fn rejected() -> DeliveryStatus {
    Status::PermanentFailure(ErrorDetails {
        entity: "mx.example.com".to_string(),
        details: Error::UnexpectedResponse(UnexpectedResponse {
            command: "RCPT TO:<jane@example.com>".to_string(),
            response: response(550, [5, 1, 1], "No such\r\n user"),
        }),
    })
}

#[test]
fn status_field_uses_enhanced_code_or_reply_code() {
    let mut out = String::new();
    response(250, [2, 1, 5], "ok").write_dsn_status(&mut out);
    assert_eq!(out, "2.1.5");
    let mut out = String::new();
    response(451, [0, 0, 0], "later").write_dsn_status(&mut out);
    assert_eq!(out, "4.5.1");
}

#[test]
fn diagnostic_drops_line_breaks() {
    let mut out = String::new();
    response(550, [5, 1, 1], "No such\r\n user").write_dsn_diagnostic(&mut out);
    assert_eq!(out, "Diagnostic-Code: smtp;550 No such user\r\n");
}

#[test]
fn delivered_line_names_host_and_code() {
    let mut out = String::new();
    if let Status::Completed(h) = delivered() {
        h.write_dsn_text("john@example.com", &mut out);
    }
    assert_eq!(
        out,
        "<john@example.com> (delivered to 'mx.example.com' with code 250 (2.1.5) 'Queued as 123')\r\n"
    );
}

#[test]
fn rejected_line_names_command() {
    let mut out = String::new();
    if let Status::PermanentFailure(e) = rejected() {
        e.write_dsn_text("jane@example.com", &mut out);
    }
    assert_eq!(
        out,
        "<jane@example.com> (host 'mx.example.com' rejected command 'RCPT TO:<jane@example.com>' with code 550 (5.1.1) 'No such user')\r\n"
    );
}

#[test]
fn each_error_kind_has_its_line() {
    let cases: Vec<(Error, &str)> = vec![
        (Error::DnsError("NXDOMAIN".to_string()), "<a@b> (failed to lookup 'host': NXDOMAIN)\r\n"),
        (Error::ConnectionError("refused".to_string()), "<a@b> (connection to 'host' failed: refused)\r\n"),
        (Error::TlsError("bad cert".to_string()), "<a@b> (TLS error from 'host': bad cert)\r\n"),
        (Error::DaneError("no match".to_string()), "<a@b> (DANE failed to authenticate 'host': no match)\r\n"),
        (
            Error::MtaStsError("policy".to_string()),
            "<a@b> (MTA-STS failed to authenticate 'host': policy)\r\n",
        ),
        (Error::RateLimited, "<a@b> (rate limited)\r\n"),
        (Error::ConcurrencyLimited, "<a@b> (too many concurrent connections to remote server)\r\n"),
        (Error::Io("disk".to_string()), "<a@b> (queue error: disk)\r\n"),
    ];
    for (details, expected) in cases {
        let mut out = String::new();
        ErrorDetails { entity: "host".to_string(), details }.write_dsn_text("a@b", &mut out);
        assert_eq!(out, expected);
    }
}

#[test]
fn status_fields_of_failure() {
    let mut out = String::new();
    rejected().write_dsn(&mut out);
    assert_eq!(
        out,
        "Action: failed\r\nStatus: 5.1.1\r\nDiagnostic-Code: smtp;550 No such user\r\nRemote-MTA: dns;mx.example.com\r\n"
    );
    let mut out = String::new();
    let s: DeliveryStatus = Status::TemporaryFailure(ErrorDetails {
        entity: "localhost".to_string(),
        details: Error::RateLimited,
    });
    s.write_dsn(&mut out);
    assert_eq!(out, "Action: delayed\r\nStatus: 4.0.0\r\n");
}

#[test]
fn headers_carry_arrival_date() {
    let m = message(vec![]);
    let mut out = String::new();
    m.message.write_dsn_headers(&mut out, "mx.example.org");
    assert_eq!(
        out,
        "Reporting-MTA: dns;mx.example.org\r\nArrival-Date: Thu, 1 Jan 1970 00:00:00 +0000\r\n\r\n"
    );
}

#[test]
fn retry_until_only_before_expiry() {
    let r = rcpt("a@b", Status::Scheduled, 0);
    let mut out = String::new();
    r.write_dsn_will_retry_until(0, 10, &mut out);
    assert_eq!(out, "Will-Retry-Until: Thu, 1 Jan 1970 01:00:00 +0000\r\n");
    let mut out = String::new();
    r.write_dsn_will_retry_until(0, 3600, &mut out);
    assert_eq!(out, "");
}

#[test]
fn subject_and_intro_follow_sections() {
    let (subject, text) =
        compose_dsn_text(&"<a@b> ok\r\n".to_string(), &String::new(), &String::new());
    assert_eq!(subject, "Successfully delivered message");
    assert_eq!(
        text,
        "Your message has been successfully delivered to the following recipients:\r\n\r\n<a@b> ok\r\n\r\n"
    );
    let (subject, text) =
        compose_dsn_text(&"S\r\n".to_string(), &String::new(), &"F\r\n".to_string());
    assert_eq!(subject, "Partially delivered message");
    assert_eq!(
        text,
        "Your message has been partially delivered:\r\n\r\n    ----- Delivery to the following addresses was successful -----\r\nS\r\n\r\n    ----- Delivery to the following addresses failed -----\r\nF\r\n\r\n"
    );
}

#[test]
fn header_excerpt_stops_after_blank_line() {
    assert_eq!(header_excerpt(b"Subject: x\r\n\r\nbody"), 14);
    assert_eq!(header_excerpt(b"Subject: x\nFrom: y\n\nbody"), 20);
    assert_eq!(header_excerpt(b"no blank line"), 13);
}

fn queues(n: usize, notify: Vec<u64>) -> Vec<QueueSettings> {
    (0..n)
        .map(|_| QueueSettings {
            retry: vec![60],
            notify: notify.clone(),
            expiry: stalwart::queue::QueueExpiry::Ttl(3600),
            virtual_queue: stalwart::queue::QueueName(0),
        })
        .collect()
}

#[test]
fn build_dsn_reports_final_statuses_once() {
    let mut m = message(vec![
        rcpt("john@example.com", delivered(), RCPT_NOTIFY_SUCCESS),
        rcpt("jane@example.com", rejected(), RCPT_NOTIFY_FAILURE),
    ]);
    let report = m.build_dsn(10, "mx.example.org", &queues(2, vec![])).expect("a report is due");
    assert_eq!(report.subject, "Partially delivered message");
    assert!(!report.has_delay);
    assert!(report.delivery_status.contains("Final-Recipient: rfc822;john@example.com\r\nAction: delivered"));
    assert!(report.delivery_status.contains("Final-Recipient: rfc822;jane@example.com\r\nAction: failed"));
    assert!(m.message.recipients.iter().all(|r| r.flags & RCPT_DSN_SENT != 0));
    // A second report finds nothing left to say.
    assert!(m.build_dsn(20, "mx.example.org", &queues(2, vec![])).is_none());
}

#[test]
fn build_dsn_reports_due_delays_without_marking() {
    let mut r = rcpt("late@example.com", Status::Scheduled, RCPT_NOTIFY_DELAY);
    r.notify = Schedule { due: 5, inner: 0 };
    let mut m = message(vec![r]);
    assert!(m.build_dsn(4, "mx", &queues(1, vec![5, 60])).is_none());
    let report = m.build_dsn(5, "mx", &queues(1, vec![5, 60])).expect("the delay notification is due");
    assert!(report.has_delay);
    assert_eq!(report.subject, "Warning: Delay in message delivery");
    assert!(report.delivery_status.contains("Will-Retry-Until: Thu, 1 Jan 1970 01:00:00 +0000\r\n"));
    assert_eq!(m.message.recipients[0].flags & RCPT_DSN_SENT, 0);
    // The next delay notification follows the queue's schedule.
    assert_eq!(m.message.recipients[0].notify, Schedule { due: 65, inner: 1 });
    assert!(m.build_dsn(64, "mx", &queues(1, vec![5, 60])).is_none());
    assert!(m.build_dsn(65, "mx", &queues(1, vec![5, 60])).is_some());
    // The schedule has no further entry: no more delay notifications.
    assert_eq!(m.message.recipients[0].notify, Schedule { due: u64::MAX, inner: 1 });
}

#[test]
fn schedule_next_notify_moves_due_delays() {
    let mut r = rcpt("late@example.com", Status::Scheduled, RCPT_NOTIFY_DELAY);
    r.notify = Schedule { due: 5, inner: 0 };
    let mut m = message(vec![r.clone(), r]);
    m.schedule_next_notify(5, &vec![Some(60), None]);
    assert_eq!(m.message.recipients[0].notify, Schedule { due: 65, inner: 1 });
    assert_eq!(m.message.recipients[1].notify.due, u64::MAX);
}

#[test]
fn double_bounce_marks_failures() {
    let mut m = message(vec![rcpt("jane@example.com", rejected(), RCPT_NOTIFY_FAILURE)]);
    m.message.return_path = String::new();
    let lines = m.handle_double_bounce(10);
    assert_eq!(lines.len(), 1);
    assert!(lines[0].starts_with("<jane@example.com> (host 'mx.example.com' rejected"));
    assert!(m.message.recipients[0].flags & RCPT_DSN_SENT != 0);
    assert!(m.handle_double_bounce(11).is_empty());
}

#[test]
fn quoted_headers_are_the_header_block_as_text() {
    assert_eq!(quoted_headers(b"Subject: x\r\n\r\nbody"), "Subject: x\r\n\r\n");
    assert_eq!(quoted_headers(b"Subject: \xff\r\n\r\nbody"), "");
}

#[test]
fn dsn_message_is_a_multipart_report_to_the_sender() {
    let mut m = message(vec![rcpt("jane@example.com", rejected(), RCPT_NOTIFY_FAILURE)]);
    let stored = b"Subject: hello\r\nFrom: sender@example.org\r\n\r\nbody text";
    let bytes = m
        .dsn_message(10, "Mail Delivery Subsystem", "MAILER-DAEMON@mx.example.org", "mx.example.org", Some(stored), &queues(1, vec![]))
        .expect("a report is due");
    let text = String::from_utf8(bytes).expect("the message is text");
    assert!(text.contains("Mail Delivery Subsystem"));
    assert!(text.contains("<MAILER-DAEMON@mx.example.org>"));
    assert!(text.contains("To: sender@example.org\r\n"));
    assert!(text.contains("Auto-Submitted: auto-generated\r\n"));
    assert!(text.contains("Subject: Failed to deliver message\r\n"));
    assert!(text.contains("@mx.example.org>\r\n"));
    assert!(text.contains("multipart/report"));
    assert!(text.contains("report-type=\"delivery-status\""));
    assert!(text.contains("message/delivery-status"));
    assert!(text.contains("Final-Recipient: rfc822;jane@example.com\r\nAction: failed"));
    assert!(text.contains("message/rfc822"));
    assert!(text.contains("Subject: hello\r\nFrom: sender@example.org\r\n"));
    assert!(!text.contains("body text"));
    assert!(m.message.recipients[0].flags & RCPT_DSN_SENT != 0);
    // Nothing is left to report.
    assert!(m
        .dsn_message(20, "Mail Delivery Subsystem", "MAILER-DAEMON@mx.example.org", "mx.example.org", None, &queues(1, vec![]))
        .is_none());
}

#[test]
fn dsn_to_send_without_return_path_is_a_double_bounce() {
    let mut m = message(vec![rcpt("jane@example.com", rejected(), RCPT_NOTIFY_FAILURE)]);
    m.message.return_path = String::new();
    let sent = m.dsn_to_send(10, "Mail Delivery Subsystem", "MAILER-DAEMON@mx.example.org", "mx.example.org", None, &vec![]);
    assert!(sent.is_none());
    assert!(m.message.recipients[0].flags & RCPT_DSN_SENT != 0);

    let mut m = message(vec![rcpt("jane@example.com", rejected(), RCPT_NOTIFY_FAILURE)]);
    let sent = m.dsn_to_send(10, "Mail Delivery Subsystem", "MAILER-DAEMON@mx.example.org", "mx.example.org", None, &queues(1, vec![]));
    let text = String::from_utf8(sent.expect("a report is due")).expect("the message is text");
    assert!(text.contains("To: sender@example.org\r\n"));
    assert!(m.message.recipients[0].flags & RCPT_DSN_SENT != 0);
}
