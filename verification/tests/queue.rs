use stalwart::delivery::{delivery_end, delivery_start, QueueSettings, StartAction};
use stalwart::manager::QueueEventStatus;
use stalwart::queue::{
    ArchivedMessage, DeliveryStatus, Error, ErrorDetails, HostResponse, Message, MessageWrapper, PendingDelivery,
    QueueExpiry, QueueName, Recipient, Response, Schedule, Severity, Status, RCPT_NOTIFY_DELAY,
};
use stalwart::session::{DeliveryResult, SessionAddress};

fn rcpt(address: &str, queue: u64, retry_due: u64, notify_due: u64) -> Recipient {
    Recipient {
        address: address.to_string(),
        address_lcase: address.to_lowercase(),
        status: Status::Scheduled,
        flags: RCPT_NOTIFY_DELAY,
        orcpt: None,
        retry: Schedule { due: retry_due, inner: 0 },
        notify: Schedule { due: notify_due, inner: 0 },
        expires: QueueExpiry::Ttl(1000),
        queue: QueueName(queue),
    }
}

fn wrapper(recipients: Vec<Recipient>) -> MessageWrapper {
    MessageWrapper {
        queue_id: 9,
        queue_name: QueueName(0),
        span_id: 0,
        message: Message {
            created: 100,
            return_path: "s@sender.org".to_string(),
            return_path_lcase: "s@sender.org".to_string(),
            return_path_domain: "sender.org".to_string(),
            recipients,
            flags: 0,
            env_id: None,
            priority: 0,
            size: 10,
            blob_hash: vec![],
            quota_keys: vec![],
        },
    }
}

fn done() -> DeliveryStatus {
    Status::Completed(HostResponse {
        hostname: "mx".to_string(),
        response: Response { code: 250, esc: [2, 0, 0], message: "ok".to_string() },
    })
}

#[test]
fn reply_severity() {
    let r = |code| Response { code, esc: [0, 0, 0], message: String::new() };
    assert_eq!(r(250).severity(), Severity::PositiveCompletion);
    assert_eq!(r(354).severity(), Severity::PositiveIntermediate);
    assert_eq!(r(421).severity(), Severity::TransientNegativeCompletion);
    assert_eq!(r(550).severity(), Severity::PermanentNegativeCompletion);
    assert_eq!(r(199).severity(), Severity::Invalid);
    assert!(r(299).is_positive_completion());
    assert!(!r(300).is_positive_completion());
}

#[test]
fn permanent_and_temporary_conversions() {
    let details = || ErrorDetails { entity: "mx".to_string(), details: Error::RateLimited };
    let s: DeliveryStatus = Status::TemporaryFailure(details());
    let p = s.into_permanent();
    assert!(p.is_permanent());
    let again = p.clone().into_permanent();
    assert!(matches!(again, Status::PermanentFailure(_)));
    assert!(matches!(p.into_temporary(), Status::TemporaryFailure(_)));
    let t = Status::<HostResponse, ErrorDetails>::timeout("mx.example.com", "reading greeting");
    match t {
        Status::TemporaryFailure(e) => {
            assert_eq!(e.entity, "mx.example.com");
            assert!(matches!(e.details, Error::ConnectionError(ref m) if m == "Timeout while reading greeting"));
        }
        _ => panic!("expected temporary failure"),
    }
    match Status::<HostResponse, ErrorDetails>::local_error() {
        Status::TemporaryFailure(e) => assert_eq!(e.entity, "localhost"),
        _ => panic!("expected temporary failure"),
    }
}

#[test]
fn expiry_by_time_or_attempts() {
    let mut r = rcpt("a@b", 0, 0, 0);
    assert_eq!(r.expiration_time(100), Some(1100));
    assert!(!r.is_expired(100, 1099));
    assert!(r.is_expired(100, 1100));
    r.expires = QueueExpiry::Attempts(2);
    assert_eq!(r.expiration_time(100), None);
    r.retry.inner = 2;
    assert!(r.is_expired(100, 0));
    assert!(r.has_flag(RCPT_NOTIFY_DELAY));
}

#[test]
fn next_events_per_queue() {
    let mut m = wrapper(vec![rcpt("a@x.org", 0, 500, 300), rcpt("b@y.org", 1, 200, 900), rcpt("c@z.org", 0, 50, 60)]);
    m.message.recipients[2].status = done();
    assert_eq!(m.message.next_event(None), Some(200));
    assert_eq!(m.message.next_event(Some(QueueName(0))), Some(300));
    assert_eq!(m.message.next_delivery_event(Some(QueueName(0))), Some(500));
    assert_eq!(m.message.next_dsn(None), Some(300));
    assert_eq!(m.message.expires(None), Some(1100));
    let mut events = m.message.next_events();
    events.sort_by_key(|e| e.0 .0);
    assert_eq!(events, vec![(QueueName(0), 300), (QueueName(1), 200)]);
    let archived = ArchivedMessage { message: m.message.clone() };
    assert_eq!(archived.next_delivery_event(7), 200);
    assert!(archived.has_domain(&["Y.ORG".to_lowercase()]));
    assert!(archived.has_domain(&["sender.org".to_string()]));
    assert!(!archived.has_domain(&["other.org".to_string()]));
    m.message.recipients[0].status = done();
    m.message.recipients[1].status = done();
    assert_eq!(m.message.next_event(None), None);
    assert_eq!(ArchivedMessage { message: m.message }.next_delivery_event(7), 7);
}

#[test]
fn pending_delivery_and_start() {
    let mut m = wrapper(vec![rcpt("a@x.org", 0, 500, 300), rcpt("b@x.org", 1, 10, 300)]);
    assert_eq!(m.has_pending_delivery(100), PendingDelivery::Yes(true));
    m.queue_name = QueueName(5);
    assert_eq!(m.has_pending_delivery(100), PendingDelivery::Yes(false));
    m.message.recipients[0].status = done();
    m.message.recipients[1].status = done();
    assert_eq!(m.has_pending_delivery(100), PendingDelivery::No);
    assert!(matches!(delivery_start(PendingDelivery::No, Some(1), 5), StartAction::Remove));
    assert!(matches!(delivery_start(PendingDelivery::Yes(true), Some(5), 5), StartAction::Deliver));
    assert!(matches!(delivery_start(PendingDelivery::Yes(true), Some(6), 5), StartAction::Defer));
    assert!(matches!(delivery_start(PendingDelivery::Yes(false), Some(1), 5), StartAction::Defer));
    assert!(delivery_end(Some(3)) == QueueEventStatus::Deferred);
    assert!(delivery_end(None) == QueueEventStatus::Completed);
}

fn settings() -> QueueSettings {
    QueueSettings { retry: vec![60, 300], notify: vec![3600], expiry: QueueExpiry::Ttl(5000), virtual_queue: QueueName(3) }
}

#[test]
fn retries_follow_the_schedule() {
    let mut m = wrapper(vec![rcpt("a@x.org", 0, 0, 0)]);
    let temp: DeliveryStatus = Status::TemporaryFailure(ErrorDetails { entity: "mx".to_string(), details: Error::RateLimited });
    m.set_rcpt_status(temp.clone(), 0, 1000, &settings());
    assert_eq!(m.message.recipients[0].retry, Schedule { due: 1060, inner: 1 });
    m.set_rcpt_status(temp.clone(), 0, 2000, &settings());
    assert_eq!(m.message.recipients[0].retry, Schedule { due: 2300, inner: 2 });
    m.set_rcpt_status(temp, 0, 3000, &settings());
    assert_eq!(m.message.recipients[0].retry, Schedule { due: 3300, inner: 3 });
    assert_eq!(m.message.recipients[0].queue, QueueName(3));
    assert_eq!(m.message.recipients[0].expires, QueueExpiry::Ttl(5000));
    m.set_rcpt_status(done(), 0, 4000, &settings());
    assert!(matches!(m.message.recipients[0].status, Status::Completed(_)));
    assert_eq!(m.message.recipients[0].retry.inner, 3);
}

#[test]
fn rate_limits_and_results() {
    let mut m = wrapper(vec![rcpt("a@x.org", 0, 0, 0), rcpt("b@x.org", 0, 900, 0), rcpt("c@y.org", 0, 0, 0)]);
    m.apply_sender_rate_limit(777, 100);
    assert_eq!(m.message.recipients[0].retry.due, 777);
    assert_eq!(m.message.recipients[1].retry.due, 900);
    assert!(matches!(&m.message.recipients[0].status, Status::TemporaryFailure(e) if e.entity == "localhost"));
    let groups = m.route_groups(1000, &vec![1, 1, 2]);
    assert_eq!(groups.len(), 2);
    assert_eq!(groups[0].domain, "x.org");
    assert_eq!(groups[0].rcpt_idxs, vec![0, 1]);
    assert_eq!(groups[1].rcpt_idxs, vec![2]);
    let results = vec![
        DeliveryResult::account(done(), 0),
        DeliveryResult::rate_limited(vec![1], 5000),
        DeliveryResult::domain(Status::PermanentFailure(ErrorDetails { entity: "mx".to_string(), details: Error::ConcurrencyLimited }), vec![2]),
    ];
    let queues = vec![settings(), settings(), settings()];
    m.apply_delivery_results(&results, 1000, &queues);
    assert!(matches!(m.message.recipients[0].status, Status::Completed(_)));
    assert_eq!(m.message.recipients[1].retry.due, 5000);
    assert!(matches!(m.message.recipients[2].status, Status::PermanentFailure(_)));
    let mut one = wrapper(vec![rcpt("a@x.org", 0, 0, 0)]);
    one.set_rcpt_rate_limit(0, 42);
    assert_eq!(one.message.recipients[0].retry.due, 42);
}

#[test]
fn session_address_lowercases_domain() {
    let a = SessionAddress::new("John@Example.COM".to_string());
    assert_eq!(a.address, "John@Example.COM");
    assert_eq!(a.address_lcase, "john@example.com");
    assert_eq!(a.domain, "example.com");
}

#[test]
fn added_recipients_follow_their_queue() {
    let mut m = wrapper(vec![]);
    m.add_recipient("Jane@Example.COM".to_string(), &settings(), 1000);
    let r = &m.message.recipients[0];
    assert_eq!(r.address, "Jane@Example.COM");
    assert_eq!(r.address_lcase, "jane@example.com");
    assert_eq!(r.retry, Schedule { due: 1000, inner: 0 });
    assert_eq!(r.notify, Schedule { due: 4600, inner: 0 });
    assert_eq!(r.queue, QueueName(3));
    let mut q = settings();
    q.notify = vec![];
    m.add_recipient_parts("B@x".to_string(), "b@x".to_string(), &q, 10);
    assert_eq!(m.message.recipients[1].notify.due, 86410);
    assert!(m.message.expiry_times_fit());
    m.message.recipients[1].expires = QueueExpiry::Ttl(u64::MAX);
    assert!(!m.message.expiry_times_fit());
}
