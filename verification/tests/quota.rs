use stalwart::queue::{
    DeliveryStatus, Error, ErrorDetails, HostResponse, Message, MessageWrapper, QueueExpiry, QueueName,
    QuotaKey, Recipient, Response, Schedule, Status,
};
use stalwart::quota::{check_quota, quota_checks, QuotaOutcome, QuotaScope};

fn rcpt(address: &str, status: DeliveryStatus) -> Recipient {
    Recipient {
        address: address.to_string(),
        address_lcase: address.to_string(),
        status,
        flags: 0,
        orcpt: None,
        retry: Schedule { due: 0, inner: 0 },
        notify: Schedule { due: 0, inner: 0 },
        expires: QueueExpiry::Attempts(3),
        queue: QueueName(0),
    }
}

fn done() -> DeliveryStatus {
    Status::Completed(HostResponse {
        hostname: "mx".to_string(),
        response: Response { code: 250, esc: [2, 0, 0], message: "ok".to_string() },
    })
}

fn failed() -> DeliveryStatus {
    Status::PermanentFailure(ErrorDetails { entity: "mx".to_string(), details: Error::RateLimited })
}

fn wrapper(recipients: Vec<Recipient>, quota_keys: Vec<QuotaKey>, size: u64) -> MessageWrapper {
    MessageWrapper {
        queue_id: 1,
        queue_name: QueueName(0),
        span_id: 0,
        message: Message {
            created: 0,
            return_path: "s@example.org".to_string(),
            return_path_lcase: "s@example.org".to_string(),
            return_path_domain: "example.org".to_string(),
            recipients,
            flags: 0,
            env_id: None,
            priority: 0,
            size,
            blob_hash: vec![],
            quota_keys,
        },
    }
}

#[test]
fn quota_limits_size_and_count() {
    assert_eq!(check_quota(Some(100), 40, Some(3), 2, 60), Some((true, true)));
    assert_eq!(check_quota(Some(100), 41, Some(3), 2, 60), None);
    assert_eq!(check_quota(Some(100), 0, Some(3), 3, 1), None);
    assert_eq!(check_quota(None, u64::MAX - 1, None, 0, 1), Some((false, false)));
    assert_eq!(check_quota(None, 0, Some(1), 0, 5), Some((false, true)));
}

#[test]
fn checks_share_domains_seen() {
    let rs = vec![rcpt("a@x.org", Status::Scheduled), rcpt("b@x.org", Status::Scheduled), rcpt("c@y.org", Status::Scheduled)];
    let checks = quota_checks(1, 1, 1, &rs);
    let ids: Vec<(u64, Option<usize>)> = checks.iter().map(|c| (c.id, c.rcpt)).collect();
    assert_eq!(
        ids,
        vec![(0, None), (1 << 32, Some(0)), (3 << 32, Some(2)), (1, Some(0)), (2, Some(1)), (3, Some(2))]
    );
    assert!(checks[0].scope == QuotaScope::Sender);
    assert!(checks[1].scope == QuotaScope::Domain);
    assert!(checks[5].scope == QuotaScope::Recipient);
}

#[test]
fn queue_plan_joins_headers_and_reserves() {
    let keys = vec![
        QuotaKey::Count { key: b"c".to_vec(), id: 1 },
        QuotaKey::Size { key: b"s".to_vec(), id: 1 << 32 },
    ];
    let mut m = wrapper(vec![rcpt("a@x.org", Status::Scheduled)], keys, 0);
    let plan = m.prepare_queue(Some(b"X-Hdr: 1\r\n"), b"body", 1000);
    assert_eq!(plan.content, b"X-Hdr: 1\r\nbody".to_vec());
    assert_eq!(m.message.size, 14);
    assert_eq!(plan.reserve_until, 1120);
    let updates: Vec<(bool, Vec<u8>, i64)> = plan.updates.iter().map(|u| (u.is_size, u.key.clone(), u.delta)).collect();
    assert_eq!(updates, vec![(false, b"c".to_vec(), 1), (true, b"s".to_vec(), 14)]);
    let mut sized = wrapper(vec![], vec![], 99);
    let plan = sized.prepare_queue(None, b"body", 0);
    assert_eq!(plan.content, b"body".to_vec());
    assert_eq!(sized.message.size, 99);
}

#[test]
fn released_ids_follow_finished_recipients() {
    let m = wrapper(
        vec![rcpt("a@x.org", done()), rcpt("b@x.org", failed()), rcpt("c@y.org", Status::Scheduled)],
        vec![],
        10,
    );
    assert_eq!(m.released_quota_ids(), vec![1 << 32, 1, 2]);
}

#[test]
fn release_gives_back_what_reserve_took() {
    let keys = vec![
        QuotaKey::Count { key: b"dom".to_vec(), id: 1 << 32 },
        QuotaKey::Size { key: b"dom".to_vec(), id: 1 << 32 },
        QuotaKey::Count { key: b"rcpt".to_vec(), id: 1 },
    ];
    let mut m = wrapper(vec![rcpt("a@x.org", Status::Scheduled)], keys.clone(), 0);
    let reserved: Vec<(bool, Vec<u8>, i64)> =
        m.prepare_queue(None, b"hello", 0).updates.iter().map(|u| (u.is_size, u.key.clone(), u.delta)).collect();
    m.message.recipients[0].status = done();
    let released: Vec<(bool, Vec<u8>, i64)> =
        m.release_quota().iter().map(|u| (u.is_size, u.key.clone(), u.delta)).collect();
    let reversed: Vec<(bool, Vec<u8>, i64)> = reserved.into_iter().map(|(s, k, d)| (s, k, -d)).collect();
    assert_eq!(released, reversed);
    assert!(m.message.quota_keys.is_empty());
}

#[test]
fn release_keeps_unfinished_reservations() {
    let keys = vec![QuotaKey::Count { key: b"r1".to_vec(), id: 1 }, QuotaKey::Count { key: b"r2".to_vec(), id: 2 }];
    let mut m = wrapper(vec![rcpt("a@x.org", done()), rcpt("b@y.org", Status::Scheduled)], keys, 10);
    let released = m.release_quota();
    assert_eq!(released.len(), 1);
    assert_eq!(released[0].key, b"r1".to_vec());
    assert_eq!(released[0].delta, -1);
    assert_eq!(m.message.quota_keys.len(), 1);
    let mut untouched = wrapper(vec![rcpt("a@x.org", Status::Scheduled)], vec![QuotaKey::Count { key: b"k".to_vec(), id: 1 }], 1);
    assert!(untouched.release_quota().is_empty());
    assert_eq!(untouched.message.quota_keys.len(), 1);
}

fn outcome(applies: bool, key: &[u8], id: u64, fit: Option<(bool, bool)>) -> QuotaOutcome {
    QuotaOutcome { applies, key: key.to_vec(), id, fit }
}

#[test]
fn quotas_reserve_only_when_all_fit() {
    let mut m = wrapper(vec![rcpt("a@example.com", done())], vec![], 100);
    let outcomes = vec![
        outcome(true, b"sender", 0, Some((true, true))),
        outcome(false, b"ignored", 5, None),
        outcome(true, b"rcpt", 1, Some((false, true))),
    ];
    assert!(m.has_quota(&outcomes));
    assert_eq!(m.message.quota_keys.len(), 3);
    assert!(matches!(&m.message.quota_keys[0], QuotaKey::Size { key, id: 0 } if key == b"sender"));
    assert!(matches!(&m.message.quota_keys[1], QuotaKey::Count { key, id: 0 } if key == b"sender"));
    assert!(matches!(&m.message.quota_keys[2], QuotaKey::Count { key, id: 1 } if key == b"rcpt"));

    let mut m = wrapper(vec![rcpt("a@example.com", done())], vec![], 100);
    let outcomes = vec![outcome(true, b"sender", 0, Some((true, false))), outcome(true, b"dom", 1 << 32, None)];
    assert!(!m.has_quota(&outcomes));
    assert!(m.message.quota_keys.is_empty());
}
