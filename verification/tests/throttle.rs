use stalwart::throttle::{
    rate_check_allows, throttle_verdict,
    rcpt_domain_counted, throttle_stage, EnvelopeVars, QueueQuota, Rate, Throttle, ThrottleStage,
    THROTTLE_AUTH_AS, THROTTLE_HELO_DOMAIN, THROTTLE_RCPT, THROTTLE_RCPT_DOMAIN, THROTTLE_REMOTE_IP,
    THROTTLE_SENDER, THROTTLE_SENDER_DOMAIN,
};

fn vars(sender: &str) -> EnvelopeVars {
    EnvelopeVars {
        rcpt: "bob@example.com".to_string(),
        rcpt_domain: "example.com".to_string(),
        sender: sender.to_string(),
        sender_domain: sender.split('@').nth(1).unwrap_or("").to_string(),
        helo_domain: "mx.example.org".to_string(),
        authenticated_as: "jane".to_string(),
        listener: "smtp".to_string(),
        mx: "mx1.example.com".to_string(),
        remote_ip: "192.0.2.1".to_string(),
        local_ip: "198.51.100.1".to_string(),
    }
}

#[test]
fn throttle_material_follows_key_order() {
    let t = Throttle { keys: THROTTLE_REMOTE_IP | THROTTLE_RCPT | THROTTLE_SENDER, rate: None, concurrency: None };
    assert_eq!(t.key_material(&vars("jane@example.org")), b"bob@example.comjane@example.org192.0.2.1".to_vec());
    let t = Throttle { keys: THROTTLE_SENDER | THROTTLE_SENDER_DOMAIN | THROTTLE_HELO_DOMAIN | THROTTLE_AUTH_AS, rate: None, concurrency: None };
    assert_eq!(t.key_material(&vars("")), b"<><>mx.example.orgjane".to_vec());
}

#[test]
fn throttle_material_ends_with_limits() {
    let t = Throttle { keys: THROTTLE_RCPT_DOMAIN, rate: Some(Rate { requests: 5, period_secs: 60 }), concurrency: Some(3) };
    let m = t.key_material(&vars("a@b.c"));
    let mut expect = b"example.com".to_vec();
    expect.extend_from_slice(&60u64.to_ne_bytes());
    expect.extend_from_slice(&5u64.to_ne_bytes());
    expect.extend_from_slice(&3u64.to_ne_bytes());
    assert_eq!(m, expect);
}

#[test]
fn throttle_key_is_blake3_of_material() {
    let t = Throttle { keys: THROTTLE_RCPT, rate: Some(Rate { requests: 1, period_secs: 1 }), concurrency: None };
    let v = vars("a@b.c");
    let key = t.new_key(&v);
    assert_eq!(key.hash, *blake3::hash(&t.key_material(&v)).as_bytes());
    let other = Throttle { keys: THROTTLE_RCPT, rate: None, concurrency: None };
    assert_ne!(other.new_key(&v).hash, key.hash);
}

#[test]
fn quota_material_and_key() {
    let q = QueueQuota { keys: THROTTLE_SENDER_DOMAIN | THROTTLE_RCPT, messages: Some(10), size: None };
    let v = vars("jane@example.org");
    let mut expect = b"bob@example.comexample.org".to_vec();
    expect.extend_from_slice(&10u64.to_ne_bytes());
    assert_eq!(q.key_material(&v), expect);
    assert_eq!(q.new_key(&v).hash, *blake3::hash(&expect).as_bytes());
    let q = QueueQuota { keys: THROTTLE_HELO_DOMAIN, messages: None, size: None };
    assert_eq!(q.key_material(&v), Vec::<u8>::new());
}

#[test]
fn session_throttle_stages() {
    assert_eq!(throttle_stage(false, false), ThrottleStage::Connect);
    assert_eq!(throttle_stage(false, true), ThrottleStage::MailFrom);
    assert_eq!(throttle_stage(true, true), ThrottleStage::RcptTo);
}

#[test]
fn recipient_domain_already_counted() {
    let d = |v: &[&str]| v.iter().map(|s| s.to_string()).collect::<Vec<_>>();
    assert!(!rcpt_domain_counted(&d(&[])));
    assert!(!rcpt_domain_counted(&d(&["a.com"])));
    assert!(!rcpt_domain_counted(&d(&["a.com", "b.com"])));
    assert!(rcpt_domain_counted(&d(&["b.com", "a.com", "b.com"])));
}

#[test]
fn session_throttle_verdicts() {
    let limited: Option<Result<Option<u64>, ()>> = Some(Ok(Some(30)));
    let within: Option<Result<Option<u64>, ()>> = Some(Ok(None));
    let broken: Option<Result<Option<u64>, ()>> = Some(Err(()));
    assert!(!throttle_verdict(true, None, &limited));
    assert!(throttle_verdict(false, Some(false), &limited));
    assert!(throttle_verdict(true, Some(true), &within));
    assert!(!throttle_verdict(true, Some(false), &within));
    assert!(throttle_verdict(true, None, &broken));
    assert!(throttle_verdict(true, None, &None::<Result<Option<u64>, ()>>));
    assert!(rate_check_allows(&Ok::<Option<u64>, ()>(None)));
    assert!(!rate_check_allows(&Ok::<Option<u64>, ()>(Some(1))));
}
