use stalwart::tls_report::{tls_report_domains, tls_report_texts};
use stalwart::tls_report::{
    new_tls_policy, record_session, tlsa_policy_string, MxPattern, PolicyType, ReportUri, StsMode, StsPolicy,
    TlsFailureDetails, TlsInternalReport, TlsPolicyType, TlsResultType, TlsaEntry, TlsaMatching,
};

fn failure(result_type: TlsResultType, host: Option<&str>) -> TlsFailureDetails {
    TlsFailureDetails {
        result_type,
        sending_mta_ip: None,
        receiving_mx_hostname: host.map(|h| h.to_string()),
        receiving_mx_helo: None,
        receiving_ip: None,
        failed_session_count: 1,
        additional_information: None,
        failure_reason_code: None,
    }
}

#[test]
fn tlsa_policy_strings() {
    let e = TlsaEntry { is_end_entity: true, is_spki: true, matching: TlsaMatching::Sha256, data: vec![0xAB, 0x01] };
    assert_eq!(tlsa_policy_string(&e), "3 1 1 AB01");
    let e = TlsaEntry { is_end_entity: false, is_spki: false, matching: TlsaMatching::Sha512, data: vec![] };
    assert_eq!(tlsa_policy_string(&e), "2 0 2 ");
}

#[test]
fn sts_policy_strings() {
    let sts = StsPolicy {
        mode: StsMode::Enforce,
        max_age: 86400,
        mx: vec![MxPattern::Equals("mx.example.com".to_string()), MxPattern::StartsWith("example.net".to_string())],
    };
    let p = new_tls_policy("example.com", &PolicyType::Sts(Some(sts)));
    assert!(p.policy_type == TlsPolicyType::Sts);
    assert_eq!(
        p.policy_strings,
        vec!["version: STSv1", "mode: enforce", "max_age: 86400", "mx: mx.example.com", "mx: *.example.net"]
    );
    assert_eq!(p.mx_hosts, vec!["mx.example.com", "*.example.net"]);
    let p = new_tls_policy("example.com", &PolicyType::NoPolicyFound);
    assert!(p.policy_strings.is_empty());
    assert_eq!(p.policy_domain, "example.com");
}

#[test]
fn sessions_are_counted() {
    let mut p = new_tls_policy("example.com", &PolicyType::Tlsa(None));
    record_session(&mut p, None);
    record_session(&mut p, Some(failure(TlsResultType::CertificateExpired, Some("mx1"))));
    record_session(&mut p, Some(failure(TlsResultType::CertificateExpired, Some("mx1"))));
    record_session(&mut p, Some(failure(TlsResultType::CertificateExpired, Some("mx2"))));
    assert_eq!(p.total_successful_sessions, 1);
    assert_eq!(p.total_failed_sessions, 3);
    assert_eq!(p.failure_details.len(), 2);
    assert_eq!(p.failure_details[0].failed_session_count, 2);
    assert_eq!(p.failure_details[1].failed_session_count, 1);
}

#[test]
fn report_groups_events_by_policy() {
    let mut r = TlsInternalReport {
        domain: "example.com".to_string(),
        policies: vec![],
        policy_identifiers: vec![],
        mail_rua: vec![],
        http_rua: vec![],
    };
    let ruas = vec![
        ReportUri::Mail("tls@example.com".to_string()),
        ReportUri::Http("https://example.com/tls".to_string()),
        ReportUri::Mail("tls@example.com".to_string()),
    ];
    r.record_tls_event(11, &PolicyType::NoPolicyFound, &ruas, None);
    r.record_tls_event(11, &PolicyType::NoPolicyFound, &ruas, Some(failure(TlsResultType::Other, None)));
    r.record_tls_event(22, &PolicyType::Tlsa(None), &ruas, None);
    assert_eq!(r.policies.len(), 2);
    assert_eq!(r.policy_identifiers, vec![11, 22]);
    assert_eq!(r.mail_rua, vec!["tls@example.com"]);
    assert_eq!(r.http_rua, vec!["https://example.com/tls"]);
    assert_eq!(r.policies[0].total_successful_sessions, 1);
    assert_eq!(r.policies[0].total_failed_sessions, 1);
    assert_eq!(r.success_fail_count(), (2, 1));
}

#[test]
fn tls_report_index_texts() {
    let mut p = new_tls_policy("example.com", &PolicyType::NoPolicyFound);
    p.mx_hosts = vec!["mx1.example.com".to_string(), String::new()];
    p.failure_details = vec![failure(TlsResultType::Other, Some("mx1.example.com"))];
    p.failure_details[0].receiving_mx_helo = Some(String::new());
    let q = new_tls_policy("", &PolicyType::NoPolicyFound);
    let texts = tls_report_texts(&vec![p, q], "reports@example.org");
    assert_eq!(texts, vec!["example.com", "mx1.example.com", "mx1.example.com", "reports@example.org"]);
    let p = new_tls_policy("a.org", &PolicyType::NoPolicyFound);
    let q = new_tls_policy("", &PolicyType::NoPolicyFound);
    assert_eq!(tls_report_domains(&vec![p, q]), vec!["a.org"]);
}
