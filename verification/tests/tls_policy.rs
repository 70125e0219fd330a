use stalwart::client_error::ClientError;
use stalwart::dane::{denial_dnssec_status, AuthorityRecord, DnssecProof, DnssecStatus, Tlsa};
use stalwart::outbound::{SmtpError, SmtpErrorKind};
use stalwart::queue::{Error, Response, Severity, Status, MAIL_REQUIRETLS};
use stalwart::tls_policy::{
    dane_policy_step, is_strict_tls, skips_pki_check, starttls_decision, DaneStep, StartTlsOutcome, TlsNext,
    TlsaLookupOutcome,
};
use stalwart::tls_report::TlsResultType;

fn tlsa(has_end_entities: bool) -> Tlsa {
    Tlsa { entries: vec![], has_end_entities, has_intermediates: !has_end_entities }
}

fn resp(code: u16, esc: [u8; 3], message: &str) -> Response {
    Response { code, esc, message: message.to_string() }
}

#[test]
fn when_tls_is_required() {
    assert!(!is_strict_tls(false, 0, false, false));
    assert!(is_strict_tls(true, 0, false, false));
    assert!(is_strict_tls(false, MAIL_REQUIRETLS, false, false));
    assert!(is_strict_tls(false, 0, true, false));
    assert!(is_strict_tls(false, 0, false, true));
    assert!(!skips_pki_check(false, false, None));
    assert!(skips_pki_check(false, false, Some(&tlsa(true))));
    assert!(!skips_pki_check(false, false, Some(&tlsa(false))));
    assert!(skips_pki_check(false, true, None));
}

#[test]
fn dane_lookup_outcomes() {
    let (step, report) = dane_policy_step("mx", TlsaLookupOutcome::Found(tlsa(true)), true);
    assert!(matches!(step, DaneStep::Use(_)) && report.is_none());
    let (step, report) = dane_policy_step("mx", TlsaLookupOutcome::Found(tlsa(false)), false);
    assert!(matches!(step, DaneStep::Skip));
    let report = report.unwrap();
    assert!(report.result_type == TlsResultType::TlsaInvalid);
    assert_eq!(report.reason, "Invalid TLSA record.");
    let (step, _) = dane_policy_step("mx", TlsaLookupOutcome::Found(tlsa(false)), true);
    match step {
        DaneStep::NextHost(Status::PermanentFailure(e)) => {
            assert_eq!(e.entity, "mx");
            assert!(matches!(e.details, Error::DaneError(ref m) if m == "No valid TLSA records were found"));
        }
        _ => panic!("expected refusal"),
    }
    let (step, report) = dane_policy_step("mx", TlsaLookupOutcome::NotFound, true);
    assert!(matches!(step, DaneStep::NextHost(Status::PermanentFailure(_))));
    assert_eq!(report.unwrap().reason, "No TLSA records found for MX.");
    let (step, report) = dane_policy_step("mx", TlsaLookupOutcome::NotSigned, false);
    assert!(matches!(step, DaneStep::Skip) && report.is_none());
    let (step, report) = dane_policy_step("mx", TlsaLookupOutcome::NotSigned, true);
    assert!(matches!(step, DaneStep::NextHost(_)));
    assert_eq!(report.unwrap().reason, "No TLSA DNSSEC records found.");
    let failed = Status::TemporaryFailure(stalwart::queue::ErrorDetails { entity: "mx".to_string(), details: Error::DnsError("timeout".to_string()) });
    let (step, _) = dane_policy_step("mx", TlsaLookupOutcome::Failed(failed), true);
    assert!(matches!(step, DaneStep::NextHost(Status::TemporaryFailure(_))));
}

#[test]
fn starttls_outcomes() {
    let d = starttls_decision("mx", StartTlsOutcome::Success { dane_failure: None }, true);
    assert!(matches!(d.next, TlsNext::DeliverTls) && d.report_success && d.report_failure.is_none());
    let d = starttls_decision("mx", StartTlsOutcome::Unavailable(None), false);
    assert!(matches!(d.next, TlsNext::DeliverPlain));
    assert_eq!(d.report_failure.unwrap().reason, "STARTTLS was not advertised by host");
    let d = starttls_decision("mx", StartTlsOutcome::Unavailable(Some(resp(454, [4, 7, 0], "busy"))), true);
    assert!(matches!(d.next, TlsNext::NextHost(Status::TemporaryFailure(_))));
    let f = d.report_failure.unwrap();
    assert!(f.result_type == TlsResultType::StartTlsNotSupported);
    assert_eq!(f.reason, "Code: 454, Enhanced code: 4.7.0, Message: busy");
    let err = SmtpError { kind: SmtpErrorKind::Tls("bad certificate".to_string()), text: String::new() };
    let d = starttls_decision("mx", StartTlsOutcome::Error(err), true);
    match d.next {
        TlsNext::NextHost(Status::TemporaryFailure(e)) => {
            assert!(matches!(e.details, Error::TlsError(ref m) if m == "Handshake failed: bad certificate"))
        }
        _ => panic!("expected a temporary failure"),
    }
    assert!(d.report_failure.unwrap().result_type == TlsResultType::CertificateNotTrusted);
    let err = SmtpError { kind: SmtpErrorKind::InvalidTlsName, text: String::new() };
    assert!(matches!(starttls_decision("mx", StartTlsOutcome::Error(err), true).next, TlsNext::NextHost(Status::PermanentFailure(_))));
    let err = SmtpError { kind: SmtpErrorKind::InvalidTlsName, text: String::new() };
    let d = starttls_decision("mx", StartTlsOutcome::Error(err), false);
    assert!(matches!(d.next, TlsNext::NextHost(Status::TemporaryFailure(_))));
    assert!(d.report_failure.is_none());
}

#[test]
fn client_errors_and_reply_checks() {
    assert_eq!(ClientError::Timeout.text(), "Connection timeout");
    assert_eq!(ClientError::Io("broken pipe".to_string()).text(), "I/O error: broken pipe");
    assert_eq!(
        ClientError::UnexpectedReply(resp(550, [5, 1, 1], "no")).text(),
        "Unexpected reply: Code: 550, Enhanced code: 5.1.1, Message: no"
    );
    assert!(resp(250, [2, 0, 0], "ok").assert_positive_completion().is_ok());
    assert!(matches!(resp(451, [0, 0, 0], "later").assert_positive_completion(), Err(ClientError::UnexpectedReply(r)) if r.code == 451));
    assert!(resp(354, [0, 0, 0], "go").assert_severity(Severity::PositiveIntermediate).is_ok());
    assert!(resp(354, [0, 0, 0], "go").assert_severity(Severity::PositiveCompletion).is_err());
    assert!(resp(334, [0, 0, 0], "").assert_code(334).is_ok());
    assert!(resp(335, [0, 0, 0], "").assert_code(334).is_err());
}

#[test]
fn denial_security() {
    let rs = vec![
        AuthorityRecord { is_nsec: false, proof: DnssecProof::Bogus },
        AuthorityRecord { is_nsec: true, proof: DnssecProof::Secure },
        AuthorityRecord { is_nsec: true, proof: DnssecProof::Insecure },
    ];
    assert_eq!(denial_dnssec_status(&rs), DnssecStatus::Insecure);
    assert_eq!(denial_dnssec_status(&vec![AuthorityRecord { is_nsec: false, proof: DnssecProof::Secure }]), DnssecStatus::Indeterminate);
}
