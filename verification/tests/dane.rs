use stalwart::dane::{
    dane_outcome, group_mx, is_chain_top, least_secure, proof_to_dnssec_status, record_matches,
    tlsa_from_records, verify_end_entity, CertNames, DnssecProof, DnssecStatus, MxRecord, Tlsa,
    TlsaMatchingType, TlsaRecord, TlsaResult, TlsaSelector, TlsaUsage,
};
use stalwart::queue::{Error, Status};
use stalwart::tls_report::{TlsaEntry, TlsaMatching};

const ALL: [DnssecStatus; 4] =
    [DnssecStatus::Secure, DnssecStatus::Insecure, DnssecStatus::Bogus, DnssecStatus::Indeterminate];

fn hex(s: &str) -> Vec<u8> {
    (0..s.len()).step_by(2).map(|i| u8::from_str_radix(&s[i..i + 2], 16).unwrap()).collect()
}

#[test]
fn least_secure_is_the_weakest_link() {
    assert_eq!(least_secure(DnssecStatus::Secure, DnssecStatus::Insecure), DnssecStatus::Insecure);
    assert_eq!(least_secure(DnssecStatus::Indeterminate, DnssecStatus::Bogus), DnssecStatus::Bogus);
    for a in ALL {
        assert_eq!(least_secure(a, a), a);
        for b in ALL {
            assert_eq!(least_secure(a, b), least_secure(b, a));
            for c in ALL {
                assert_eq!(least_secure(least_secure(a, b), c), least_secure(a, least_secure(b, c)));
            }
        }
    }
    assert_eq!(proof_to_dnssec_status(DnssecProof::Bogus), DnssecStatus::Bogus);
}

fn record(proof: DnssecProof, usage: TlsaUsage, selector: TlsaSelector, matching: TlsaMatchingType) -> TlsaRecord {
    TlsaRecord { proof, usage, selector, matching, data: vec![1, 2, 3] }
}

#[test]
fn tlsa_lookup_outcomes() {
    let secure = vec![
        record(DnssecProof::Secure, TlsaUsage::DaneEe, TlsaSelector::Spki, TlsaMatchingType::Sha256),
        record(DnssecProof::Secure, TlsaUsage::Other, TlsaSelector::Spki, TlsaMatchingType::Sha256),
        record(DnssecProof::Secure, TlsaUsage::DaneTa, TlsaSelector::Full, TlsaMatchingType::Raw),
    ];
    match tlsa_from_records(&secure) {
        TlsaResult::Secure(t) => {
            assert_eq!(t.entries.len(), 2);
            assert!(t.has_end_entities);
            assert!(t.has_intermediates);
            assert!(t.entries[0].is_end_entity && t.entries[0].is_spki);
            assert_eq!(t.entries[0].matching, TlsaMatching::Sha256);
            assert_eq!(t.entries[1].matching, TlsaMatching::Full);
        }
        _ => panic!("expected secure"),
    }
    let bogus = vec![
        record(DnssecProof::Secure, TlsaUsage::DaneEe, TlsaSelector::Spki, TlsaMatchingType::Sha256),
        record(DnssecProof::Bogus, TlsaUsage::DaneEe, TlsaSelector::Spki, TlsaMatchingType::Sha256),
    ];
    assert!(matches!(tlsa_from_records(&bogus), TlsaResult::Bogus));
    let insecure = vec![record(DnssecProof::Insecure, TlsaUsage::DaneEe, TlsaSelector::Spki, TlsaMatchingType::Raw)];
    assert!(matches!(tlsa_from_records(&insecure), TlsaResult::Missing));
    assert!(matches!(tlsa_from_records(&vec![]), TlsaResult::Missing));
}

fn entry(is_end_entity: bool, is_spki: bool, matching: TlsaMatching, data: Vec<u8>) -> TlsaEntry {
    TlsaEntry { is_end_entity, is_spki, matching, data }
}

#[test]
fn records_match_by_data_or_digest() {
    let abc_sha256 = hex("ba7816bf8f01cfea414140de5dae2223b00361a396177a9cb410ff61f20015ad");
    let abc_sha512 = hex("ddaf35a193617abacc417349ae20413112e6fa4e89a97ea20a9eeee64b55d39a2192992a274fc1a836ba3c23a3feebbd454d4423643ce80e2a9ac94fa54ca49f");
    assert!(record_matches(&entry(true, true, TlsaMatching::Sha256, abc_sha256.clone()), b"abc", b"cert"));
    assert!(!record_matches(&entry(true, false, TlsaMatching::Sha256, abc_sha256), b"abc", b"cert"));
    assert!(record_matches(&entry(true, false, TlsaMatching::Sha512, abc_sha512), b"key", b"abc"));
    assert!(record_matches(&entry(true, false, TlsaMatching::Full, b"cert".to_vec()), b"key", b"cert"));
    assert!(!record_matches(&entry(true, true, TlsaMatching::Full, b"cert".to_vec()), b"key", b"cert"));
}

#[test]
fn end_entity_needs_an_end_entity_record() {
    let tlsa = Tlsa {
        entries: vec![
            entry(false, false, TlsaMatching::Full, b"cert".to_vec()),
            entry(true, true, TlsaMatching::Full, b"key".to_vec()),
        ],
        has_end_entities: true,
        has_intermediates: true,
    };
    assert!(verify_end_entity(&tlsa, b"key", b"other"));
    assert!(!verify_end_entity(&tlsa, b"other", b"cert"));
    let no_ee = Tlsa { has_end_entities: false, ..tlsa };
    assert!(!verify_end_entity(&no_ee, b"key", b"other"));
}

#[test]
fn chain_top_has_no_issuer_in_chain() {
    let certs = vec![
        CertNames { subject: b"leaf".to_vec(), issuer: b"inter".to_vec() },
        CertNames { subject: b"inter".to_vec(), issuer: b"root".to_vec() },
    ];
    assert!(!is_chain_top(&certs, 0));
    assert!(is_chain_top(&certs, 1));
}

#[test]
fn dane_failures() {
    match dane_outcome("mx.example.com", 0, true, false, false) {
        Err(Status::TemporaryFailure(e)) => {
            assert_eq!(e.entity, "mx.example.com");
            assert!(matches!(e.details, Error::DaneError(ref m) if m == "No certificates were provided by host"));
        }
        _ => panic!("expected temporary failure"),
    }
    match dane_outcome("mx", 2, false, true, true) {
        Err(Status::TemporaryFailure(e)) => {
            assert!(matches!(e.details, Error::DaneError(ref m) if m == "Failed to parse X.509 certificate"));
        }
        _ => panic!("expected temporary failure"),
    }
    assert!(dane_outcome("mx", 2, true, false, true).is_ok());
    match dane_outcome("mx", 1, true, false, false) {
        Err(Status::PermanentFailure(e)) => {
            assert!(matches!(e.details, Error::DaneError(ref m) if m == "No matching certificates found in TLSA records"));
        }
        _ => panic!("expected permanent failure"),
    }
}

fn mx(preference: u16, exchange: &str, proof: DnssecProof) -> MxRecord {
    MxRecord { preference, exchange: exchange.to_string(), proof }
}

#[test]
fn mx_records_grouped_by_preference() {
    let set = group_mx(&vec![
        mx(20, "b.example.com", DnssecProof::Secure),
        mx(10, "A.Example.COM", DnssecProof::Secure),
        mx(20, "c.example.com", DnssecProof::Insecure),
    ]);
    assert_eq!(set.status, DnssecStatus::Insecure);
    assert_eq!(set.mx.len(), 2);
    assert_eq!(set.mx[0].preference, 10);
    assert_eq!(set.mx[0].exchanges, vec!["a.example.com".to_string()]);
    assert_eq!(set.mx[1].preference, 20);
    assert_eq!(set.mx[1].exchanges, vec!["b.example.com".to_string(), "c.example.com".to_string()]);
    let empty = group_mx(&vec![]);
    assert!(empty.mx.is_empty());
    assert_eq!(empty.status, DnssecStatus::Indeterminate);
}
