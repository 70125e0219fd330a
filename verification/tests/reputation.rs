use stalwart::expression::EmailParts;
use stalwart::reputation::{
    has_enough_occurrences, level_tag, reputation_tags, sender_domain, ReputationCount, ReputationFindings,
    ReputationLevel,
};

fn parts(address: &str, fqdn: &str, sld: Option<&str>) -> EmailParts {
    EmailParts {
        address: address.to_string(),
        local_part: address.split('@').next().unwrap_or("").to_string(),
        fqdn: fqdn.to_string(),
        sld: sld.map(|s| s.to_string()),
    }
}

#[test]
fn level_tags() {
    assert_eq!(level_tag("REP_IP", ReputationLevel::VeryBad), "REP_IP_VERY_BAD");
    assert_eq!(level_tag("REP_IP", ReputationLevel::Bad), "REP_IP_BAD");
    assert_eq!(level_tag("REP_ASN", ReputationLevel::Good), "REP_ASN_GOOD");
    assert_eq!(level_tag("REP_DOMAIN", ReputationLevel::VeryGood), "REP_DOMAIN_VERY_GOOD");
}

#[test]
fn occurrences_threshold() {
    assert!(!has_enough_occurrences(&ReputationCount { ham: 4, spam: 5 }));
    assert!(has_enough_occurrences(&ReputationCount { ham: 4, spam: 6 }));
    assert!(has_enough_occurrences(&ReputationCount { ham: u64::MAX, spam: u64::MAX }));
}

#[test]
fn sender_domain_prefers_envelope() {
    let env = parts("bounce@mail.example.org", "mail.example.org", Some("example.org"));
    let from = parts("jane@example.net", "example.net", None);
    assert_eq!(sender_domain(&env, &from), "example.org");
    let empty = parts("", "", None);
    assert_eq!(sender_domain(&empty, &from), "example.net");
}

#[test]
fn tags_when_reputation_applies() {
    let total = ReputationCount { ham: 40, spam: 50 };
    let found = ReputationFindings {
        domain: Some(ReputationLevel::Bad),
        asn: Some(ReputationLevel::VeryGood),
        ip: None,
    };
    let tags = reputation_tags(&total, true, Some(64500), &Some("DE".to_string()), &found);
    assert_eq!(tags, vec!["REP_DOMAIN_BAD", "SOURCE_ASN_64500", "REP_ASN_VERY_GOOD", "SOURCE_COUNTRY_DE"]);
    let tags = reputation_tags(&total, false, None, &None, &found);
    assert!(tags.is_empty());
}

#[test]
fn tags_when_reputation_does_not_apply() {
    let found = ReputationFindings {
        domain: Some(ReputationLevel::Bad),
        asn: Some(ReputationLevel::Bad),
        ip: Some(ReputationLevel::VeryBad),
    };
    let many = ReputationCount { ham: 60, spam: 50 };
    let tags = reputation_tags(&many, true, Some(7), &None, &found);
    assert_eq!(tags, vec!["SOURCE_ASN_7"]);
    let no_ham = ReputationCount { ham: 0, spam: 5 };
    let tags = reputation_tags(&no_ham, true, None, &Some("FR".to_string()), &found);
    assert_eq!(tags, vec!["SOURCE_COUNTRY_FR"]);
}
