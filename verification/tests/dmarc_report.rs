use stalwart::dmarc_report::{arf_report_domains, arf_report_texts, dmarc_report_texts, ArfReportFields};
use stalwart::dmarc_report::{
    envelope_from_domain, exceeds_max_size, join_recipients, needs_reschedule, non_empty, non_empty_opt,
    plan_failure_report, retry_write, spf_dns_text, success_fail_count, wants_aggregate, AggregateFrequency,
    DkimCheck, DmarcActionDisposition, DmarcInternalReport, DmarcReportOption, DmarcReportRecord, DmarcResult,
    IdentityAlignment, SpfScope,
};

fn check(has_signature: bool, pass: bool) -> DkimCheck {
    DkimCheck { has_signature, pass }
}

#[test]
fn failure_report_plan() {
    let dkim = vec![check(true, true), check(false, false), check(true, false), check(true, false)];
    let plan = plan_failure_report(DmarcReportOption::Any, &dkim, Some(true), Some(false));
    assert_eq!(plan.dkim_failed, Some(2));
    assert!(plan.spf_failed == Some(SpfScope::MailFrom));
    assert!(plan.alignment == IdentityAlignment::DkimSpf);
    let plan = plan_failure_report(DmarcReportOption::Spf, &dkim, Some(false), Some(false));
    assert_eq!(plan.dkim_failed, None);
    assert!(plan.spf_failed == Some(SpfScope::Helo));
    assert!(plan.alignment == IdentityAlignment::Spf);
    let plan = plan_failure_report(DmarcReportOption::Dkim, &dkim, Some(false), None);
    assert!(plan.spf_failed.is_none());
    assert!(plan.alignment == IdentityAlignment::Dkim);
}

#[test]
fn report_texts() {
    assert_eq!(join_recipients(&vec![]), "");
    assert_eq!(join_recipients(&vec!["a@b".to_string(), "c@d".to_string()]), "a@b, c@d");
    assert_eq!(spf_dns_text("example.com"), "txt : example.com : v=SPF1");
    assert_eq!(envelope_from_domain(Some("mail.example.com"), "helo.example.com"), "mail.example.com");
    assert_eq!(envelope_from_domain(None, "helo.example.com"), "helo.example.com");
    assert_eq!(non_empty(""), None);
    assert_eq!(non_empty("x"), Some("x"));
    assert_eq!(non_empty_opt(&Some(String::new())), None);
    assert_eq!(non_empty_opt(&Some("y".to_string())), Some("y"));
}

fn record(ip: &str, disposition: DmarcActionDisposition) -> DmarcReportRecord {
    DmarcReportRecord {
        source_ip: ip.to_string(),
        count: 0,
        evaluated_disposition: disposition,
        evaluated_dkim: DmarcResult::Pass,
        evaluated_spf: DmarcResult::Fail,
        envelope_to: None,
        envelope_from: "example.org".to_string(),
        header_from: "example.org".to_string(),
        dkim_domains: vec!["example.org".to_string()],
        spf_domains: vec![],
    }
}

#[test]
fn records_are_counted_once_each() {
    let mut report = DmarcInternalReport { domain: "example.org".to_string(), policy_identifier: 1, records: vec![], rua: vec![] };
    report.add_record(record("192.0.2.1", DmarcActionDisposition::Pass));
    report.add_record(record("192.0.2.1", DmarcActionDisposition::Pass));
    report.add_record(record("192.0.2.2", DmarcActionDisposition::Reject));
    assert_eq!(report.records.len(), 2);
    assert_eq!(report.records[0].count, 2);
    assert_eq!(report.records[1].count, 1);
    assert_eq!(success_fail_count(&report.records), (1, 1));
}

#[test]
fn aggregate_settings() {
    assert_eq!(AggregateFrequency::Hourly.as_secs(), 3600);
    assert_eq!(AggregateFrequency::Weekly.as_secs(), 604800);
    assert_eq!(AggregateFrequency::Never.as_secs(), 0);
    assert!(wants_aggregate(AggregateFrequency::Daily, 1));
    assert!(!wants_aggregate(AggregateFrequency::Never, 1));
    assert!(!wants_aggregate(AggregateFrequency::Daily, 0));
    assert!(exceeds_max_size(11, 10));
    assert!(!exceeds_max_size(11, 0));
    assert!(retry_write(true, 2));
    assert!(!retry_write(true, 3));
    assert!(!retry_write(false, 0));
    assert!(needs_reschedule(1, 2));
    assert!(!needs_reschedule(2, 2));
}

#[test]
fn dmarc_report_index_texts() {
    let mut r = record("192.0.2.1", DmarcActionDisposition::Pass);
    r.envelope_to = Some("example.net".to_string());
    r.spf_domains = vec![String::new(), "spf.example.org".to_string()];
    let texts = dmarc_report_texts("noreply@reporter.com", "", &vec![r], "");
    assert_eq!(texts, vec!["noreply@reporter.com", "example.net", "example.org", "example.org", "example.org", "spf.example.org"]);
    let arf = ArfReportFields {
        reported_domains: vec!["a.com".to_string(), String::new()],
        dkim_domain: Some("d.com".to_string()),
        reporting_mta: None,
        original_mail_from: Some(String::new()),
        original_rcpt_to: Some("x@a.com".to_string()),
    };
    assert_eq!(arf_report_domains(&arf), vec!["a.com", "d.com"]);
    assert_eq!(arf_report_texts(&arf, "f@r.com"), vec!["a.com", "d.com", "x@a.com", "f@r.com"]);
}

#[test]
fn report_periods() {
    let now = 1_700_000_000;
    assert_eq!(AggregateFrequency::Hourly.period_start(now), 1_699_999_200);
    assert_eq!(AggregateFrequency::Daily.period_start(now), 1_699_920_000);
    assert_eq!(AggregateFrequency::Weekly.period_start(now), 1_699_747_200);
    assert_eq!(AggregateFrequency::Never.period_start(now), 1_700_000_000);
    let start = AggregateFrequency::Daily.to_timestamp();
    assert_eq!(start % 86400, 0);
    assert_eq!(AggregateFrequency::Daily.due(), start + 86400);
}
