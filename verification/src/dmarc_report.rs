//! DMARC reporting (RFC 7489): what a failure report says about the failed
//! authentication, how aggregate report records are counted, and which
//! report-side texts index a stored report.

use vstd::prelude::*;
use crate::text::{push_str, str_eq};
use crate::external::{civil_from_timestamp, civil_of, civil_to_timestamp, civil_weekday, timestamp_of, unix_now, weekday_of, CivilTime};
use crate::tls_report::{all_texts, if_text, opt_text, push_if_text, push_opt_text, texts};

verus! {

/// The failure reporting option (`fo=`) of a DMARC record.
#[derive(Clone, Copy, PartialEq, Eq, Structural)]
pub enum DmarcReportOption {
    All,
    Any,
    Dkim,
    Spf,
    DkimSpf,
}

/// What failed, as a failure report names it.
#[derive(Clone, Copy, PartialEq, Eq, Structural)]
pub enum IdentityAlignment {
    DkimSpf,
    Dkim,
    Spf,
}

/// Where an SPF check took its domain from.
#[derive(Clone, Copy, PartialEq, Eq, Structural)]
pub enum SpfScope {
    Helo,
    MailFrom,
}

/// The outcome of a DKIM check: whether a signature was found, and
/// whether it passed.
#[derive(Clone, Copy)]
pub struct DkimCheck {
    pub has_signature: bool,
    pub pass: bool,
}

/// What a failure report says about the failed authentication: the DKIM
/// check whose signature it names, the SPF check it names, and the failure.
pub struct FailureReportPlan {
    pub dkim_failed: Option<usize>,
    pub spf_failed: Option<SpfScope>,
    pub alignment: IdentityAlignment,
}

/// Whether a failure reporting option asks for DKIM failures.
pub open spec fn reports_dkim(o: DmarcReportOption) -> bool {
    o is Dkim || o is DkimSpf || o is All || o is Any
}

/// Whether a failure reporting option asks for SPF failures.
pub open spec fn reports_spf(o: DmarcReportOption) -> bool {
    o is Spf || o is DkimSpf || o is All || o is Any
}

/// The first DKIM check that found a signature that did not pass, or -1.
pub open spec fn first_failed_dkim(checks: Seq<DkimCheck>) -> int
    decreases checks.len(),
{
    if checks.len() == 0 {
        -1
    } else if first_failed_dkim(checks.drop_last()) >= 0 {
        first_failed_dkim(checks.drop_last())
    } else if checks.last().has_signature && !checks.last().pass {
        checks.len() - 1
    } else {
        -1
    }
}

/// The SPF check that a failure report names: the HELO check when it ran
/// and did not pass, else the MAIL FROM check when it ran and did not pass.
pub open spec fn failed_spf(helo: Option<bool>, mail_from: Option<bool>) -> Option<SpfScope> {
    if helo is Some && !helo->Some_0 {
        Some(SpfScope::Helo)
    } else if mail_from is Some && !mail_from->Some_0 {
        Some(SpfScope::MailFrom)
    } else {
        None
    }
}

proof fn lemma_first_failed_prefix(checks: Seq<DkimCheck>, n: int)
    requires
        0 < n <= checks.len(),
        first_failed_dkim(checks.take(n)) >= 0,
    ensures
        first_failed_dkim(checks) == first_failed_dkim(checks.take(n)),
    decreases checks.len() - n,
{
    if n < checks.len() {
        assert(checks.take(n + 1).drop_last() =~= checks.take(n));
        lemma_first_failed_prefix(checks, n + 1);
    } else {
        assert(checks.take(n) =~= checks);
    }
}

/// Plans a failure report for a record's reporting option `option`, the
/// message's DKIM checks in order, and the pass results of the SPF checks
/// of the HELO and MAIL FROM identities (where they ran).
pub fn plan_failure_report(
    option: DmarcReportOption,
    dkim: &Vec<DkimCheck>,
    spf_helo: Option<bool>,
    spf_mail_from: Option<bool>,
) -> (r: FailureReportPlan)
    ensures
        r.dkim_failed is Some <==> reports_dkim(option) && first_failed_dkim(dkim@) >= 0,
        r.dkim_failed is Some ==> r.dkim_failed->Some_0 == first_failed_dkim(dkim@),
        r.spf_failed == (if reports_spf(option) {
            failed_spf(spf_helo, spf_mail_from)
        } else {
            None
        }),
        r.alignment == (if r.dkim_failed is Some && r.spf_failed is Some {
            IdentityAlignment::DkimSpf
        } else if r.dkim_failed is Some {
            IdentityAlignment::Dkim
        } else {
            IdentityAlignment::Spf
        }),
{
    let mut found: Option<usize> = None;
    let mut i: usize = 0;
    assert(dkim@.take(dkim@.len() as int) =~= dkim@);
    while i < dkim.len()
        invariant_except_break
            found is None,
        invariant
            i <= dkim@.len(),
            dkim@.take(dkim@.len() as int) == dkim@,
            first_failed_dkim(dkim@.take(i as int)) == -1,
        ensures
            found is Some <==> first_failed_dkim(dkim@) >= 0,
            found is Some ==> found->Some_0 == first_failed_dkim(dkim@),
        decreases dkim.len() - i,
    {
        assert(dkim@.take(i + 1).drop_last() =~= dkim@.take(i as int));
        if dkim[i].has_signature && !dkim[i].pass {
            proof {
                lemma_first_failed_prefix(dkim@, i + 1);
            }
            found = Some(i);
            break;
        }
        i = i + 1;
    }
    proof {
        if found is None {
            assert(dkim@.take(dkim@.len() as int) =~= dkim@);
        }
    }
    let wants_dkim = match option {
        DmarcReportOption::Dkim | DmarcReportOption::DkimSpf | DmarcReportOption::All
        | DmarcReportOption::Any => true,
        DmarcReportOption::Spf => false,
    };
    let wants_spf = match option {
        DmarcReportOption::Spf | DmarcReportOption::DkimSpf | DmarcReportOption::All
        | DmarcReportOption::Any => true,
        DmarcReportOption::Dkim => false,
    };
    let dkim_failed = if wants_dkim {
        found
    } else {
        None
    };
    let spf_failed = if !wants_spf {
        None
    } else if spf_helo == Some(false) {
        Some(SpfScope::Helo)
    } else if spf_mail_from == Some(false) {
        Some(SpfScope::MailFrom)
    } else {
        None
    };
    let alignment = match (&dkim_failed, &spf_failed) {
        (Some(_), Some(_)) => IdentityAlignment::DkimSpf,
        (Some(_), None) => IdentityAlignment::Dkim,
        _ => IdentityAlignment::Spf,
    };
    FailureReportPlan { dkim_failed, spf_failed, alignment }
}

/// Report addresses joined by `, `.
pub open spec fn joined(items: Seq<Seq<char>>) -> Seq<char>
    decreases items.len(),
{
    if items.len() == 0 {
        Seq::empty()
    } else if items.len() == 1 {
        items[0]
    } else {
        joined(items.drop_last()) + ", "@ + items.last()
    }
}

/// The recipients of a failure report, joined by `, ` for its `To` field.
pub fn join_recipients(rcpts: &Vec<String>) -> (r: String)
    ensures
        r@ == joined(rcpts@.map_values(|s: String| s@)),
{
    let ghost views = rcpts@.map_values(|s: String| s@);
    let mut out = String::new();
    let mut i: usize = 0;
    while i < rcpts.len()
        invariant
            i <= rcpts@.len(),
            views == rcpts@.map_values(|s: String| s@),
            out@ == joined(views.take(i as int)),
        decreases rcpts.len() - i,
    {
        assert(views.take(i + 1).drop_last() =~= views.take(i as int));
        assert(views.take(i + 1).last() == rcpts@[i as int]@);
        if i > 0 {
            push_str(&mut out, ", ");
        } else {
            assert(views.take(1)[0] == rcpts@[0]@);
        }
        push_str(&mut out, rcpts[i].as_str());
        proof {
            if i == 0 {
                assert(out@ =~= views.take(1)[0]);
            } else {
                assert(out@ =~= joined(views.take(i as int)) + ", "@ + views.take(i + 1).last());
            }
        }
        i = i + 1;
    }
    assert(views.take(rcpts@.len() as int) =~= views);
    out
}

/// The `Reported-Domain`-side SPF text of a failure report.
pub fn spf_dns_text(domain: &str) -> (r: String)
    ensures
        r@ == "txt : "@ + domain@ + " : v=SPF1"@,
{
    let mut s = String::from_str("txt : ");
    push_str(&mut s, domain);
    push_str(&mut s, " : v=SPF1");
    s
}

/// The domain that an aggregate report record gives as the envelope
/// sender: that of `MAIL FROM` when the session had one, else the HELO
/// domain.
pub fn envelope_from_domain<'a>(mail_from_domain: Option<&'a str>, helo_domain: &'a str) -> (r: &'a str)
    ensures
        r@ == (match mail_from_domain {
            Some(d) => d@,
            None => helo_domain@,
        }),
{
    match mail_from_domain {
        Some(d) => d,
        None => helo_domain,
    }
}

// ---------------------------------------------------------------------------
// Aggregate report records
// ---------------------------------------------------------------------------

/// The disposition that a DMARC evaluation applied.
#[derive(Clone, Copy, PartialEq, Eq, Structural)]
pub enum DmarcActionDisposition {
    Pass,
    NoAction,
    Quarantine,
    Reject,
}

/// The outcome of a DKIM or SPF check within a DMARC evaluation.
#[derive(Clone, Copy, PartialEq, Eq, Structural)]
pub enum DmarcResult {
    Pass,
    Fail,
    Unspecified,
}

/// The messages of one source with one outcome, in an aggregate report.
pub struct DmarcReportRecord {
    pub source_ip: String,
    pub count: u64,
    pub evaluated_disposition: DmarcActionDisposition,
    pub evaluated_dkim: DmarcResult,
    pub evaluated_spf: DmarcResult,
    pub envelope_to: Option<String>,
    pub envelope_from: String,
    pub header_from: String,
    pub dkim_domains: Vec<String>,
    pub spf_domains: Vec<String>,
}

/// An aggregate report being gathered for a domain and policy.
pub struct DmarcInternalReport {
    pub domain: String,
    pub policy_identifier: u64,
    pub records: Vec<DmarcReportRecord>,
    pub rua: Vec<String>,
}

/// The views of a list of strings.
pub open spec fn views(v: Seq<String>) -> Seq<Seq<char>> {
    v.map_values(|s: String| s@)
}

/// Whether two records describe the same messages: equal in every field
/// but the count.
pub open spec fn same_record(a: DmarcReportRecord, b: DmarcReportRecord) -> bool {
    &&& a.source_ip@ == b.source_ip@
    &&& a.evaluated_disposition == b.evaluated_disposition
    &&& a.evaluated_dkim == b.evaluated_dkim
    &&& a.evaluated_spf == b.evaluated_spf
    &&& (match (a.envelope_to, b.envelope_to) {
        (Some(x), Some(y)) => x@ == y@,
        (None, None) => true,
        _ => false,
    })
    &&& a.envelope_from@ == b.envelope_from@
    &&& a.header_from@ == b.header_from@
    &&& views(a.dkim_domains@) == views(b.dkim_domains@)
    &&& views(a.spf_domains@) == views(b.spf_domains@)
}

fn texts_eq(a: &Vec<String>, b: &Vec<String>) -> (r: bool)
    ensures
        r == (views(a@) == views(b@)),
{
    if a.len() != b.len() {
        assert(views(a@).len() != views(b@).len());
        return false;
    }
    let mut i: usize = 0;
    while i < a.len()
        invariant
            a@.len() == b@.len(),
            i <= a@.len(),
            forall|j: int| 0 <= j < i ==> (#[trigger] a@[j])@ == b@[j]@,
        decreases a.len() - i,
    {
        if !str_eq(a[i].as_str(), b[i].as_str()) {
            assert(views(a@)[i as int] != views(b@)[i as int]);
            return false;
        }
        i = i + 1;
    }
    assert(views(a@) =~= views(b@));
    true
}

fn record_eq(a: &DmarcReportRecord, b: &DmarcReportRecord) -> (r: bool)
    ensures
        r == same_record(*a, *b),
{
    let to_eq = match (&a.envelope_to, &b.envelope_to) {
        (Some(x), Some(y)) => str_eq(x.as_str(), y.as_str()),
        (None, None) => true,
        _ => false,
    };
    str_eq(a.source_ip.as_str(), b.source_ip.as_str()) && a.evaluated_disposition == b.evaluated_disposition
        && a.evaluated_dkim == b.evaluated_dkim && a.evaluated_spf == b.evaluated_spf && to_eq && str_eq(
        a.envelope_from.as_str(),
        b.envelope_from.as_str(),
    ) && str_eq(a.header_from.as_str(), b.header_from.as_str()) && texts_eq(&a.dkim_domains, &b.dkim_domains)
        && texts_eq(&a.spf_domains, &b.spf_domains)
}

/// The position of the first record that describes the same messages, or -1.
pub open spec fn record_index(rs: Seq<DmarcReportRecord>, r: DmarcReportRecord) -> int
    decreases rs.len(),
{
    if rs.len() == 0 {
        -1
    } else if record_index(rs.drop_last(), r) >= 0 {
        record_index(rs.drop_last(), r)
    } else if same_record(rs.last(), r) {
        rs.len() - 1
    } else {
        -1
    }
}

proof fn lemma_record_index_prefix(rs: Seq<DmarcReportRecord>, r: DmarcReportRecord, n: int)
    requires
        0 < n <= rs.len(),
        record_index(rs.take(n), r) >= 0,
    ensures
        record_index(rs, r) == record_index(rs.take(n), r),
    decreases rs.len() - n,
{
    if n < rs.len() {
        assert(rs.take(n + 1).drop_last() =~= rs.take(n));
        lemma_record_index_prefix(rs, r, n + 1);
    } else {
        assert(rs.take(n) =~= rs);
    }
}

fn find_record(rs: &Vec<DmarcReportRecord>, r: &DmarcReportRecord) -> (i: Option<usize>)
    ensures
        record_index(rs@, *r) >= 0 <==> i is Some,
        i is Some ==> i->Some_0 == record_index(rs@, *r),
        -1 <= record_index(rs@, *r) < rs@.len(),
{
    let mut i: usize = 0;
    while i < rs.len()
        invariant
            i <= rs@.len(),
            record_index(rs@.take(i as int), *r) == -1,
        decreases rs.len() - i,
    {
        assert(rs@.take(i + 1).drop_last() =~= rs@.take(i as int));
        if record_eq(&rs[i], r) {
            proof {
                lemma_record_index_prefix(rs@, *r, i + 1);
            }
            return Some(i);
        }
        i = i + 1;
    }
    assert(rs@.take(rs@.len() as int) =~= rs@);
    None
}

impl DmarcInternalReport {
    /// Adds one message to the report: the first record that describes the
    /// same messages counts it, else the record joins with a count of one.
    pub fn add_record(&mut self, record: DmarcReportRecord)
        requires
            forall|j: int| 0 <= j < old(self).records@.len() ==> (#[trigger] old(self).records@[j]).count < u64::MAX,
        ensures
            final(self).domain == old(self).domain,
            final(self).policy_identifier == old(self).policy_identifier,
            final(self).rua == old(self).rua,
            ({
                let i = record_index(old(self).records@, record);
                if i >= 0 {
                    final(self).records@ == old(self).records@.update(
                        i,
                        DmarcReportRecord { count: (old(self).records@[i].count + 1) as u64, ..old(self).records@[i] },
                    )
                } else {
                    final(self).records@ == old(self).records@.push(DmarcReportRecord { count: 1, ..record })
                }
            }),
    {
        match find_record(&self.records, &record) {
            Some(idx) => {
                let c = self.records[idx].count;
                self.records[idx].count = c + 1;
            },
            None => {
                let mut record = record;
                record.count = 1;
                self.records.push(record);
            },
        }
    }
}

/// The number of records that passed (`success`) or did not pass, each
/// counted once when it counts any message.
pub open spec fn records_with(rs: Seq<DmarcReportRecord>, success: bool) -> nat
    decreases rs.len(),
{
    if rs.len() == 0 {
        0
    } else {
        records_with(rs.drop_last(), success) + (if (rs.last().evaluated_disposition
            == DmarcActionDisposition::Pass) == success && rs.last().count > 0 {
            1nat
        } else {
            0nat
        })
    }
}

/// The number of records of an aggregate report that passed and the number
/// that did not, each counted once when it counts any message.
pub fn success_fail_count(records: &Vec<DmarcReportRecord>) -> (r: (u64, u64))
    ensures
        r.0 == records_with(records@, true),
        r.1 == records_with(records@, false),
{
    let mut success: u64 = 0;
    let mut fail: u64 = 0;
    let mut i: usize = 0;
    while i < records.len()
        invariant
            i <= records@.len(),
            success == records_with(records@.take(i as int), true),
            fail == records_with(records@.take(i as int), false),
            success + fail <= i,
        decreases records.len() - i,
    {
        assert(records@.take(i + 1).drop_last() =~= records@.take(i as int));
        let rec = &records[i];
        let counts = rec.count > 0;
        if rec.evaluated_disposition == DmarcActionDisposition::Pass {
            if counts {
                success = success + 1;
            }
        } else if counts {
            fail = fail + 1;
        }
        i = i + 1;
    }
    assert(records@.take(records@.len() as int) =~= records@);
    (success, fail)
}

// ---------------------------------------------------------------------------
// Scheduling
// ---------------------------------------------------------------------------

/// How often aggregate reports are sent.
#[derive(Clone, Copy, PartialEq, Eq, Structural)]
pub enum AggregateFrequency {
    Hourly,
    Daily,
    Weekly,
    Never,
}

impl AggregateFrequency {
    /// The length of a report period in seconds.
    pub fn as_secs(&self) -> (r: u64)
        ensures
            r == (match *self {
                AggregateFrequency::Hourly => 3600u64,
                AggregateFrequency::Daily => 86400u64,
                AggregateFrequency::Weekly => 604800u64,
                AggregateFrequency::Never => 0u64,
            }),
    {
        match self {
            AggregateFrequency::Hourly => 3600,
            AggregateFrequency::Daily => 86400,
            AggregateFrequency::Weekly => 7 * 86400,
            AggregateFrequency::Never => 0,
        }
    }
}

/// Whether a message is added to aggregate reports: reports are sent at
/// some frequency and the domain's record names where to.
pub fn wants_aggregate(interval: AggregateFrequency, rua_count: usize) -> (r: bool)
    ensures
        r == (interval != AggregateFrequency::Never && rua_count > 0),
{
    !(interval == AggregateFrequency::Never || rua_count == 0)
}

/// Whether a serialized report of `len` bytes is over the size limit
/// (`0` for none).
pub fn exceeds_max_size(len: usize, max_size: usize) -> (r: bool)
    ensures
        r == (max_size != 0 && len > max_size),
{
    max_size != 0 && len > max_size
}

/// Whether a report write that failed is tried again: only after a
/// conflicting concurrent write, at most three times.
pub fn retry_write(assertion_failure: bool, retries: u32) -> (r: bool)
    ensures
        r == (assertion_failure && retries < 3),
{
    assertion_failure && retries < 3
}

/// Whether a stored report's delivery must move to `at`.
pub fn needs_reschedule(current: i64, at: i64) -> (r: bool)
    ensures
        r == (current != at),
{
    current != at
}

/// A text, when it is not empty.
pub fn non_empty(s: &str) -> (r: Option<&str>)
    ensures
        r is None <==> s@.len() == 0,
        r is Some ==> r->Some_0@ == s@,
{
    if s.is_empty() {
        None
    } else {
        Some(s)
    }
}

/// An optional text, when it is present and not empty.
pub fn non_empty_opt(s: &Option<String>) -> (r: Option<&str>)
    ensures
        r is None <==> (s is None || s->Some_0@.len() == 0),
        r is Some ==> r->Some_0@ == s->Some_0@,
{
    match s {
        Some(v) => non_empty(v.as_str()),
        None => None,
    }
}


/// The index entries of a record: its envelope recipient and sender, its
/// header sender, and its DKIM and SPF domains.
pub open spec fn record_texts(r: DmarcReportRecord) -> Seq<Seq<char>> {
    opt_text(r.envelope_to) + if_text(r.envelope_from@) + if_text(r.header_from@) + all_texts(r.dkim_domains@)
        + all_texts(r.spf_domains@)
}

/// The index entries of records, in order.
pub open spec fn records_texts(rs: Seq<DmarcReportRecord>) -> Seq<Seq<char>>
    decreases rs.len(),
{
    if rs.len() == 0 {
        Seq::empty()
    } else {
        records_texts(rs.drop_last()) + record_texts(rs.last())
    }
}

fn push_all(out: &mut Vec<String>, items: &Vec<String>)
    ensures
        texts(final(out)@) == texts(old(out)@) + all_texts(items@),
{
    let ghost start = texts(out@);
    let mut i: usize = 0;
    while i < items.len()
        invariant
            i <= items@.len(),
            texts(out@) == start + all_texts(items@.take(i as int)),
        decreases items.len() - i,
    {
        assert(items@.take(i + 1).drop_last() =~= items@.take(i as int));
        push_if_text(out, items[i].as_str());
        assert(start + all_texts(items@.take(i + 1)) =~= start + all_texts(items@.take(i as int)) + if_text(items@[i as int]@));
        i = i + 1;
    }
    assert(items@.take(items@.len() as int) =~= items@);
}

/// The texts that index a received DMARC report: the reporter's address,
/// the policy domain, the texts of each record, then the sender, each where
/// it is not empty.
pub fn dmarc_report_texts(email: &str, policy_domain: &str, records: &Vec<DmarcReportRecord>, from: &str) -> (r: Vec<String>)
    ensures
        texts(r@) == if_text(email@) + if_text(policy_domain@) + records_texts(records@) + if_text(from@),
{
    let mut out: Vec<String> = Vec::new();
    push_if_text(&mut out, email);
    push_if_text(&mut out, policy_domain);
    let ghost start = texts(out@);
    let mut i: usize = 0;
    while i < records.len()
        invariant
            i <= records@.len(),
            texts(out@) == start + records_texts(records@.take(i as int)),
        decreases records.len() - i,
    {
        let rec = &records[i];
        assert(records@.take(i + 1).drop_last() =~= records@.take(i as int));
        let ghost before = texts(out@);
        push_opt_text(&mut out, &rec.envelope_to);
        push_if_text(&mut out, rec.envelope_from.as_str());
        push_if_text(&mut out, rec.header_from.as_str());
        push_all(&mut out, &rec.dkim_domains);
        push_all(&mut out, &rec.spf_domains);
        assert(texts(out@) =~= before + record_texts(*rec));
        assert(start + records_texts(records@.take(i + 1)) =~= start + records_texts(records@.take(i as int)) + record_texts(*rec));
        i = i + 1;
    }
    assert(records@.take(records@.len() as int) =~= records@);
    push_if_text(&mut out, from);
    out
}

/// A received failure (ARF) report's fields that index it.
pub struct ArfReportFields {
    pub reported_domains: Vec<String>,
    pub dkim_domain: Option<String>,
    pub reporting_mta: Option<String>,
    pub original_mail_from: Option<String>,
    pub original_rcpt_to: Option<String>,
}

/// The domains of a received failure report: its reported domains, then
/// its DKIM domain, each where it is not empty.
pub fn arf_report_domains(report: &ArfReportFields) -> (r: Vec<String>)
    ensures
        texts(r@) == all_texts(report.reported_domains@) + opt_text(report.dkim_domain),
{
    let mut out: Vec<String> = Vec::new();
    push_all(&mut out, &report.reported_domains);
    push_opt_text(&mut out, &report.dkim_domain);
    out
}

/// The texts that index a received failure report: its reported domains,
/// its DKIM domain, reporting MTA, original sender and recipient, then the
/// sender of the report, each where it is not empty.
pub fn arf_report_texts(report: &ArfReportFields, from: &str) -> (r: Vec<String>)
    ensures
        texts(r@) == all_texts(report.reported_domains@) + opt_text(report.dkim_domain) + opt_text(
            report.reporting_mta,
        ) + opt_text(report.original_mail_from) + opt_text(report.original_rcpt_to) + if_text(from@),
{
    let mut out: Vec<String> = Vec::new();
    push_all(&mut out, &report.reported_domains);
    push_opt_text(&mut out, &report.dkim_domain);
    push_opt_text(&mut out, &report.reporting_mta);
    push_opt_text(&mut out, &report.original_mail_from);
    push_opt_text(&mut out, &report.original_rcpt_to);
    push_if_text(&mut out, from);
    out
}


/// The start of the aggregate report period that holds the calendar time
/// `c`: its hour, its day, or the Sunday that starts its week (in UTC); the
/// time itself for reports that are never sent. Cut to 64 bits.
pub open spec fn period_start_of(f: AggregateFrequency, c: CivilTime) -> u64 {
    match f {
        AggregateFrequency::Hourly => timestamp_of(CivilTime { minute: 0, second: 0, ..c }) as u64,
        AggregateFrequency::Daily => timestamp_of(CivilTime { hour: 0, minute: 0, second: 0, ..c }) as u64,
        AggregateFrequency::Weekly => (timestamp_of(CivilTime { hour: 0, minute: 0, second: 0, ..c }) - 86400
            * weekday_of(c)) as u64,
        AggregateFrequency::Never => timestamp_of(c) as u64,
    }
}

/// The time of a clock reading in seconds as a signed time: readings past
/// the largest signed time are taken as that time.
pub open spec fn clock_time(now: u64) -> i64 {
    if now > i64::MAX as u64 {
        i64::MAX
    } else {
        now as i64
    }
}

/// The length of a report period in seconds (zero for reports never sent).
pub open spec fn period_length(f: AggregateFrequency) -> u64 {
    match f {
        AggregateFrequency::Hourly => 3600u64,
        AggregateFrequency::Daily => 86400u64,
        AggregateFrequency::Weekly => 604800u64,
        AggregateFrequency::Never => 0u64,
    }
}

/// The sum of two times, at most the largest time.
pub open spec fn saturated_sum(a: u64, b: u64) -> u64 {
    if a + b > u64::MAX {
        u64::MAX
    } else {
        (a + b) as u64
    }
}

impl AggregateFrequency {
    /// The start of the report period that holds the UNIX time `now`.
    pub fn period_start(&self, now: i64) -> (r: u64)
        ensures
            r == period_start_of(*self, civil_of(now)),
    {
        let c = civil_from_timestamp(now);
        match self {
            AggregateFrequency::Hourly => civil_to_timestamp(CivilTime { minute: 0, second: 0, ..c }) as u64,
            AggregateFrequency::Daily => civil_to_timestamp(CivilTime { hour: 0, minute: 0, second: 0, ..c }) as u64,
            AggregateFrequency::Weekly => {
                let dow = civil_weekday(c);
                let day = civil_to_timestamp(CivilTime { hour: 0, minute: 0, second: 0, ..c });
                let back: i64 = 86400 * (dow as i64);
                let w: i128 = (day as i128) - (back as i128);
                w as u64
            },
            AggregateFrequency::Never => civil_to_timestamp(c) as u64,
        }
    }

    /// The start of the current report period, read from the system clock:
    /// the start of the period that holds the clock's reading (a reading past
    /// the largest signed time taken as that time). Which reading the clock
    /// gives is not known, so the contract holds for every reading.
    pub fn to_timestamp(&self) -> (r: u64)
        ensures
            exists|now: u64| r == period_start_of(*self, civil_of(#[trigger] clock_time(now))),
    {
        let raw = unix_now();
        let now: i64 = if raw > i64::MAX as u64 {
            i64::MAX
        } else {
            raw as i64
        };
        let r = self.period_start(now);
        assert(r == period_start_of(*self, civil_of(clock_time(raw))));
        r
    }

    /// When the current report period ends: its start (see
    /// [`Self::to_timestamp`]) plus its length, at most the largest time.
    pub fn due(&self) -> (r: u64)
        ensures
            exists|now: u64|
                r == saturated_sum(
                    period_start_of(*self, civil_of(#[trigger] clock_time(now))),
                    period_length(*self),
                ),
    {
        let start = self.to_timestamp();
        let ghost now = choose|now: u64| start == period_start_of(*self, civil_of(#[trigger] clock_time(now)));
        let r = start.saturating_add(self.as_secs());
        assert(r == saturated_sum(period_start_of(*self, civil_of(clock_time(now))), period_length(*self)));
        r
    }
}

} // verus!
