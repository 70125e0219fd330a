//! Aggregate TLS reports (RFC 8460): how each TLS outcome of an outbound
//! connection is recorded in the report of its domain, the policy strings
//! of a report, and the session counts that a report sums up.

use vstd::prelude::*;
use vstd::string::StrSliceExecFns;
use crate::text::{decimal, push_char, push_decimal, push_str, str_eq};

verus! {

/// How a policy was found for a domain.
#[derive(Clone, Copy, PartialEq, Eq, Structural)]
pub enum TlsPolicyType {
    Tlsa,
    Sts,
    NoPolicyFound,
}

/// Why a TLS session failed.
#[derive(Clone, Copy, PartialEq, Eq, Structural)]
pub enum TlsResultType {
    StartTlsNotSupported,
    CertificateHostMismatch,
    CertificateExpired,
    CertificateNotTrusted,
    ValidationFailure,
    TlsaInvalid,
    DnssecInvalid,
    DaneRequired,
    StsPolicyFetchError,
    StsPolicyInvalid,
    StsWebpkiInvalid,
    Other,
}

/// One kind of failed session, with how many sessions failed so.
pub struct TlsFailureDetails {
    pub result_type: TlsResultType,
    pub sending_mta_ip: Option<String>,
    pub receiving_mx_hostname: Option<String>,
    pub receiving_mx_helo: Option<String>,
    pub receiving_ip: Option<String>,
    pub failed_session_count: u64,
    pub additional_information: Option<String>,
    pub failure_reason_code: Option<String>,
}

/// The sessions under one policy of a domain.
pub struct TlsReportPolicy {
    pub policy_type: TlsPolicyType,
    pub policy_strings: Vec<String>,
    pub policy_domain: String,
    pub mx_hosts: Vec<String>,
    pub total_successful_sessions: u64,
    pub total_failed_sessions: u64,
    pub failure_details: Vec<TlsFailureDetails>,
}

/// A report being gathered for a domain: its policies, the hash that
/// identifies each, and where to send the report.
pub struct TlsInternalReport {
    pub domain: String,
    pub policies: Vec<TlsReportPolicy>,
    pub policy_identifiers: Vec<u64>,
    pub mail_rua: Vec<String>,
    pub http_rua: Vec<String>,
}

/// How a TLSA record's data is matched against a certificate: the data
/// itself, or its SHA-256 or SHA-512 digest.
#[derive(Clone, Copy, Debug, PartialEq, Eq, Structural)]
pub enum TlsaMatching {
    Full,
    Sha256,
    Sha512,
}

/// A TLSA record entry: whether it names the end entity (else a trust
/// anchor), whether it covers the public key (else the whole certificate),
/// how its data is matched, and the data.
pub struct TlsaEntry {
    pub is_end_entity: bool,
    pub is_spki: bool,
    pub matching: TlsaMatching,
    pub data: Vec<u8>,
}

/// The mode of an MTA-STS policy.
#[derive(Clone, Copy, PartialEq, Eq, Structural)]
pub enum StsMode {
    Enforce,
    Testing,
    NoMode,
}

/// An MX host pattern of an MTA-STS policy.
pub enum MxPattern {
    Equals(String),
    StartsWith(String),
}

/// An MTA-STS policy.
pub struct StsPolicy {
    pub mode: StsMode,
    pub max_age: u64,
    pub mx: Vec<MxPattern>,
}

/// The policy under which a session ran.
pub enum PolicyType {
    Tlsa(Option<Vec<TlsaEntry>>),
    Sts(Option<StsPolicy>),
    NoPolicyFound,
}

/// Where a domain asks for reports.
pub enum ReportUri {
    Mail(String),
    Http(String),
}

// ---------------------------------------------------------------------------
// Policy strings
// ---------------------------------------------------------------------------

/// The upper case hexadecimal digit of `d` (`d < 16`).
pub open spec fn hex_digit(d: nat) -> char {
    if d < 10 {
        ((48 + d) as u32) as char
    } else {
        ((55 + d) as u32) as char
    }
}

/// Bytes as upper case hexadecimal, two digits each.
pub open spec fn hex_upper(data: Seq<u8>) -> Seq<char>
    decreases data.len(),
{
    if data.len() == 0 {
        Seq::empty()
    } else {
        hex_upper(data.drop_last()) + seq![hex_digit((data.last() / 16) as nat), hex_digit((data.last() % 16) as nat)]
    }
}

/// The policy string of a TLSA entry: usage, selector, matching type and
/// data.
pub open spec fn tlsa_string(e: TlsaEntry) -> Seq<char> {
    (if e.is_end_entity { "3"@ } else { "2"@ }) + " "@ + (if e.is_spki { "1"@ } else { "0"@ }) + " "@ + (if e.matching == TlsaMatching::Sha256 {
        "1"@
    } else {
        "2"@
    }) + " "@ + hex_upper(e.data@)
}

/// The name of an MTA-STS mode.
pub open spec fn mode_name(m: StsMode) -> Seq<char> {
    match m {
        StsMode::Enforce => "enforce"@,
        StsMode::Testing => "testing"@,
        StsMode::NoMode => "none"@,
    }
}

/// An MX pattern as a report writes it.
pub open spec fn mx_text(p: MxPattern) -> Seq<char> {
    match p {
        MxPattern::Equals(m) => m@,
        MxPattern::StartsWith(m) => "*."@ + m@,
    }
}

fn push_hex_upper(s: &mut String, data: &[u8])
    ensures
        final(s)@ == old(s)@ + hex_upper(data@),
{
    let mut i: usize = 0;
    while i < data.len()
        invariant
            i <= data@.len(),
            s@ == old(s)@ + hex_upper(data@.take(i as int)),
        decreases data.len() - i,
    {
        let b = data[i];
        assert(data@.take(i + 1).drop_last() =~= data@.take(i as int));
        let hi = b / 16;
        let lo = b % 16;
        let c1 = if hi < 10 {
            (48u8 + hi) as char
        } else {
            (55u8 + hi) as char
        };
        let c2 = if lo < 10 {
            (48u8 + lo) as char
        } else {
            (55u8 + lo) as char
        };
        assert(c1 == hex_digit(hi as nat));
        assert(c2 == hex_digit(lo as nat));
        push_char(s, c1);
        push_char(s, c2);
        assert(s@ =~= old(s)@ + hex_upper(data@.take(i + 1)));
        i = i + 1;
    }
    assert(data@.take(data@.len() as int) =~= data@);
}

/// The policy string of a TLSA entry.
pub fn tlsa_policy_string(e: &TlsaEntry) -> (r: String)
    ensures
        r@ == tlsa_string(*e),
{
    let mut s = String::new();
    push_str(&mut s, if e.is_end_entity { "3" } else { "2" });
    push_str(&mut s, " ");
    push_str(&mut s, if e.is_spki { "1" } else { "0" });
    push_str(&mut s, " ");
    push_str(&mut s, if e.matching == TlsaMatching::Sha256 { "1" } else { "2" });
    push_str(&mut s, " ");
    push_hex_upper(&mut s, e.data.as_slice());
    proof {
        reveal_strlit("");
    }
    assert(s@ =~= tlsa_string(*e));
    s
}

/// A new policy of a domain, with no sessions yet: its type, and for a
/// known TLSA or MTA-STS policy its policy strings (and MX hosts).
pub open spec fn new_policy_ok(p: TlsReportPolicy, domain: Seq<char>, policy: PolicyType) -> bool {
    &&& p.policy_domain@ == domain
    &&& p.total_successful_sessions == 0
    &&& p.total_failed_sessions == 0
    &&& p.failure_details@.len() == 0
    &&& match policy {
        PolicyType::Tlsa(t) => {
            &&& p.policy_type == TlsPolicyType::Tlsa
            &&& p.mx_hosts@.len() == 0
            &&& match t {
                Some(entries) => p.policy_strings@.len() == entries@.len() && forall|i: int|
                    0 <= i < entries@.len() ==> (#[trigger] p.policy_strings@[i])@ == tlsa_string(entries@[i]),
                None => p.policy_strings@.len() == 0,
            }
        },
        PolicyType::Sts(s) => {
            &&& p.policy_type == TlsPolicyType::Sts
            &&& match s {
                Some(sts) => {
                    &&& p.policy_strings@.len() == 3 + sts.mx@.len()
                    &&& p.policy_strings@[0]@ == "version: STSv1"@
                    &&& p.policy_strings@[1]@ == "mode: "@ + mode_name(sts.mode)
                    &&& p.policy_strings@[2]@ == "max_age: "@ + decimal(sts.max_age as nat)
                    &&& p.mx_hosts@.len() == sts.mx@.len()
                    &&& forall|i: int| 0 <= i < sts.mx@.len() ==> {
                        &&& (#[trigger] p.mx_hosts@[i])@ == mx_text(sts.mx@[i])
                        &&& p.policy_strings@[3 + i]@ == "mx: "@ + mx_text(sts.mx@[i])
                    }
                },
                None => p.policy_strings@.len() == 0 && p.mx_hosts@.len() == 0,
            }
        },
        PolicyType::NoPolicyFound => {
            &&& p.policy_type == TlsPolicyType::NoPolicyFound
            &&& p.policy_strings@.len() == 0
            &&& p.mx_hosts@.len() == 0
        },
    }
}

fn mx_string(p: &MxPattern) -> (r: String)
    ensures
        r@ == mx_text(*p),
{
    match p {
        MxPattern::Equals(m) => m.clone(),
        MxPattern::StartsWith(m) => {
            let mut s = String::from_str("*.");
            push_str(&mut s, m.as_str());
            s
        },
    }
}

/// The policy of a domain that sessions first ran under.
pub fn new_tls_policy(domain: &str, policy: &PolicyType) -> (r: TlsReportPolicy)
    ensures
        new_policy_ok(r, domain@, *policy),
{
    let mut p = TlsReportPolicy {
        policy_type: TlsPolicyType::NoPolicyFound,
        policy_strings: Vec::new(),
        policy_domain: String::from_str(domain),
        mx_hosts: Vec::new(),
        total_successful_sessions: 0,
        total_failed_sessions: 0,
        failure_details: Vec::new(),
    };
    match policy {
        PolicyType::Tlsa(tlsa) => {
            p.policy_type = TlsPolicyType::Tlsa;
            if let Some(entries) = tlsa {
                let mut i: usize = 0;
                while i < entries.len()
                    invariant
                        i <= entries@.len(),
                        p.policy_strings@.len() == i,
                        p.mx_hosts@.len() == 0,
                        p.policy_domain@ == domain@,
                        p.policy_type == TlsPolicyType::Tlsa,
                        p.total_successful_sessions == 0,
                        p.total_failed_sessions == 0,
                        p.failure_details@.len() == 0,
                        forall|j: int| 0 <= j < i ==> (#[trigger] p.policy_strings@[j])@ == tlsa_string(entries@[j]),
                    decreases entries.len() - i,
                {
                    let s = tlsa_policy_string(&entries[i]);
                    p.policy_strings.push(s);
                    i = i + 1;
                }
            }
        },
        PolicyType::Sts(sts) => {
            p.policy_type = TlsPolicyType::Sts;
            if let Some(sts) = sts {
                p.policy_strings.push(String::from_str("version: STSv1"));
                let mut mode = String::from_str("mode: ");
                push_str(
                    &mut mode,
                    match sts.mode {
                        StsMode::Enforce => "enforce",
                        StsMode::Testing => "testing",
                        StsMode::NoMode => "none",
                    },
                );
                p.policy_strings.push(mode);
                let mut age = String::from_str("max_age: ");
                push_decimal(&mut age, sts.max_age);
                p.policy_strings.push(age);
                let mut i: usize = 0;
                while i < sts.mx.len()
                    invariant
                        i <= sts.mx@.len(),
                        p.policy_strings@.len() == 3 + i,
                        p.mx_hosts@.len() == i,
                        p.policy_domain@ == domain@,
                        p.policy_type == TlsPolicyType::Sts,
                        p.total_successful_sessions == 0,
                        p.total_failed_sessions == 0,
                        p.failure_details@.len() == 0,
                        p.policy_strings@[0]@ == "version: STSv1"@,
                        p.policy_strings@[1]@ == "mode: "@ + mode_name(sts.mode),
                        p.policy_strings@[2]@ == "max_age: "@ + decimal(sts.max_age as nat),
                        forall|j: int| 0 <= j < i ==> {
                            &&& (#[trigger] p.mx_hosts@[j])@ == mx_text(sts.mx@[j])
                            &&& p.policy_strings@[3 + j]@ == "mx: "@ + mx_text(sts.mx@[j])
                        },
                    decreases sts.mx.len() - i,
                {
                    let mx = mx_string(&sts.mx[i]);
                    let mut line = String::from_str("mx: ");
                    push_str(&mut line, mx.as_str());
                    p.policy_strings.push(line);
                    p.mx_hosts.push(mx);
                    i = i + 1;
                }
            }
        },
        PolicyType::NoPolicyFound => {},
    }
    p
}

// ---------------------------------------------------------------------------
// Recording sessions
// ---------------------------------------------------------------------------

/// The view of an optional text.
pub open spec fn opt_view(o: Option<String>) -> Option<Seq<char>> {
    match o {
        Some(s) => Some(s@),
        None => None,
    }
}

/// Whether two failure details describe the same kind of failure: equal in
/// every field but the session count.
pub open spec fn same_failure(a: TlsFailureDetails, b: TlsFailureDetails) -> bool {
    &&& a.result_type == b.result_type
    &&& opt_view(a.sending_mta_ip) == opt_view(b.sending_mta_ip)
    &&& opt_view(a.receiving_mx_hostname) == opt_view(b.receiving_mx_hostname)
    &&& opt_view(a.receiving_mx_helo) == opt_view(b.receiving_mx_helo)
    &&& opt_view(a.receiving_ip) == opt_view(b.receiving_ip)
    &&& opt_view(a.additional_information) == opt_view(b.additional_information)
    &&& opt_view(a.failure_reason_code) == opt_view(b.failure_reason_code)
}

fn opt_eq(a: &Option<String>, b: &Option<String>) -> (r: bool)
    ensures
        r == (opt_view(*a) == opt_view(*b)),
{
    match (a, b) {
        (Some(x), Some(y)) => str_eq(x.as_str(), y.as_str()),
        (None, None) => true,
        _ => false,
    }
}

fn failure_eq(a: &TlsFailureDetails, b: &TlsFailureDetails) -> (r: bool)
    ensures
        r == same_failure(*a, *b),
{
    a.result_type == b.result_type && opt_eq(&a.sending_mta_ip, &b.sending_mta_ip) && opt_eq(
        &a.receiving_mx_hostname,
        &b.receiving_mx_hostname,
    ) && opt_eq(&a.receiving_mx_helo, &b.receiving_mx_helo) && opt_eq(&a.receiving_ip, &b.receiving_ip)
        && opt_eq(
        &a.additional_information,
        &b.additional_information,
    ) && opt_eq(&a.failure_reason_code, &b.failure_reason_code)
}

/// The position of the first failure detail equal to `f`, or -1.
pub open spec fn failure_index(ds: Seq<TlsFailureDetails>, f: TlsFailureDetails) -> int
    decreases ds.len(),
{
    if ds.len() == 0 {
        -1
    } else if failure_index(ds.drop_last(), f) >= 0 {
        failure_index(ds.drop_last(), f)
    } else if same_failure(ds.last(), f) {
        ds.len() - 1
    } else {
        -1
    }
}

/// A policy after one more session: a failure is counted under the first
/// failure detail of the same kind (or added as a new one) and in the
/// failed total; a success in the successful total.
pub open spec fn session_recorded(old: TlsReportPolicy, new: TlsReportPolicy, failure: Option<TlsFailureDetails>) -> bool {
    &&& new.policy_type == old.policy_type
    &&& new.policy_strings == old.policy_strings
    &&& new.policy_domain == old.policy_domain
    &&& new.mx_hosts == old.mx_hosts
    &&& match failure {
        Some(f) => {
            let i = failure_index(old.failure_details@, f);
            &&& new.total_failed_sessions == old.total_failed_sessions + 1
            &&& new.total_successful_sessions == old.total_successful_sessions
            &&& if i >= 0 {
                new.failure_details@ == old.failure_details@.update(
                    i,
                    TlsFailureDetails {
                        failed_session_count: (old.failure_details@[i].failed_session_count + 1) as u64,
                        ..old.failure_details@[i]
                    },
                )
            } else {
                new.failure_details@ == old.failure_details@.push(f)
            }
        },
        None => {
            &&& new.total_successful_sessions == old.total_successful_sessions + 1
            &&& new.total_failed_sessions == old.total_failed_sessions
            &&& new.failure_details@ == old.failure_details@
        },
    }
}

/// Whether a session can be recorded in a policy without a count overflowing.
pub open spec fn policy_has_room(p: TlsReportPolicy) -> bool {
    &&& p.total_successful_sessions < u64::MAX
    &&& p.total_failed_sessions < u64::MAX
    &&& forall|j: int| 0 <= j < p.failure_details@.len() ==> (#[trigger] p.failure_details@[j]).failed_session_count < u64::MAX
}

fn find_failure(ds: &Vec<TlsFailureDetails>, f: &TlsFailureDetails) -> (r: Option<usize>)
    ensures
        failure_index(ds@, *f) >= 0 <==> r is Some,
        r is Some ==> r->Some_0 == failure_index(ds@, *f),
        -1 <= failure_index(ds@, *f) < ds@.len(),
{
    let mut i: usize = 0;
    while i < ds.len()
        invariant
            i <= ds@.len(),
            failure_index(ds@.take(i as int), *f) == -1,
        decreases ds.len() - i,
    {
        assert(ds@.take(i + 1).drop_last() =~= ds@.take(i as int));
        if failure_eq(&ds[i], f) {
            proof {
                lemma_failure_index_prefix(ds@, *f, i + 1);
            }
            return Some(i);
        }
        i = i + 1;
    }
    assert(ds@.take(ds@.len() as int) =~= ds@);
    None
}

/// Extending a list past a match keeps the position of the first match.
proof fn lemma_failure_index_prefix(ds: Seq<TlsFailureDetails>, f: TlsFailureDetails, n: int)
    requires
        0 < n <= ds.len(),
        failure_index(ds.take(n), f) >= 0,
    ensures
        failure_index(ds, f) == failure_index(ds.take(n), f),
    decreases ds.len() - n,
{
    if n < ds.len() {
        assert(ds.take(n + 1).drop_last() =~= ds.take(n));
        lemma_failure_index_prefix(ds, f, n + 1);
    } else {
        assert(ds.take(n) =~= ds);
    }
}

/// Records one session in a policy.
pub fn record_session(policy: &mut TlsReportPolicy, failure: Option<TlsFailureDetails>)
    requires
        policy_has_room(*old(policy)),
    ensures
        session_recorded(*old(policy), *final(policy), failure),
{
    match failure {
        Some(f) => {
            match find_failure(&policy.failure_details, &f) {
                Some(idx) => {
                    let count = policy.failure_details[idx].failed_session_count;
                    policy.failure_details[idx].failed_session_count = count + 1;
                },
                None => {
                    policy.failure_details.push(f);
                },
            }
            policy.total_failed_sessions = policy.total_failed_sessions + 1;
        },
        None => {
            policy.total_successful_sessions = policy.total_successful_sessions + 1;
        },
    }
}

/// A list of texts with each text of `adds` that it lacks appended, in order.
pub open spec fn merge_texts(list: Seq<Seq<char>>, adds: Seq<Seq<char>>) -> Seq<Seq<char>>
    decreases adds.len(),
{
    if adds.len() == 0 {
        list
    } else {
        let prev = merge_texts(list, adds.drop_last());
        if prev.contains(adds.last()) {
            prev
        } else {
            prev.push(adds.last())
        }
    }
}

/// The views of a list of strings.
pub open spec fn texts(v: Seq<String>) -> Seq<Seq<char>> {
    v.map_values(|s: String| s@)
}

/// The mail (`mail == true`) or HTTP addresses of a list of report URIs.
pub open spec fn rua_texts(ruas: Seq<ReportUri>, mail: bool) -> Seq<Seq<char>>
    decreases ruas.len(),
{
    if ruas.len() == 0 {
        Seq::empty()
    } else {
        let prev = rua_texts(ruas.drop_last(), mail);
        match ruas.last() {
            ReportUri::Mail(m) => if mail { prev.push(m@) } else { prev },
            ReportUri::Http(h) => if mail { prev } else { prev.push(h@) },
        }
    }
}

fn contains_text(list: &Vec<String>, s: &str) -> (r: bool)
    ensures
        r == texts(list@).contains(s@),
{
    let mut i: usize = 0;
    while i < list.len()
        invariant
            i <= list@.len(),
            forall|j: int| 0 <= j < i ==> (#[trigger] list@[j])@ != s@,
        decreases list.len() - i,
    {
        if str_eq(list[i].as_str(), s) {
            assert(texts(list@)[i as int] == s@);
            return true;
        }
        i = i + 1;
    }
    assert forall|j: int| 0 <= j < texts(list@).len() implies texts(list@)[j] != s@ by {
        assert(texts(list@)[j] == list@[j]@);
    }
    false
}

fn merge_ruas(report: &mut TlsInternalReport, ruas: &Vec<ReportUri>)
    ensures
        texts(final(report).mail_rua@) == merge_texts(texts(old(report).mail_rua@), rua_texts(ruas@, true)),
        texts(final(report).http_rua@) == merge_texts(texts(old(report).http_rua@), rua_texts(ruas@, false)),
        final(report).domain == old(report).domain,
        final(report).policies == old(report).policies,
        final(report).policy_identifiers == old(report).policy_identifiers,
{
    let mut i: usize = 0;
    while i < ruas.len()
        invariant
            i <= ruas@.len(),
            texts(report.mail_rua@) == merge_texts(texts(old(report).mail_rua@), rua_texts(ruas@.take(i as int), true)),
            texts(report.http_rua@) == merge_texts(texts(old(report).http_rua@), rua_texts(ruas@.take(i as int), false)),
            report.domain == old(report).domain,
            report.policies == old(report).policies,
            report.policy_identifiers == old(report).policy_identifiers,
        decreases ruas.len() - i,
    {
        assert(ruas@.take(i + 1).drop_last() =~= ruas@.take(i as int));
        assert(ruas@.take(i + 1).last() == ruas@[i as int]);
        let ghost mails = rua_texts(ruas@.take(i as int), true);
        let ghost https = rua_texts(ruas@.take(i as int), false);
        match &ruas[i] {
            ReportUri::Mail(mail) => {
                assert(rua_texts(ruas@.take(i + 1), true) == mails.push(mail@));
                assert(rua_texts(ruas@.take(i + 1), false) == https);
                assert(mails.push(mail@).drop_last() =~= mails);
                if !contains_text(&report.mail_rua, mail.as_str()) {
                    let ghost before = report.mail_rua@;
                    report.mail_rua.push(mail.clone());
                    assert(texts(report.mail_rua@) =~= texts(before).push(mail@));
                }
            },
            ReportUri::Http(uri) => {
                assert(rua_texts(ruas@.take(i + 1), false) == https.push(uri@));
                assert(rua_texts(ruas@.take(i + 1), true) == mails);
                assert(https.push(uri@).drop_last() =~= https);
                if !contains_text(&report.http_rua, uri.as_str()) {
                    let ghost before = report.http_rua@;
                    report.http_rua.push(uri.clone());
                    assert(texts(report.http_rua@) =~= texts(before).push(uri@));
                }
            },
        }
        i = i + 1;
    }
    assert(ruas@.take(ruas@.len() as int) =~= ruas@);
}

/// The position of the first identifier equal to `h`, or -1.
pub open spec fn policy_position(ids: Seq<u64>, h: u64) -> int
    decreases ids.len(),
{
    if ids.len() == 0 {
        -1
    } else if policy_position(ids.drop_last(), h) >= 0 {
        policy_position(ids.drop_last(), h)
    } else if ids.last() == h {
        ids.len() - 1
    } else {
        -1
    }
}

proof fn lemma_policy_position_prefix(ids: Seq<u64>, h: u64, n: int)
    requires
        0 < n <= ids.len(),
        policy_position(ids.take(n), h) >= 0,
    ensures
        policy_position(ids, h) == policy_position(ids.take(n), h),
    decreases ids.len() - n,
{
    if n < ids.len() {
        assert(ids.take(n + 1).drop_last() =~= ids.take(n));
        lemma_policy_position_prefix(ids, h, n + 1);
    } else {
        assert(ids.take(n) =~= ids);
    }
}

fn find_policy(ids: &Vec<u64>, h: u64) -> (r: Option<usize>)
    ensures
        policy_position(ids@, h) >= 0 <==> r is Some,
        r is Some ==> r->Some_0 == policy_position(ids@, h),
        -1 <= policy_position(ids@, h) < ids@.len(),
{
    let mut i: usize = 0;
    while i < ids.len()
        invariant
            i <= ids@.len(),
            policy_position(ids@.take(i as int), h) == -1,
        decreases ids.len() - i,
    {
        assert(ids@.take(i + 1).drop_last() =~= ids@.take(i as int));
        if ids[i] == h {
            proof {
                lemma_policy_position_prefix(ids@, h, i + 1);
            }
            return Some(i);
        }
        i = i + 1;
    }
    assert(ids@.take(ids@.len() as int) =~= ids@);
    None
}

impl TlsInternalReport {
    /// Records the outcome of one TLS session with the domain under the
    /// policy identified by `policy_hash`. A policy seen for the first time
    /// is added, with the report addresses of the domain's TLS reporting
    /// record (`ruas`) that the report lacks.
    pub fn record_tls_event(
        &mut self,
        policy_hash: u64,
        policy: &PolicyType,
        ruas: &Vec<ReportUri>,
        failure: Option<TlsFailureDetails>,
    )
        requires
            forall|j: int| 0 <= j < old(self).policies@.len() ==> policy_has_room(#[trigger] old(self).policies@[j]),
        ensures
            final(self).domain == old(self).domain,
            ({
                let i = policy_position(old(self).policy_identifiers@, policy_hash);
                if i >= 0 && i < old(self).policies@.len() {
                    &&& final(self).policy_identifiers == old(self).policy_identifiers
                    &&& final(self).mail_rua == old(self).mail_rua
                    &&& final(self).http_rua == old(self).http_rua
                    &&& final(self).policies@.len() == old(self).policies@.len()
                    &&& forall|j: int| 0 <= j < old(self).policies@.len() && j != i ==> #[trigger] final(self).policies@[j] == old(self).policies@[j]
                    &&& session_recorded(old(self).policies@[i], final(self).policies@[i], failure)
                } else {
                    let n = old(self).policies@.len();
                    &&& final(self).policy_identifiers@ == old(self).policy_identifiers@.push(policy_hash)
                    &&& texts(final(self).mail_rua@) == merge_texts(texts(old(self).mail_rua@), rua_texts(ruas@, true))
                    &&& texts(final(self).http_rua@) == merge_texts(texts(old(self).http_rua@), rua_texts(ruas@, false))
                    &&& final(self).policies@.len() == n + 1
                    &&& forall|j: int| 0 <= j < n ==> #[trigger] final(self).policies@[j] == old(self).policies@[j]
                    &&& exists|p: TlsReportPolicy| new_policy_ok(p, old(self).domain@, *policy) && session_recorded(p, #[trigger] final(self).policies@[n as int], failure)
                }
            }),
    {
        let found = match find_policy(&self.policy_identifiers, policy_hash) {
            Some(idx) => if idx < self.policies.len() {
                Some(idx)
            } else {
                None
            },
            None => None,
        };
        match found {
            Some(idx) => {
                let mut p = self.policies.remove(idx);
                let ghost before = self.policies@;
                record_session(&mut p, failure);
                self.policies.insert(idx, p);
                assert forall|j: int| 0 <= j < self.policies@.len() && j != idx implies #[trigger] self.policies@[j] == old(self).policies@[j] by {
                    if j < idx {
                        assert(self.policies@[j] == before[j]);
                    } else {
                        assert(self.policies@[j] == before[j - 1]);
                    }
                }
            },
            None => {
                let mut p = new_tls_policy(self.domain.as_str(), policy);
                let ghost fresh = p;
                merge_ruas(self, ruas);
                self.policy_identifiers.push(policy_hash);
                record_session(&mut p, failure);
                self.policies.push(p);
                assert(new_policy_ok(fresh, old(self).domain@, *policy));
                assert(session_recorded(fresh, self.policies@[old(self).policies@.len() as int], failure));
            },
        }
    }

    /// The number of policies with at least one successful session and the
    /// number with at least one failed session.
    pub fn success_fail_count(&self) -> (r: (u64, u64))
        requires
            self.policies@.len() <= u64::MAX,
        ensures
            r.0 == policies_with(self.policies@, true),
            r.1 == policies_with(self.policies@, false),
    {
        let mut success: u64 = 0;
        let mut fail: u64 = 0;
        let mut i: usize = 0;
        while i < self.policies.len()
            invariant
                i <= self.policies@.len(),
                self.policies@.len() <= u64::MAX,
                success == policies_with(self.policies@.take(i as int), true),
                fail == policies_with(self.policies@.take(i as int), false),
                success <= i,
                fail <= i,
            decreases self.policies.len() - i,
        {
            assert(self.policies@.take(i + 1).drop_last() =~= self.policies@.take(i as int));
            let p = &self.policies[i];
            if p.total_successful_sessions > 0 {
                success = success + 1;
            }
            if p.total_failed_sessions > 0 {
                fail = fail + 1;
            }
            i = i + 1;
        }
        assert(self.policies@.take(self.policies@.len() as int) =~= self.policies@);
        (success, fail)
    }
}

/// The number of policies with a successful (`success`) or a failed
/// session.
pub open spec fn policies_with(ps: Seq<TlsReportPolicy>, success: bool) -> nat
    decreases ps.len(),
{
    if ps.len() == 0 {
        0
    } else {
        policies_with(ps.drop_last(), success) + (if (if success {
            ps.last().total_successful_sessions
        } else {
            ps.last().total_failed_sessions
        }) > 0 {
            1nat
        } else {
            0nat
        })
    }
}


/// A text as an index entry: itself, or nothing when it is empty.
pub open spec fn if_text(s: Seq<char>) -> Seq<Seq<char>> {
    if s.len() > 0 {
        seq![s]
    } else {
        Seq::empty()
    }
}

/// An optional text as an index entry.
pub open spec fn opt_text(o: Option<String>) -> Seq<Seq<char>> {
    match o {
        Some(s) => if_text(s@),
        None => Seq::empty(),
    }
}

/// The index entries of texts, in order.
pub open spec fn all_texts(ms: Seq<String>) -> Seq<Seq<char>>
    decreases ms.len(),
{
    if ms.len() == 0 {
        Seq::empty()
    } else {
        all_texts(ms.drop_last()) + if_text(ms.last()@)
    }
}

/// The index entries of failures: the MX host name and greeting of each.
pub open spec fn failure_texts(fs: Seq<TlsFailureDetails>) -> Seq<Seq<char>>
    decreases fs.len(),
{
    if fs.len() == 0 {
        Seq::empty()
    } else {
        failure_texts(fs.drop_last()) + opt_text(fs.last().receiving_mx_hostname) + opt_text(
            fs.last().receiving_mx_helo,
        )
    }
}

/// The index entries of a policy: its domain, its MX hosts and its
/// failures.
pub open spec fn policy_texts(p: TlsReportPolicy) -> Seq<Seq<char>> {
    if_text(p.policy_domain@) + all_texts(p.mx_hosts@) + failure_texts(p.failure_details@)
}

/// The index entries of the policies of a report, in order.
pub open spec fn policies_texts(ps: Seq<TlsReportPolicy>) -> Seq<Seq<char>>
    decreases ps.len(),
{
    if ps.len() == 0 {
        Seq::empty()
    } else {
        policies_texts(ps.drop_last()) + policy_texts(ps.last())
    }
}

/// The domains of the policies of a report, in order.
pub open spec fn policies_domains(ps: Seq<TlsReportPolicy>) -> Seq<Seq<char>>
    decreases ps.len(),
{
    if ps.len() == 0 {
        Seq::empty()
    } else {
        policies_domains(ps.drop_last()) + if_text(ps.last().policy_domain@)
    }
}

pub(crate) fn push_if_text(out: &mut Vec<String>, s: &str)
    ensures
        texts(final(out)@) == texts(old(out)@) + if_text(s@),
{
    if s.unicode_len() > 0 {
        let ghost before = out@;
        out.push(String::from_str(s));
        assert(texts(out@) =~= texts(before) + if_text(s@));
    } else {
        assert(texts(out@) =~= texts(out@) + if_text(s@));
    }
}

pub(crate) fn push_opt_text(out: &mut Vec<String>, s: &Option<String>)
    ensures
        texts(final(out)@) == texts(old(out)@) + opt_text(*s),
{
    match s {
        Some(v) => push_if_text(out, v.as_str()),
        None => {
            assert(texts(out@) =~= texts(out@) + opt_text(*s));
        },
    }
}

fn push_policy_texts(out: &mut Vec<String>, p: &TlsReportPolicy)
    ensures
        texts(final(out)@) == texts(old(out)@) + policy_texts(*p),
{
    let ghost start = texts(out@);
    push_if_text(out, p.policy_domain.as_str());
    let ghost a = texts(out@);
    let mut i: usize = 0;
    while i < p.mx_hosts.len()
        invariant
            i <= p.mx_hosts@.len(),
            texts(out@) == a + all_texts(p.mx_hosts@.take(i as int)),
        decreases p.mx_hosts.len() - i,
    {
        assert(p.mx_hosts@.take(i + 1).drop_last() =~= p.mx_hosts@.take(i as int));
        push_if_text(out, p.mx_hosts[i].as_str());
        assert(a + all_texts(p.mx_hosts@.take(i + 1)) =~= a + all_texts(p.mx_hosts@.take(i as int)) + if_text(p.mx_hosts@[i as int]@));
        i = i + 1;
    }
    assert(p.mx_hosts@.take(p.mx_hosts@.len() as int) =~= p.mx_hosts@);
    let ghost b = texts(out@);
    let mut j: usize = 0;
    while j < p.failure_details.len()
        invariant
            j <= p.failure_details@.len(),
            texts(out@) == b + failure_texts(p.failure_details@.take(j as int)),
        decreases p.failure_details.len() - j,
    {
        let f = &p.failure_details[j];
        assert(p.failure_details@.take(j + 1).drop_last() =~= p.failure_details@.take(j as int));
        push_opt_text(out, &f.receiving_mx_hostname);
        push_opt_text(out, &f.receiving_mx_helo);
        assert(b + failure_texts(p.failure_details@.take(j + 1)) =~= b + failure_texts(p.failure_details@.take(j as int))
            + opt_text(f.receiving_mx_hostname) + opt_text(f.receiving_mx_helo));
        j = j + 1;
    }
    assert(p.failure_details@.take(p.failure_details@.len() as int) =~= p.failure_details@);
    assert(texts(out@) =~= start + policy_texts(*p));
}

/// The texts that index a received TLS report: the domain, MX hosts and
/// failure host names and greetings of each policy, then the sender, each
/// where it is not empty.
pub fn tls_report_texts(policies: &Vec<TlsReportPolicy>, from: &str) -> (r: Vec<String>)
    ensures
        texts(r@) == policies_texts(policies@) + if_text(from@),
{
    let mut out: Vec<String> = Vec::new();
    let mut i: usize = 0;
    while i < policies.len()
        invariant
            i <= policies@.len(),
            texts(out@) == policies_texts(policies@.take(i as int)),
        decreases policies.len() - i,
    {
        assert(policies@.take(i + 1).drop_last() =~= policies@.take(i as int));
        push_policy_texts(&mut out, &policies[i]);
        i = i + 1;
    }
    assert(policies@.take(policies@.len() as int) =~= policies@);
    push_if_text(&mut out, from);
    out
}

/// The domains of a received TLS report: the domain of each policy, where
/// it is not empty.
pub fn tls_report_domains(policies: &Vec<TlsReportPolicy>) -> (r: Vec<String>)
    ensures
        texts(r@) == policies_domains(policies@),
{
    let mut out: Vec<String> = Vec::new();
    let mut i: usize = 0;
    while i < policies.len()
        invariant
            i <= policies@.len(),
            texts(out@) == policies_domains(policies@.take(i as int)),
        decreases policies.len() - i,
    {
        assert(policies@.take(i + 1).drop_last() =~= policies@.take(i as int));
        push_if_text(&mut out, policies[i].policy_domain.as_str());
        i = i + 1;
    }
    assert(policies@.take(policies@.len() as int) =~= policies@);
    out
}


/// The mode line of a new MTA-STS policy record names the policy's own
/// mode (`mode: enforce`, `mode: testing`, `mode: none`), so policies that
/// differ in mode get different mode lines.
pub proof fn lemma_sts_mode_line(
    domain: Seq<char>,
    sts1: StsPolicy,
    r1: TlsReportPolicy,
    sts2: StsPolicy,
    r2: TlsReportPolicy,
)
    requires
        new_policy_ok(r1, domain, PolicyType::Sts(Some(sts1))),
        new_policy_ok(r2, domain, PolicyType::Sts(Some(sts2))),
    ensures
        sts1.mode is Enforce ==> r1.policy_strings@[1]@ == "mode: enforce"@,
        sts1.mode is Testing ==> r1.policy_strings@[1]@ == "mode: testing"@,
        sts1.mode is NoMode ==> r1.policy_strings@[1]@ == "mode: none"@,
        sts1.mode != sts2.mode ==> r1.policy_strings@[1]@ != r2.policy_strings@[1]@,
{
    reveal_strlit("mode: ");
    reveal_strlit("enforce");
    reveal_strlit("testing");
    reveal_strlit("none");
    reveal_strlit("mode: enforce");
    reveal_strlit("mode: testing");
    reveal_strlit("mode: none");
    let a = r1.policy_strings@[1]@;
    let b = r2.policy_strings@[1]@;
    assert(a =~= "mode: "@ + mode_name(sts1.mode));
    assert(b =~= "mode: "@ + mode_name(sts2.mode));
    if sts1.mode is Enforce {
        assert(a =~= "mode: enforce"@);
    }
    if sts1.mode is Testing {
        assert(a =~= "mode: testing"@);
    }
    if sts1.mode is NoMode {
        assert(a =~= "mode: none"@);
    }
    if sts1.mode != sts2.mode {
        if a.len() == b.len() {
            assert(a[6] != b[6]);
        }
    }
}

} // verus!
