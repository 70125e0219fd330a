//! The TLS decisions of an outbound delivery to one host: whether TLS is
//! required, whether the host's certificate is checked against the web PKI,
//! what a DANE lookup leads to, and what the outcome of STARTTLS leads to,
//! each with the failure to record in the TLS report, where there is one.
//! The lookups, the handshake and the report writing are the caller's.

use vstd::prelude::*;
use crate::dane::Tlsa;
use crate::outbound::{from_starttls_error, from_tls_error, SmtpError, SmtpErrorKind};
use crate::queue::{DeliveryStatus, Error, ErrorDetails, Response, Status, MAIL_REQUIRETLS};
use crate::text::{decimal, push_decimal, push_str};
use crate::tls_report::TlsResultType;

verus! {

/// Whether a delivery to a host must use TLS: the strategy requires it, the
/// message asked for it, or an MTA-STS or DANE policy applies.
pub open spec fn tls_required(strategy_requires: bool, message_flags: u64, has_sts: bool, has_dane: bool) -> bool {
    strategy_requires || message_flags & MAIL_REQUIRETLS != 0 || has_sts || has_dane
}

/// Whether a delivery to a host must use TLS (see [`tls_required`]).
pub fn is_strict_tls(strategy_requires: bool, message_flags: u64, has_sts: bool, has_dane: bool) -> (r: bool)
    ensures
        r == tls_required(strategy_requires, message_flags, has_sts, has_dane),
{
    strategy_requires || (message_flags & MAIL_REQUIRETLS) != 0 || has_sts || has_dane
}

/// Whether the host's certificate is accepted without a web PKI check: the
/// strategy or the host allows invalid certificates, or a DANE policy names
/// the end entity (which allows a name mismatch, RFC 7671, section 5.1).
pub fn skips_pki_check(strategy_allows_invalid: bool, host_allows_invalid: bool, dane: Option<&Tlsa>) -> (r: bool)
    ensures
        r == (strategy_allows_invalid || host_allows_invalid || (dane is Some && dane->Some_0.has_end_entities)),
{
    strategy_allows_invalid || host_allows_invalid || match dane {
        Some(t) => t.has_end_entities,
        None => false,
    }
}

/// A failure to record in the TLS report: its result type and reason.
pub struct TlsReportFailure {
    pub result_type: TlsResultType,
    pub reason: String,
}

/// What a TLSA lookup for a host found: records (proven by DNSSEC), an
/// answer that is not signed, no records, or a failure with the status it
/// maps to.
pub enum TlsaLookupOutcome {
    Found(Tlsa),
    NotSigned,
    NotFound,
    Failed(DeliveryStatus),
}

/// What a delivery does after the TLSA lookup of a host.
pub enum DaneStep {
    /// Authenticate the host with these records.
    Use(Tlsa),
    /// Go on without DANE.
    Skip,
    /// Give up on this host with the status.
    NextHost(DeliveryStatus),
}

/// Whether a status is a permanent DANE failure of a host for a reason.
pub open spec fn is_dane_refusal(s: DeliveryStatus, host: Seq<char>, reason: Seq<char>) -> bool {
    s is PermanentFailure && s->PermanentFailure_0.entity@ == host && s->PermanentFailure_0.details is DaneError
        && s->PermanentFailure_0.details->DaneError_0@ == reason
}

/// Whether a step gives up on the host with a DANE refusal for a reason.
pub open spec fn refuses_host(step: DaneStep, host: Seq<char>, reason: Seq<char>) -> bool {
    match step {
        DaneStep::NextHost(s) => is_dane_refusal(s, host, reason),
        _ => false,
    }
}

/// Whether a status is the one that a refused STARTTLS gives (see
/// [`from_starttls_error`]).
pub open spec fn starttls_refusal(s: DeliveryStatus, host: Seq<char>, response: Option<Response>) -> bool {
    match response {
        Some(resp) => {
            let permanent = crate::queue::severity_of(resp.code) == crate::queue::Severity::PermanentNegativeCompletion;
            let d = if permanent { s->PermanentFailure_0 } else { s->TemporaryFailure_0 };
            &&& (permanent ==> s is PermanentFailure)
            &&& (!permanent ==> s is TemporaryFailure)
            &&& d.entity@ == host
            &&& d.details is UnexpectedResponse
            &&& d.details->UnexpectedResponse_0.command@ == "STARTTLS"@
            &&& d.details->UnexpectedResponse_0.response == resp
        },
        None => s is PermanentFailure && s->PermanentFailure_0.entity@ == host
            && s->PermanentFailure_0.details is TlsError
            && s->PermanentFailure_0.details->TlsError_0@ == "STARTTLS not advertised by host."@,
    }
}

/// Whether STARTTLS gives up on the host with the status of the refusal.
pub open spec fn gives_up(next: TlsNext, host: Seq<char>, response: Option<Response>) -> bool {
    match next {
        TlsNext::NextHost(s) => starttls_refusal(s, host, response),
        _ => false,
    }
}

/// Whether a report failure has a result type and reason.
pub open spec fn is_report(f: Option<TlsReportFailure>, t: TlsResultType, reason: Seq<char>) -> bool {
    f is Some && f->Some_0.result_type == t && f->Some_0.reason@ == reason
}

fn dane_refusal(host: &str, reason: &str) -> (r: DeliveryStatus)
    ensures
        is_dane_refusal(r, host@, reason@),
{
    Status::PermanentFailure(ErrorDetails { entity: String::from_str(host), details: Error::DaneError(String::from_str(reason)) })
}

fn report(t: TlsResultType, reason: &str) -> (r: Option<TlsReportFailure>)
    ensures
        is_report(r, t, reason@),
{
    Some(TlsReportFailure { result_type: t, reason: String::from_str(reason) })
}

/// What the TLSA lookup of host `host` leads to when DANE is tried, and the
/// failure to report: records that name the end entity are used; records
/// that do not are reported invalid, and refuse the host when DANE is
/// required (`strict`); an unsigned answer or no records refuse the host,
/// reported as DANE required, only when DANE is required; a failed lookup
/// gives up on the host with its status only when DANE is required. Where
/// DANE is not required, the delivery goes on without it.
pub fn dane_policy_step(host: &str, outcome: TlsaLookupOutcome, strict: bool) -> (r: (DaneStep, Option<TlsReportFailure>))
    ensures
        match outcome {
            TlsaLookupOutcome::Found(t) => if t.has_end_entities {
                r.0 == DaneStep::Use(t) && r.1 is None
            } else {
                &&& is_report(r.1, TlsResultType::TlsaInvalid, "Invalid TLSA record."@)
                &&& strict ==> refuses_host(r.0, host@, "No valid TLSA records were found"@)
                &&& !strict ==> r.0 is Skip
            },
            TlsaLookupOutcome::NotSigned => if strict {
                &&& r.0 matches DaneStep::NextHost(s) && is_dane_refusal(s, host@, "No TLSA DNSSEC records found"@)
                &&& is_report(r.1, TlsResultType::DaneRequired, "No TLSA DNSSEC records found."@)
            } else {
                r.0 is Skip && r.1 is None
            },
            TlsaLookupOutcome::NotFound => if strict {
                &&& r.0 matches DaneStep::NextHost(s) && is_dane_refusal(s, host@, "No TLSA records found"@)
                &&& is_report(r.1, TlsResultType::DaneRequired, "No TLSA records found for MX."@)
            } else {
                r.0 is Skip && r.1 is None
            },
            TlsaLookupOutcome::Failed(status) => if strict {
                r.0 == DaneStep::NextHost(status) && r.1 is None
            } else {
                r.0 is Skip && r.1 is None
            },
        },
{
    match outcome {
        TlsaLookupOutcome::Found(t) => {
            if t.has_end_entities {
                (DaneStep::Use(t), None)
            } else {
                let rep = report(TlsResultType::TlsaInvalid, "Invalid TLSA record.");
                if strict {
                    (DaneStep::NextHost(dane_refusal(host, "No valid TLSA records were found")), rep)
                } else {
                    (DaneStep::Skip, rep)
                }
            }
        },
        TlsaLookupOutcome::NotSigned => {
            if strict {
                (
                    DaneStep::NextHost(dane_refusal(host, "No TLSA DNSSEC records found")),
                    report(TlsResultType::DaneRequired, "No TLSA DNSSEC records found."),
                )
            } else {
                (DaneStep::Skip, None)
            }
        },
        TlsaLookupOutcome::NotFound => {
            if strict {
                (
                    DaneStep::NextHost(dane_refusal(host, "No TLSA records found")),
                    report(TlsResultType::DaneRequired, "No TLSA records found for MX."),
                )
            } else {
                (DaneStep::Skip, None)
            }
        },
        TlsaLookupOutcome::Failed(status) => {
            if strict {
                (DaneStep::NextHost(status), None)
            } else {
                (DaneStep::Skip, None)
            }
        },
    }
}

/// The text of a reply as a report gives it.
pub open spec fn response_text(r: Response) -> Seq<char> {
    "Code: "@ + decimal(r.code as nat) + ", Enhanced code: "@ + decimal(r.esc[0] as nat) + "."@ + decimal(
        r.esc[1] as nat,
    ) + "."@ + decimal(r.esc[2] as nat) + ", Message: "@ + r.message@
}

impl Response {
    /// The text of the reply as a report gives it.
    pub fn report_text(&self) -> (r: String)
        ensures
            r@ == response_text(*self),
    {
        let mut s = String::from_str("Code: ");
        push_decimal(&mut s, self.code as u64);
        push_str(&mut s, ", Enhanced code: ");
        push_decimal(&mut s, self.esc[0] as u64);
        push_str(&mut s, ".");
        push_decimal(&mut s, self.esc[1] as u64);
        push_str(&mut s, ".");
        push_decimal(&mut s, self.esc[2] as u64);
        push_str(&mut s, ", Message: ");
        push_str(&mut s, self.message.as_str());
        proof {
            reveal_strlit("Code: ");
            reveal_strlit(", Enhanced code: ");
            reveal_strlit(".");
            reveal_strlit(", Message: ");
        }
        assert(s@ =~= response_text(*self));
        s
    }
}

/// How STARTTLS with a host went: the handshake succeeded (with the status
/// of a failed DANE check of its certificates, where one failed), the host
/// does not offer it (with its reply to the command, where it refused it),
/// or it failed.
pub enum StartTlsOutcome {
    Success { dane_failure: Option<DeliveryStatus> },
    Unavailable(Option<Response>),
    Error(SmtpError),
}

/// What a delivery does after STARTTLS.
pub enum TlsNext {
    /// Deliver over the encrypted connection.
    DeliverTls,
    /// Deliver over the plain connection.
    DeliverPlain,
    /// Give up on this host with the status.
    NextHost(DeliveryStatus),
}

/// What STARTTLS with host `host` leads to, and what the TLS report
/// records (a success, a failure, or nothing).
pub struct StartTlsDecision {
    pub next: TlsNext,
    pub report_success: bool,
    pub report_failure: Option<TlsReportFailure>,
}

/// Whether a failed TLS handshake is a permanent failure.
pub open spec fn tls_error_permanent(k: SmtpErrorKind) -> bool {
    !(k is Timeout || k is Tls || k is Io)
}

/// The text of a failed TLS handshake.
pub open spec fn tls_error_text(k: SmtpErrorKind) -> Seq<char> {
    match k {
        SmtpErrorKind::InvalidTlsName => "Invalid hostname"@,
        SmtpErrorKind::Timeout => "TLS handshake timed out"@,
        SmtpErrorKind::Tls(t) => "Handshake failed: "@ + t@,
        SmtpErrorKind::Io(t) => "I/O error: "@ + t@,
        _ => "Other TLS error"@,
    }
}

/// Whether a status is a TLS failure of a host with a text, permanent or
/// temporary.
pub open spec fn is_tls_failure(s: DeliveryStatus, permanent: bool, host: Seq<char>, text: Seq<char>) -> bool {
    let d = if permanent { s->PermanentFailure_0 } else { s->TemporaryFailure_0 };
    &&& (permanent ==> s is PermanentFailure)
    &&& (!permanent ==> s is TemporaryFailure)
    &&& d.entity@ == host
    &&& d.details is TlsError
    &&& d.details->TlsError_0@ == text
}

/// The report reason of a refused STARTTLS.
pub open spec fn unavailable_reason(response: Option<Response>) -> Seq<char> {
    match response {
        Some(r) => response_text(r),
        None => "STARTTLS was not advertised by host"@,
    }
}

/// What STARTTLS leads to: a handshake whose certificates fail the DANE
/// check gives up on the host, reported as a validation failure; else it
/// delivers over TLS and reports success. A host without STARTTLS is
/// reported and, when TLS is required (`strict`), given up with the status
/// of the refusal; else the delivery goes on in plain text. A failed
/// handshake gives up on the host with its TLS status, made temporary when
/// TLS is not required, and a TLS error is reported as an untrusted
/// certificate.
pub fn starttls_decision(host: &str, outcome: StartTlsOutcome, strict: bool) -> (r: StartTlsDecision)
    ensures
        match outcome {
            StartTlsOutcome::Success { dane_failure } => match dane_failure {
                Some(s) => r.next == TlsNext::NextHost(s) && !r.report_success && is_report(
                    r.report_failure,
                    TlsResultType::ValidationFailure,
                    "No matching certificates found."@,
                ),
                None => r.next is DeliverTls && r.report_success && r.report_failure is None,
            },
            StartTlsOutcome::Unavailable(response) => {
                &&& !r.report_success
                &&& is_report(r.report_failure, TlsResultType::StartTlsNotSupported, unavailable_reason(response))
                &&& strict ==> gives_up(r.next, host@, response)
                &&& !strict ==> r.next is DeliverPlain
            },
            StartTlsOutcome::Error(err) => {
                &&& !r.report_success
                &&& match err.kind {
                    SmtpErrorKind::Tls(t) => is_report(r.report_failure, TlsResultType::CertificateNotTrusted, t@),
                    _ => r.report_failure is None,
                }
                &&& r.next matches TlsNext::NextHost(s) && is_tls_failure(
                    s,
                    strict && tls_error_permanent(err.kind),
                    host@,
                    tls_error_text(err.kind),
                )
            },
        },
{
    match outcome {
        StartTlsOutcome::Success { dane_failure } => match dane_failure {
            Some(s) => StartTlsDecision {
                next: TlsNext::NextHost(s),
                report_success: false,
                report_failure: report(TlsResultType::ValidationFailure, "No matching certificates found."),
            },
            None => StartTlsDecision { next: TlsNext::DeliverTls, report_success: true, report_failure: None },
        },
        StartTlsOutcome::Unavailable(response) => {
            let reason = match &response {
                Some(resp) => resp.report_text(),
                None => String::from_str("STARTTLS was not advertised by host"),
            };
            let failure = Some(TlsReportFailure { result_type: TlsResultType::StartTlsNotSupported, reason });
            if strict {
                StartTlsDecision { next: TlsNext::NextHost(from_starttls_error(host, response)), report_success: false, report_failure: failure }
            } else {
                StartTlsDecision { next: TlsNext::DeliverPlain, report_success: false, report_failure: failure }
            }
        },
        StartTlsOutcome::Error(err) => {
            let failure = match &err.kind {
                SmtpErrorKind::Tls(t) => Some(TlsReportFailure { result_type: TlsResultType::CertificateNotTrusted, reason: t.clone() }),
                _ => None,
            };
            let status = from_tls_error(host, err);
            let status = if strict {
                status
            } else {
                status.into_temporary()
            };
            StartTlsDecision { next: TlsNext::NextHost(status), report_success: false, report_failure: failure }
        },
    }
}

} // verus!
