//! Delivery status notifications (RFC 3464): the per-recipient status
//! fields and the human readable report text.

use vstd::prelude::*;
use vstd::string::StrSliceExecFns;
use crate::text::{decimal, digit_char, push_char, push_decimal, push_str};
use crate::queue::{
    DeliveryStatus, Error, ErrorDetails, HostResponse, Message, MessageWrapper, Recipient, Response,
    Status, UnexpectedResponse, RCPT_DSN_SENT, RCPT_NOTIFY_DELAY, RCPT_NOTIFY_FAILURE,
    RCPT_NOTIFY_NEVER, RCPT_NOTIFY_SUCCESS, expiration_of, expiry_fits, expiries_fit,
};
use crate::external::{format_rfc822, rfc822_date, str_from_utf8};
use vstd::utf8::{decode_utf8, valid_utf8};
use crate::delivery::QueueSettings;

verus! {

/// `true` for the characters that a reply text keeps in a report.
pub open spec fn kept_in_report(c: char) -> bool {
    c != '\n' && c != '\r'
}

/// A reply text without its line breaks.
pub open spec fn strip_crlf(s: Seq<char>) -> Seq<char>
    decreases s.len(),
{
    if s.len() == 0 {
        Seq::empty()
    } else {
        let p = strip_crlf(s.drop_last());
        if kept_in_report(s.last()) {
            p.push(s.last())
        } else {
            p
        }
    }
}

/// `a.b.c` for three numbers.
pub open spec fn dotted(a: nat, b: nat, c: nat) -> Seq<char> {
    decimal(a) + "."@ + decimal(b) + "."@ + decimal(c)
}

/// The enhanced status code of a reply, or one derived from its code.
pub open spec fn status_code_text(r: Response) -> Seq<char> {
    if r.esc[0] > 0 {
        dotted(r.esc[0] as nat, r.esc[1] as nat, r.esc[2] as nat)
    } else {
        dotted((r.code / 100) as nat, ((r.code / 10) % 10) as nat, (r.code % 10) as nat)
    }
}

/// The `Diagnostic-Code` field of a reply.
pub open spec fn diagnostic_text(r: Response) -> Seq<char> {
    "Diagnostic-Code: smtp;"@ + decimal(r.code as nat) + " "@ + strip_crlf(r.message@) + "\r\n"@
}

/// The code part of a report line: `code (a.b.c) '`, the reply text and `')`.
pub open spec fn code_and_text(r: Response) -> Seq<char> {
    decimal(r.code as nat) + " ("@ + dotted(r.esc[0] as nat, r.esc[1] as nat, r.esc[2] as nat)
        + ") '"@ + strip_crlf(r.message@) + "')\r\n"@
}

/// Report line for a recipient that a host accepted.
pub open spec fn delivered_text(h: HostResponse, addr: Seq<char>) -> Seq<char> {
    "<"@ + addr + "> (delivered to '"@ + h.hostname@ + "' with code "@ + code_and_text(h.response)
}

/// Report line for a recipient that a host rejected.
pub open spec fn rejected_text(u: UnexpectedResponse, host: Seq<char>, addr: Seq<char>) -> Seq<char> {
    "<"@ + addr + "> (host '"@ + host + "' rejected "@ + (if u.command@.len() > 0 {
        "command '"@ + u.command@ + "'"@
    } else {
        "transaction"@
    }) + " with code "@ + code_and_text(u.response)
}

/// Report line for a recipient whose delivery failed.
pub open spec fn failure_text(e: ErrorDetails, addr: Seq<char>) -> Seq<char> {
    let entity = e.entity@;
    let a = "<"@ + addr + "> ("@;
    match e.details {
        Error::UnexpectedResponse(u) => rejected_text(u, entity, addr),
        Error::DnsError(m) => a + "failed to lookup '"@ + entity + "': "@ + m@ + ")\r\n"@,
        Error::ConnectionError(m) => a + "connection to '"@ + entity + "' failed: "@ + m@ + ")\r\n"@,
        Error::TlsError(m) => a + "TLS error from '"@ + entity + "': "@ + m@ + ")\r\n"@,
        Error::DaneError(m) => a + "DANE failed to authenticate '"@ + entity + "': "@ + m@ + ")\r\n"@,
        Error::MtaStsError(m) => a + "MTA-STS failed to authenticate '"@ + entity + "': "@ + m@
            + ")\r\n"@,
        Error::RateLimited => a + "rate limited)\r\n"@,
        Error::ConcurrencyLimited => a + "too many concurrent connections to remote server)\r\n"@,
        Error::Io(m) => a + "queue error: "@ + m@ + ")\r\n"@,
    }
}

/// The `Action` field of a status.
pub open spec fn action_text<T, E>(s: Status<T, E>) -> Seq<char> {
    "Action: "@ + match s {
        Status::Completed(_) => "delivered"@,
        Status::PermanentFailure(_) => "failed"@,
        _ => "delayed"@,
    } + "\r\n"@
}

/// The `Status` field of a status.
pub open spec fn status_field_text(s: DeliveryStatus) -> Seq<char> {
    "Status: "@ + match s {
        Status::Completed(h) => status_code_text(h.response),
        Status::TemporaryFailure(e) => match e.details {
            Error::UnexpectedResponse(u) => status_code_text(u.response),
            _ => "4.0.0"@,
        },
        Status::PermanentFailure(e) => match e.details {
            Error::UnexpectedResponse(u) => status_code_text(u.response),
            _ => "5.0.0"@,
        },
        Status::Scheduled => "4.0.0"@,
    } + "\r\n"@
}

/// `true` for the failures that name the remote host in the report.
pub open spec fn names_remote_mta(e: Error) -> bool {
    e is UnexpectedResponse || e is ConnectionError || e is TlsError || e is DaneError
}

/// The `Remote-MTA` field of a status, when it has one.
pub open spec fn remote_mta_text(s: DeliveryStatus) -> Seq<char> {
    match s {
        Status::Completed(h) => "Remote-MTA: dns;"@ + h.hostname@ + "\r\n"@,
        Status::TemporaryFailure(e) => if names_remote_mta(e.details) {
            "Remote-MTA: dns;"@ + e.entity@ + "\r\n"@
        } else {
            Seq::empty()
        },
        Status::PermanentFailure(e) => if names_remote_mta(e.details) {
            "Remote-MTA: dns;"@ + e.entity@ + "\r\n"@
        } else {
            Seq::empty()
        },
        Status::Scheduled => Seq::empty(),
    }
}

/// The `Diagnostic-Code` field of a status, when it has one.
pub open spec fn status_diagnostic_text(s: DeliveryStatus) -> Seq<char> {
    match s {
        Status::TemporaryFailure(e) => match e.details {
            Error::UnexpectedResponse(u) => diagnostic_text(u.response),
            _ => Seq::empty(),
        },
        Status::PermanentFailure(e) => match e.details {
            Error::UnexpectedResponse(u) => diagnostic_text(u.response),
            _ => Seq::empty(),
        },
        _ => Seq::empty(),
    }
}

/// All per-recipient status fields of a status.
pub open spec fn status_fields_text(s: DeliveryStatus) -> Seq<char> {
    action_text(s) + status_field_text(s) + status_diagnostic_text(s) + remote_mta_text(s)
}

/// The recipient fields of a report entry.
pub open spec fn recipient_fields_text(r: Recipient) -> Seq<char> {
    (match r.orcpt {
        Some(o) => "Original-Recipient: rfc822;"@ + o@ + "\r\n"@,
        None => Seq::empty(),
    }) + "Final-Recipient: rfc822;"@ + r.address@ + "\r\n"@
}

fn push_dotted(dsn: &mut String, a: u64, b: u64, c: u64)
    ensures
        final(dsn)@ == old(dsn)@ + dotted(a as nat, b as nat, c as nat),
{
    push_decimal(dsn, a);
    push_char(dsn, '.');
    push_decimal(dsn, b);
    push_char(dsn, '.');
    push_decimal(dsn, c);
    proof {
        reveal_strlit(".");
    }
    assert(final(dsn)@ =~= old(dsn)@ + dotted(a as nat, b as nat, c as nat));
}

impl Response {
    /// Appends the reply text without its line breaks.
    pub fn write_response(&self, dsn: &mut String)
        ensures
            final(dsn)@ == old(dsn)@ + strip_crlf(self.message@),
    {
        let msg = self.message.as_str();
        let n: usize = msg.unicode_len();
        let mut i: usize = 0;
        while i < n
            invariant
                n == msg@.len(),
                msg@ == self.message@,
                i <= n,
                dsn@ == old(dsn)@ + strip_crlf(msg@.take(i as int)),
            decreases n - i,
        {
            let ch = msg.get_char(i);
            assert(msg@.take(i + 1).drop_last() =~= msg@.take(i as int));
            if ch != '\n' && ch != '\r' {
                push_char(dsn, ch);
            }
            i = i + 1;
        }
        assert(msg@.take(n as int) =~= msg@);
    }

    /// Appends the enhanced status code of the reply.
    pub fn write_dsn_status(&self, dsn: &mut String)
        ensures
            final(dsn)@ == old(dsn)@ + status_code_text(*self),
    {
        if self.esc[0] > 0 {
            push_dotted(dsn, self.esc[0] as u64, self.esc[1] as u64, self.esc[2] as u64);
        } else {
            push_dotted(
                dsn,
                (self.code / 100) as u64,
                ((self.code / 10) % 10) as u64,
                (self.code % 10) as u64,
            );
        }
    }

    /// Appends the `Diagnostic-Code` field of the reply.
    pub fn write_dsn_diagnostic(&self, dsn: &mut String)
        ensures
            final(dsn)@ == old(dsn)@ + diagnostic_text(*self),
    {
        push_str(dsn, "Diagnostic-Code: smtp;");
        push_decimal(dsn, self.code as u64);
        push_str(dsn, " ");
        self.write_response(dsn);
        push_str(dsn, "\r\n");
        assert(final(dsn)@ =~= old(dsn)@ + diagnostic_text(*self));
    }

    fn write_code_and_text(&self, dsn: &mut String)
        ensures
            final(dsn)@ == old(dsn)@ + code_and_text(*self),
    {
        push_decimal(dsn, self.code as u64);
        push_str(dsn, " (");
        push_dotted(dsn, self.esc[0] as u64, self.esc[1] as u64, self.esc[2] as u64);
        push_str(dsn, ") '");
        self.write_response(dsn);
        push_str(dsn, "')\r\n");
        assert(final(dsn)@ =~= old(dsn)@ + code_and_text(*self));
    }
}

impl HostResponse {
    /// Appends the report line of a recipient that this host accepted.
    pub fn write_dsn_text(&self, addr: &str, dsn: &mut String)
        ensures
            final(dsn)@ == old(dsn)@ + delivered_text(*self, addr@),
    {
        push_str(dsn, "<");
        push_str(dsn, addr);
        push_str(dsn, "> (delivered to '");
        push_str(dsn, self.hostname.as_str());
        push_str(dsn, "' with code ");
        self.response.write_code_and_text(dsn);
        assert(final(dsn)@ =~= old(dsn)@ + delivered_text(*self, addr@));
    }
}

impl UnexpectedResponse {
    /// Appends the report line of a recipient that `host` rejected.
    pub fn write_dsn_text(&self, host: &str, addr: &str, dsn: &mut String)
        ensures
            final(dsn)@ == old(dsn)@ + rejected_text(*self, host@, addr@),
    {
        push_str(dsn, "<");
        push_str(dsn, addr);
        push_str(dsn, "> (host '");
        push_str(dsn, host);
        push_str(dsn, "' rejected ");
        if self.command.as_str().unicode_len() > 0 {
            push_str(dsn, "command '");
            push_str(dsn, self.command.as_str());
            push_str(dsn, "'");
        } else {
            push_str(dsn, "transaction");
        }
        push_str(dsn, " with code ");
        self.response.write_code_and_text(dsn);
        assert(final(dsn)@ =~= old(dsn)@ + rejected_text(*self, host@, addr@));
    }
}

impl ErrorDetails {
    /// Appends the report line of a recipient whose delivery failed.
    pub fn write_dsn_text(&self, addr: &str, dsn: &mut String)
        ensures
            final(dsn)@ == old(dsn)@ + failure_text(*self, addr@),
    {
        let entity = self.entity.as_str();
        match &self.details {
            Error::UnexpectedResponse(response) => {
                response.write_dsn_text(entity, addr, dsn);
            },
            _ => {
                push_str(dsn, "<");
                push_str(dsn, addr);
                push_str(dsn, "> (");
                match &self.details {
                    Error::DnsError(err) => {
                        push_str(dsn, "failed to lookup '");
                        push_str(dsn, entity);
                        push_str(dsn, "': ");
                        push_str(dsn, err.as_str());
                        push_str(dsn, ")\r\n");
                    },
                    Error::ConnectionError(details) => {
                        push_str(dsn, "connection to '");
                        push_str(dsn, entity);
                        push_str(dsn, "' failed: ");
                        push_str(dsn, details.as_str());
                        push_str(dsn, ")\r\n");
                    },
                    Error::TlsError(details) => {
                        push_str(dsn, "TLS error from '");
                        push_str(dsn, entity);
                        push_str(dsn, "': ");
                        push_str(dsn, details.as_str());
                        push_str(dsn, ")\r\n");
                    },
                    Error::DaneError(details) => {
                        push_str(dsn, "DANE failed to authenticate '");
                        push_str(dsn, entity);
                        push_str(dsn, "': ");
                        push_str(dsn, details.as_str());
                        push_str(dsn, ")\r\n");
                    },
                    Error::MtaStsError(details) => {
                        push_str(dsn, "MTA-STS failed to authenticate '");
                        push_str(dsn, entity);
                        push_str(dsn, "': ");
                        push_str(dsn, details.as_str());
                        push_str(dsn, ")\r\n");
                    },
                    Error::RateLimited => {
                        push_str(dsn, "rate limited)\r\n");
                    },
                    Error::ConcurrencyLimited => {
                        push_str(dsn, "too many concurrent connections to remote server)\r\n");
                    },
                    Error::Io(err) => {
                        push_str(dsn, "queue error: ");
                        push_str(dsn, err.as_str());
                        push_str(dsn, ")\r\n");
                    },
                    Error::UnexpectedResponse(_) => {},
                }
            },
        }
        assert(final(dsn)@ =~= old(dsn)@ + failure_text(*self, addr@));
    }
}

impl<T, E> Status<T, E> {
    /// Appends the `Action` field.
    pub fn write_dsn_action(&self, dsn: &mut String)
        ensures
            final(dsn)@ == old(dsn)@ + action_text(*self),
    {
        push_str(dsn, "Action: ");
        push_str(
            dsn,
            match self {
                Status::Completed(_) => "delivered",
                Status::PermanentFailure(_) => "failed",
                Status::TemporaryFailure(_) | Status::Scheduled => "delayed",
            },
        );
        push_str(dsn, "\r\n");
        assert(final(dsn)@ =~= old(dsn)@ + action_text(*self));
    }
}

impl Status<HostResponse, ErrorDetails> {
    /// Appends every per-recipient status field.
    pub fn write_dsn(&self, dsn: &mut String)
        ensures
            final(dsn)@ == old(dsn)@ + status_fields_text(*self),
    {
        self.write_dsn_action(dsn);
        self.write_dsn_status(dsn);
        self.write_dsn_diagnostic(dsn);
        self.write_dsn_remote_mta(dsn);
        assert(final(dsn)@ =~= old(dsn)@ + status_fields_text(*self));
    }

    /// Appends the `Status` field.
    pub fn write_dsn_status(&self, dsn: &mut String)
        ensures
            final(dsn)@ == old(dsn)@ + status_field_text(*self),
    {
        push_str(dsn, "Status: ");
        match self {
            Status::Completed(response) => {
                response.response.write_dsn_status(dsn);
            },
            Status::TemporaryFailure(err) => {
                if let Error::UnexpectedResponse(response) = &err.details {
                    response.response.write_dsn_status(dsn);
                } else {
                    push_str(dsn, "4.0.0");
                }
            },
            Status::PermanentFailure(err) => {
                if let Error::UnexpectedResponse(response) = &err.details {
                    response.response.write_dsn_status(dsn);
                } else {
                    push_str(dsn, "5.0.0");
                }
            },
            Status::Scheduled => {
                push_str(dsn, "4.0.0");
            },
        }
        push_str(dsn, "\r\n");
        assert(final(dsn)@ =~= old(dsn)@ + status_field_text(*self));
    }

    /// Appends the `Remote-MTA` field, for the statuses that name a host.
    pub fn write_dsn_remote_mta(&self, dsn: &mut String)
        ensures
            final(dsn)@ == old(dsn)@ + remote_mta_text(*self),
    {
        match self {
            Status::Completed(response) => {
                push_str(dsn, "Remote-MTA: dns;");
                push_str(dsn, response.hostname.as_str());
                push_str(dsn, "\r\n");
            },
            Status::TemporaryFailure(err) | Status::PermanentFailure(err) => {
                let named = match &err.details {
                    Error::UnexpectedResponse(_)
                    | Error::ConnectionError(_)
                    | Error::TlsError(_)
                    | Error::DaneError(_) => true,
                    _ => false,
                };
                if named {
                    push_str(dsn, "Remote-MTA: dns;");
                    push_str(dsn, err.entity.as_str());
                    push_str(dsn, "\r\n");
                }
            },
            Status::Scheduled => {},
        }
        assert(final(dsn)@ =~= old(dsn)@ + remote_mta_text(*self));
    }

    /// Appends the `Diagnostic-Code` field, for failures with a reply.
    pub fn write_dsn_diagnostic(&self, dsn: &mut String)
        ensures
            final(dsn)@ == old(dsn)@ + status_diagnostic_text(*self),
    {
        match self {
            Status::PermanentFailure(err) | Status::TemporaryFailure(err) => {
                if let Error::UnexpectedResponse(response) = &err.details {
                    response.response.write_dsn_diagnostic(dsn);
                }
            },
            _ => {},
        }
        assert(final(dsn)@ =~= old(dsn)@ + status_diagnostic_text(*self));
    }
}

impl Recipient {
    /// Appends the recipient fields of a report entry.
    pub fn write_dsn(&self, dsn: &mut String)
        ensures
            final(dsn)@ == old(dsn)@ + recipient_fields_text(*self),
    {
        if let Some(orcpt) = &self.orcpt {
            push_str(dsn, "Original-Recipient: rfc822;");
            push_str(dsn, orcpt.as_str());
            push_str(dsn, "\r\n");
        }
        push_str(dsn, "Final-Recipient: rfc822;");
        push_str(dsn, self.address.as_str());
        push_str(dsn, "\r\n");
        assert(final(dsn)@ =~= old(dsn)@ + recipient_fields_text(*self));
    }
}

// ---------------------------------------------------------------------------
// Building a report
// ---------------------------------------------------------------------------

/// Bytes of the original message that a report quotes at most.
pub const MAX_HEADER_SIZE: usize = 4096;

/// The `Will-Retry-Until` field of a recipient that expires by time, while
/// that time is still ahead.
pub open spec fn retry_until_text(r: Recipient, created: u64, now: u64) -> Seq<char> {
    match expiration_of(r, created) {
        Some(e) => if e > now {
            "Will-Retry-Until: "@ + rfc822_date(e) + "\r\n"@
        } else {
            Seq::empty()
        },
        None => Seq::empty(),
    }
}

/// The report fields that precede the recipient entries.
pub open spec fn dsn_headers_text(m: Message, reporting_mta: Seq<char>) -> Seq<char> {
    "Reporting-MTA: dns;"@ + reporting_mta + "\r\n"@ + "Arrival-Date: "@ + rfc822_date(m.created)
        + "\r\n"@ + (match m.env_id {
        Some(id) => "Original-Envelope-Id: "@ + id@ + "\r\n"@,
        None => Seq::empty(),
    }) + "\r\n"@
}

/// Which part of a report a recipient goes to.
pub enum DsnSection {
    NoEntry,
    Success,
    Delay,
    Failure,
}

/// Whether a recipient is left out of reports: one was already sent, or it
/// asked for none.
pub open spec fn dsn_done(r: Recipient) -> bool {
    r.flags & (RCPT_DSN_SENT | RCPT_NOTIFY_NEVER) != 0
}

/// The part of a report that a recipient goes to at `now`.
pub open spec fn dsn_section(r: Recipient, now: u64) -> DsnSection {
    if dsn_done(r) {
        DsnSection::NoEntry
    } else {
        match r.status {
            Status::Completed(_) => if r.flags & RCPT_NOTIFY_SUCCESS != 0 {
                DsnSection::Success
            } else {
                DsnSection::NoEntry
            },
            Status::PermanentFailure(_) => if r.flags & RCPT_NOTIFY_FAILURE != 0 {
                DsnSection::Failure
            } else {
                DsnSection::NoEntry
            },
            _ => if r.notify.due <= now && r.flags & RCPT_NOTIFY_DELAY != 0 {
                DsnSection::Delay
            } else {
                DsnSection::NoEntry
            },
        }
    }
}

/// The flags of a recipient after a report: a final status gets its report
/// marked as sent, whether or not the recipient asked for it.
pub open spec fn dsn_flags(r: Recipient) -> u64 {
    if !dsn_done(r) && (r.status is Completed || r.status is PermanentFailure) {
        r.flags | RCPT_DSN_SENT
    } else {
        r.flags
    }
}

/// The recipients after a report marked the final statuses it covered.
pub open spec fn dsn_marked(rs: Seq<Recipient>) -> Seq<Recipient> {
    rs.map_values(|r: Recipient| Recipient { flags: dsn_flags(r), ..r })
}

proof fn lemma_marked_final_left_out(r: Recipient, later: u64)
    requires
        r.status is Completed || r.status is PermanentFailure,
    ensures
        dsn_section(Recipient { flags: dsn_flags(r), ..r }, later) is NoEntry,
{
    let f = r.flags;
    assert(RCPT_DSN_SENT == 0x1_0000_0000u64) by (bit_vector);
    assert(RCPT_NOTIFY_NEVER == 8u64) by (bit_vector);
    assert((f | 0x1_0000_0000u64) & (0x1_0000_0000u64 | 8u64) != 0) by (bit_vector);
    let m = Recipient { flags: dsn_flags(r), ..r };
    assert(dsn_done(m));
}

/// A final status is reported once: after a report marked the recipients
/// it covered, a later report of the same recipients, at any time, holds
/// no delivered and no failed recipient.
pub proof fn lemma_final_status_reported_once(rs: Seq<Recipient>, created: u64, later: u64)
    ensures
        dsn_texts(dsn_marked(rs), created, later).success.len() == 0,
        dsn_texts(dsn_marked(rs), created, later).failed.len() == 0,
    decreases rs.len(),
{
    if rs.len() > 0 {
        let m = dsn_marked(rs);
        assert(m.drop_last() =~= dsn_marked(rs.drop_last()));
        lemma_final_status_reported_once(rs.drop_last(), created, later);
        let r = rs.last();
        assert(m.last() == Recipient { flags: dsn_flags(r), ..r });
        if r.status is Completed || r.status is PermanentFailure {
            lemma_marked_final_left_out(r, later);
        }
    }
}

/// A recipient's line in the human readable part of a report.
pub open spec fn dsn_line(r: Recipient, now: u64) -> Seq<char> {
    match dsn_section(r, now) {
        DsnSection::Success => match r.status {
            Status::Completed(h) => delivered_text(h, r.address@),
            _ => Seq::empty(),
        },
        DsnSection::Delay => match r.status {
            Status::TemporaryFailure(e) => failure_text(e, r.address@),
            _ => "<"@ + r.address@ + "> ("@ + "too many concurrent connections to remote server)\r\n"@,
        },
        DsnSection::Failure => match r.status {
            Status::PermanentFailure(e) => failure_text(e, r.address@),
            _ => Seq::empty(),
        },
        DsnSection::NoEntry => Seq::empty(),
    }
}

/// A recipient's entry in the machine readable part of a report.
pub open spec fn dsn_entry(r: Recipient, created: u64, now: u64) -> Seq<char> {
    match dsn_section(r, now) {
        DsnSection::NoEntry => Seq::empty(),
        DsnSection::Delay => recipient_fields_text(r) + status_fields_text(r.status)
            + retry_until_text(r, created, now) + "\r\n"@,
        _ => recipient_fields_text(r) + status_fields_text(r.status) + "\r\n"@,
    }
}

/// The parts of a report gathered over the recipients: the lines of the
/// delivered, delayed and failed ones, and the recipient entries.
pub struct DsnTexts {
    pub success: Seq<char>,
    pub delay: Seq<char>,
    pub failed: Seq<char>,
    pub entries: Seq<char>,
}

/// The parts of a report over a list of recipients, in order.
pub open spec fn dsn_texts(rs: Seq<Recipient>, created: u64, now: u64) -> DsnTexts
    decreases rs.len(),
{
    if rs.len() == 0 {
        DsnTexts { success: Seq::empty(), delay: Seq::empty(), failed: Seq::empty(), entries: Seq::empty() }
    } else {
        let p = dsn_texts(rs.drop_last(), created, now);
        let r = rs.last();
        let line = dsn_line(r, now);
        let sec = dsn_section(r, now);
        DsnTexts {
            success: if sec is Success { p.success + line } else { p.success },
            delay: if sec is Delay { p.delay + line } else { p.delay },
            failed: if sec is Failure { p.failed + line } else { p.failed },
            entries: p.entries + dsn_entry(r, created, now),
        }
    }
}

/// The subject of a report with the given non-empty sections.
pub open spec fn dsn_subject(has_success: bool, has_delay: bool, has_failure: bool) -> Seq<char> {
    if has_success && !has_delay && !has_failure {
        "Successfully delivered message"@
    } else if has_delay && !has_success && !has_failure {
        "Warning: Delay in message delivery"@
    } else if has_failure && !has_success && !has_delay {
        "Failed to deliver message"@
    } else if has_success {
        "Partially delivered message"@
    } else {
        "Warning: Temporary and permanent failures during message delivery"@
    }
}

/// The opening sentence of a report with the given non-empty sections.
pub open spec fn dsn_intro(has_success: bool, has_delay: bool, has_failure: bool) -> Seq<char> {
    if has_success && !has_delay && !has_failure {
        "Your message has been successfully delivered to the following recipients:\r\n\r\n"@
    } else if has_delay && !has_success && !has_failure {
        "There was a temporary problem delivering your message to the following recipients:\r\n\r\n"@
    } else if has_failure && !has_success && !has_delay {
        "Your message could not be delivered to the following recipients:\r\n\r\n"@
    } else if has_success {
        "Your message has been partially delivered:\r\n\r\n"@
    } else {
        "Your message could not be delivered to some recipients:\r\n\r\n"@
    }
}

/// One section of the human readable part: a title when the report mixes
/// outcomes, the lines, and a blank line; nothing for an empty section.
pub open spec fn dsn_section_text(lines: Seq<char>, mixed: bool, title: Seq<char>) -> Seq<char> {
    if lines.len() == 0 {
        Seq::empty()
    } else {
        (if mixed { title } else { Seq::empty() }) + lines + "\r\n"@
    }
}

/// The human readable part of a report.
pub open spec fn dsn_body_text(success: Seq<char>, delay: Seq<char>, failed: Seq<char>) -> Seq<char> {
    let s = success.len() > 0;
    let d = delay.len() > 0;
    let f = failed.len() > 0;
    let mixed = (s && (d || f)) || (d && f);
    dsn_intro(s, d, f) + dsn_section_text(
        success,
        mixed,
        "    ----- Delivery to the following addresses was successful -----\r\n"@,
    ) + dsn_section_text(
        delay,
        mixed,
        "    ----- There was a temporary problem delivering to these addresses -----\r\n"@,
    ) + dsn_section_text(
        failed,
        mixed,
        "    ----- Delivery to the following addresses failed -----\r\n"@,
    )
}

/// A delivery status notification, before it is wrapped in a MIME message.
pub struct DsnReport {
    /// The subject of the notification.
    pub subject: String,
    /// The human readable part.
    pub text: String,
    /// The machine readable part (`message/delivery-status`).
    pub delivery_status: String,
    /// Whether it reports delayed recipients, whose next notification is
    /// then due to be scheduled.
    pub has_delay: bool,
}

/// Where the header block of a message ends, scanning from `i` with the
/// last significant byte `prev` and the end of the last line `last_lf`: after
/// the first empty line (carriage returns are ignored), or at the last line
/// end before a NUL byte or the end of the buffer.
pub open spec fn header_end(buf: Seq<u8>, i: int, prev: u8, last_lf: int) -> int
    decreases buf.len() - i,
{
    if i < 0 || i >= buf.len() {
        last_lf
    } else if buf[i] == 10u8 {
        if prev == 10u8 {
            i + 1
        } else {
            header_end(buf, i + 1, 10u8, i + 1)
        }
    } else if buf[i] == 13u8 {
        header_end(buf, i + 1, prev, last_lf)
    } else if buf[i] == 0u8 {
        last_lf
    } else {
        header_end(buf, i + 1, buf[i], last_lf)
    }
}

/// How many leading bytes of a message a report quotes: up to the end of
/// its header block, or all that was read when that end is not within the
/// first [`MAX_HEADER_SIZE`] bytes.
pub open spec fn header_excerpt_len(buf: Seq<u8>) -> int {
    let e = header_end(buf, 0, 0u8, buf.len() as int);
    if e < MAX_HEADER_SIZE {
        e
    } else {
        buf.len() as int
    }
}

/// `header_end` stays within the buffer.
pub proof fn lemma_header_end_bounds(buf: Seq<u8>, i: int, prev: u8, last_lf: int)
    requires
        0 <= i,
        0 <= last_lf <= buf.len(),
    ensures
        0 <= header_end(buf, i, prev, last_lf) <= buf.len(),
    decreases buf.len() - i,
{
    if i < buf.len() {
        if buf[i] == 10u8 {
            if prev != 10u8 {
                lemma_header_end_bounds(buf, i + 1, 10u8, i + 1);
            }
        } else if buf[i] == 13u8 {
            lemma_header_end_bounds(buf, i + 1, prev, last_lf);
        } else if buf[i] != 0u8 {
            lemma_header_end_bounds(buf, i + 1, buf[i], last_lf);
        }
    }
}

/// The number of leading bytes of a message that a report quotes.
pub fn header_excerpt(buf: &[u8]) -> (r: usize)
    ensures
        r == header_excerpt_len(buf@),
        r <= buf@.len(),
{
    let mut prev: u8 = 0;
    let mut last_lf: usize = buf.len();
    let mut i: usize = 0;
    proof {
        lemma_header_end_bounds(buf@, 0, 0u8, buf@.len() as int);
    }
    while i < buf.len()
        invariant
            i <= buf@.len(),
            last_lf <= buf@.len(),
            header_end(buf@, i as int, prev, last_lf as int) == header_end(
                buf@,
                0,
                0u8,
                buf@.len() as int,
            ),
        ensures
            last_lf <= buf@.len(),
            last_lf as int == header_end(buf@, 0, 0u8, buf@.len() as int),
        decreases buf.len() - i,
    {
        let ch = buf[i];
        if ch == 10u8 {
            last_lf = i + 1;
            if prev != 10u8 {
                prev = ch;
            } else {
                break;
            }
        } else if ch == 13u8 {
        } else if ch == 0u8 {
            break;
        } else {
            prev = ch;
        }
        i = i + 1;
    }
    proof {
        lemma_header_end_bounds(buf@, 0, 0u8, buf@.len() as int);
    }
    if last_lf < MAX_HEADER_SIZE {
        last_lf
    } else {
        buf.len()
    }
}

impl Recipient {
    /// Appends the `Will-Retry-Until` field while the recipient's expiry is ahead.
    pub fn write_dsn_will_retry_until(&self, created: u64, now: u64, dsn: &mut String)
        requires
            expiry_fits(*self, created),
        ensures
            final(dsn)@ == old(dsn)@ + retry_until_text(*self, created, now),
    {
        match self.expiration_time(created) {
            Some(expires) => {
                if expires > now {
                    push_str(dsn, "Will-Retry-Until: ");
                    let date = format_rfc822(expires);
                    push_str(dsn, date.as_str());
                    push_str(dsn, "\r\n");
                }
            },
            None => {},
        }
        assert(final(dsn)@ =~= old(dsn)@ + retry_until_text(*self, created, now));
    }
}

impl Message {
    /// Appends the report fields that precede the recipient entries.
    pub fn write_dsn_headers(&self, dsn: &mut String, reporting_mta: &str)
        ensures
            final(dsn)@ == old(dsn)@ + dsn_headers_text(*self, reporting_mta@),
    {
        push_str(dsn, "Reporting-MTA: dns;");
        push_str(dsn, reporting_mta);
        push_str(dsn, "\r\n");
        push_str(dsn, "Arrival-Date: ");
        let date = format_rfc822(self.created);
        push_str(dsn, date.as_str());
        push_str(dsn, "\r\n");
        if let Some(env_id) = &self.env_id {
            push_str(dsn, "Original-Envelope-Id: ");
            push_str(dsn, env_id.as_str());
            push_str(dsn, "\r\n");
        }
        push_str(dsn, "\r\n");
        assert(final(dsn)@ =~= old(dsn)@ + dsn_headers_text(*self, reporting_mta@));
    }
}

/// Appends a recipient's line and entry to the parts of a report, and
/// returns its flags after the report.
fn write_recipient_dsn(
    rcpt: &Recipient,
    created: u64,
    now: u64,
    success: &mut String,
    delay: &mut String,
    failed: &mut String,
    entries: &mut String,
) -> (flags: u64)
    requires
        expiry_fits(*rcpt, created),
    ensures
        flags == dsn_flags(*rcpt),
        final(success)@ == old(success)@ + (if dsn_section(*rcpt, now) is Success {
            dsn_line(*rcpt, now)
        } else {
            Seq::empty()
        }),
        final(delay)@ == old(delay)@ + (if dsn_section(*rcpt, now) is Delay {
            dsn_line(*rcpt, now)
        } else {
            Seq::empty()
        }),
        final(failed)@ == old(failed)@ + (if dsn_section(*rcpt, now) is Failure {
            dsn_line(*rcpt, now)
        } else {
            Seq::empty()
        }),
        final(entries)@ == old(entries)@ + dsn_entry(*rcpt, created, now),
{
    let ghost e0 = entries@;
    if rcpt.has_flag(RCPT_DSN_SENT | RCPT_NOTIFY_NEVER) {
        assert(entries@ =~= e0 + dsn_entry(*rcpt, created, now));
        return rcpt.flags;
    }
    match &rcpt.status {
        Status::Completed(response) => {
            if rcpt.has_flag(RCPT_NOTIFY_SUCCESS) {
                rcpt.write_dsn(entries);
                rcpt.status.write_dsn(entries);
                response.write_dsn_text(rcpt.address.as_str(), success);
                push_str(entries, "\r\n");
            }
            assert(entries@ =~= e0 + dsn_entry(*rcpt, created, now));
            rcpt.flags | RCPT_DSN_SENT
        },
        Status::PermanentFailure(response) => {
            if rcpt.has_flag(RCPT_NOTIFY_FAILURE) {
                rcpt.write_dsn(entries);
                rcpt.status.write_dsn(entries);
                response.write_dsn_text(rcpt.address.as_str(), failed);
                push_str(entries, "\r\n");
            }
            assert(entries@ =~= e0 + dsn_entry(*rcpt, created, now));
            rcpt.flags | RCPT_DSN_SENT
        },
        Status::TemporaryFailure(response) => {
            if rcpt.notify.due <= now && rcpt.has_flag(RCPT_NOTIFY_DELAY) {
                rcpt.write_dsn(entries);
                rcpt.status.write_dsn(entries);
                rcpt.write_dsn_will_retry_until(created, now, entries);
                response.write_dsn_text(rcpt.address.as_str(), delay);
                push_str(entries, "\r\n");
            }
            assert(entries@ =~= e0 + dsn_entry(*rcpt, created, now));
            rcpt.flags
        },
        Status::Scheduled => {
            if rcpt.notify.due <= now && rcpt.has_flag(RCPT_NOTIFY_DELAY) {
                rcpt.write_dsn(entries);
                rcpt.status.write_dsn(entries);
                rcpt.write_dsn_will_retry_until(created, now, entries);
                let details = ErrorDetails {
                    entity: String::from_str("localhost"),
                    details: Error::ConcurrencyLimited,
                };
                details.write_dsn_text(rcpt.address.as_str(), delay);
                push_str(entries, "\r\n");
            }
            assert(entries@ =~= e0 + dsn_entry(*rcpt, created, now));
            rcpt.flags
        },
    }
}

/// Appends one section of the human readable part of a report.
fn write_dsn_section(txt: &mut String, lines: &String, mixed: bool, title: &str)
    ensures
        final(txt)@ == old(txt)@ + dsn_section_text(lines@, mixed, title@),
{
    if !lines.as_str().is_empty() {
        if mixed {
            push_str(txt, title);
        }
        push_str(txt, lines.as_str());
        push_str(txt, "\r\n");
    }
    assert(final(txt)@ =~= old(txt)@ + dsn_section_text(lines@, mixed, title@));
}

/// The subject and the human readable part of a report with the given
/// lines of delivered, delayed and failed recipients.
pub fn compose_dsn_text(success: &String, delay: &String, failed: &String) -> (r: (String, String))
    ensures
        r.0@ == dsn_subject(success@.len() > 0, delay@.len() > 0, failed@.len() > 0),
        r.1@ == dsn_body_text(success@, delay@, failed@),
{
    let has_success = !success.as_str().is_empty();
    let has_delay = !delay.as_str().is_empty();
    let has_failure = !failed.as_str().is_empty();
    let mut txt = String::new();
    let subject;
    if has_success && !has_delay && !has_failure {
        push_str(
            &mut txt,
            "Your message has been successfully delivered to the following recipients:\r\n\r\n",
        );
        subject = "Successfully delivered message";
    } else if has_delay && !has_success && !has_failure {
        push_str(
            &mut txt,
            "There was a temporary problem delivering your message to the following recipients:\r\n\r\n",
        );
        subject = "Warning: Delay in message delivery";
    } else if has_failure && !has_success && !has_delay {
        push_str(&mut txt, "Your message could not be delivered to the following recipients:\r\n\r\n");
        subject = "Failed to deliver message";
    } else if has_success {
        push_str(&mut txt, "Your message has been partially delivered:\r\n\r\n");
        subject = "Partially delivered message";
    } else {
        push_str(&mut txt, "Your message could not be delivered to some recipients:\r\n\r\n");
        subject = "Warning: Temporary and permanent failures during message delivery";
    }
    let mixed = (has_success && (has_delay || has_failure)) || (has_delay && has_failure);
    let ghost intro = txt@;
    proof {
        reveal_strlit("");
    }
    assert(intro =~= Seq::<char>::empty() + dsn_intro(has_success, has_delay, has_failure));
    write_dsn_section(
        &mut txt,
        success,
        mixed,
        "    ----- Delivery to the following addresses was successful -----\r\n",
    );
    write_dsn_section(
        &mut txt,
        delay,
        mixed,
        "    ----- There was a temporary problem delivering to these addresses -----\r\n",
    );
    write_dsn_section(
        &mut txt,
        failed,
        mixed,
        "    ----- Delivery to the following addresses failed -----\r\n",
    );
    assert(txt@ =~= dsn_body_text(success@, delay@, failed@));
    (String::from_str(subject), txt)
}

impl MessageWrapper {
    /// Builds the delivery status notification that is due at `now`, and
    /// marks the final statuses it covers as reported. Returns `None` when
    /// no recipient is due to be reported.
    pub fn build_dsn(&mut self, now: u64, reporting_mta: &str, queues: &Vec<QueueSettings>) -> (r: Option<DsnReport>)
        requires
            expiries_fit(old(self).message.recipients@, old(self).message.created),
            queues@.len() == old(self).message.recipients@.len(),
            notify_fits(old(self).message.recipients@, queues@, now),
        ensures
            final(self).queue_id == old(self).queue_id,
            final(self).queue_name == old(self).queue_name,
            final(self).span_id == old(self).span_id,
            final(self).message == (Message { recipients: final(self).message.recipients, ..old(self).message }),
            final(self).message.recipients@.len() == old(self).message.recipients@.len(),
            ({
                let t = dsn_texts(old(self).message.recipients@, old(self).message.created, now);
                forall|i: int|
                    0 <= i < old(self).message.recipients@.len() ==> #[trigger] final(self).message.recipients@[i]
                        == after_dsn(old(self).message.recipients@[i], now, t.delay.len() > 0, queues@[i].notify@)
            }),
            ({
                let t = dsn_texts(old(self).message.recipients@, old(self).message.created, now);
                &&& (t.success.len() + t.delay.len() + t.failed.len() == 0) <==> r is None
                &&& r is Some ==> {
                    let d = r->Some_0;
                    &&& d.subject@ == dsn_subject(t.success.len() > 0, t.delay.len() > 0, t.failed.len() > 0)
                    &&& d.text@ == dsn_body_text(t.success, t.delay, t.failed)
                    &&& d.delivery_status@ == dsn_headers_text(old(self).message, reporting_mta@) + t.entries
                    &&& d.has_delay == (t.delay.len() > 0)
                }
            }),
    {
        let ghost old_rs = self.message.recipients@;
        let created = self.message.created;
        let mut success = String::new();
        let mut delay = String::new();
        let mut failed = String::new();
        let mut entries = String::new();
        let mut i: usize = 0;
        while i < self.message.recipients.len()
            invariant
                i <= old_rs.len(),
                self.message.recipients@.len() == old_rs.len(),
                self.message == (Message { recipients: self.message.recipients, ..old(self).message }),
                self.queue_id == old(self).queue_id,
                self.queue_name == old(self).queue_name,
                self.span_id == old(self).span_id,
                created == old(self).message.created,
                old_rs == old(self).message.recipients@,
                expiries_fit(old_rs, created),
                forall|j: int| 0 <= j < i ==> #[trigger] self.message.recipients@[j]
                    == (Recipient { flags: dsn_flags(old_rs[j]), ..old_rs[j] }),
                forall|j: int| i <= j < old_rs.len() ==> #[trigger] self.message.recipients@[j] == old_rs[j],
                success@ == dsn_texts(old_rs.take(i as int), created, now).success,
                delay@ == dsn_texts(old_rs.take(i as int), created, now).delay,
                failed@ == dsn_texts(old_rs.take(i as int), created, now).failed,
                entries@ == dsn_texts(old_rs.take(i as int), created, now).entries,
            decreases old_rs.len() - i,
        {
            assert(old_rs.take(i + 1).drop_last() =~= old_rs.take(i as int));
            assert(old_rs.take(i + 1).last() == old_rs[i as int]);
            assert(self.message.recipients@[i as int] == old_rs[i as int]);
            assert(expiry_fits(old_rs[i as int], created));
            let flags = write_recipient_dsn(
                &self.message.recipients[i],
                created,
                now,
                &mut success,
                &mut delay,
                &mut failed,
                &mut entries,
            );
            self.message.recipients[i].flags = flags;
            i = i + 1;
        }
        assert(old_rs.take(old_rs.len() as int) =~= old_rs);
        if success.as_str().is_empty() && delay.as_str().is_empty() && failed.as_str().is_empty() {
            return None;
        }
        let (subject, text) = compose_dsn_text(&success, &delay, &failed);
        let mut delivery_status = String::new();
        self.message.write_dsn_headers(&mut delivery_status, reporting_mta);
        proof {
            reveal_strlit("");
        }
        let ghost hdr = delivery_status@;
        push_str(&mut delivery_status, entries.as_str());
        assert(hdr =~= dsn_headers_text(old(self).message, reporting_mta@));
        let has_delay = !delay.as_str().is_empty();
        if has_delay {
            let ghost flagged = self.message.recipients@;
            let mut next: Vec<Option<u64>> = Vec::new();
            let mut k: usize = 0;
            while k < self.message.recipients.len()
                invariant
                    k <= flagged.len(),
                    flagged.len() == old_rs.len(),
                    self.message.recipients@ == flagged,
                    queues@.len() == old_rs.len(),
                    next@.len() == k,
                    forall|j: int| 0 <= j < k ==> #[trigger] next@[j] == next_notify_delay(flagged[j], queues@[j].notify@),
                decreases flagged.len() - k,
            {
                let inner = self.message.recipients[k].notify.inner as usize;
                let notify = &queues[k].notify;
                if notify.len() > 0 && inner < notify.len() - 1 {
                    next.push(Some(notify[inner + 1]));
                } else {
                    next.push(None);
                }
                k = k + 1;
            }
            proof {
                assert forall|j: int| 0 <= j < flagged.len() implies #[trigger] next_notify_delay(flagged[j], queues@[j].notify@)
                    == next_notify_delay(old_rs[j], queues@[j].notify@) && (notify_due(flagged[j], now) == notify_due(old_rs[j], now)) by {
                    assert(flagged[j] == (Recipient { flags: dsn_flags(old_rs[j]), ..old_rs[j] }));
                }
            }
            self.schedule_next_notify(now, &next);
        }
        Some(DsnReport { subject, text, delivery_status, has_delay })
    }
}

/// The delay of a recipient's following delay notification in the
/// notification schedule `notify` of its queue (the entry after the one
/// it is at), where the schedule has one.
pub open spec fn next_notify_delay(r: Recipient, notify: Seq<u64>) -> Option<u64> {
    if (r.notify.inner as int) + 1 < notify.len() {
        Some(notify[r.notify.inner + 1])
    } else {
        None
    }
}

/// Every recipient due a delay notification at `now` can have its next one
/// scheduled without overflow, with `queues[i]` the queue of recipient `i`.
pub open spec fn notify_fits(rs: Seq<Recipient>, queues: Seq<QueueSettings>, now: u64) -> bool {
    forall|i: int|
        0 <= i < rs.len() && notify_due(rs[i], now) ==> match #[trigger] next_notify_delay(rs[i], queues[i].notify@) {
            Some(d) => now + d <= u64::MAX && rs[i].notify.inner < u32::MAX,
            None => true,
        }
}

/// A recipient after a report at `now`: its final status is marked as
/// reported, and where the report holds a delay notification, a recipient
/// due one has its next one scheduled from its queue's schedule `notify`.
pub open spec fn after_dsn(r: Recipient, now: u64, has_delay: bool, notify: Seq<u64>) -> Recipient {
    let flagged = Recipient { flags: dsn_flags(r), ..r };
    if has_delay {
        rescheduled(flagged, now, next_notify_delay(r, notify))
    } else {
        flagged
    }
}

/// Whether a delayed recipient's next delay notification is to be
/// scheduled after a report at `now`.
pub open spec fn notify_due(r: Recipient, now: u64) -> bool {
    (r.status is TemporaryFailure || r.status is Scheduled) && r.notify.due <= now
}

/// A recipient after its next delay notification was scheduled: `next` is
/// the delay of the following notification in its queue's schedule, where
/// there is one; without one it is never notified of delays again.
pub open spec fn rescheduled(r: Recipient, now: u64, next: Option<u64>) -> Recipient {
    if notify_due(r, now) {
        match next {
            Some(d) => Recipient {
                notify: crate::queue::Schedule { due: (now + d) as u64, inner: (r.notify.inner + 1) as u32 },
                ..r
            },
            None => Recipient {
                notify: crate::queue::Schedule { due: u64::MAX, ..r.notify },
                ..r
            },
        }
    } else {
        r
    }
}

/// A recipient after a sender-less message gave up reporting at `now`: a
/// permanent failure is marked as reported, and a due notification moves
/// to ten seconds after the recipient expires, or never.
pub open spec fn double_bounced(r: Recipient, created: u64, now: u64) -> Recipient {
    let flags = if !dsn_done(r) && r.status is PermanentFailure {
        r.flags | RCPT_DSN_SENT
    } else {
        r.flags
    };
    let notify = if r.notify.due <= now {
        crate::queue::Schedule {
            due: match expiration_of(r, created) {
                Some(e) => (e + 10) as u64,
                None => u64::MAX,
            },
            ..r.notify
        }
    } else {
        r.notify
    };
    Recipient { flags, notify, ..r }
}

/// The report lines of the permanent failures that a sender-less message
/// cannot report, in order.
pub open spec fn double_bounce_lines(rs: Seq<Recipient>) -> Seq<Seq<char>>
    decreases rs.len(),
{
    if rs.len() == 0 {
        Seq::empty()
    } else {
        let p = double_bounce_lines(rs.drop_last());
        let r = rs.last();
        match r.status {
            Status::PermanentFailure(e) => if !dsn_done(r) {
                p.push(failure_text(e, r.address@))
            } else {
                p
            },
            _ => p,
        }
    }
}

/// Whether every recipient's expiry leaves room for ten more seconds.
pub open spec fn expiries_leave_room(rs: Seq<Recipient>, created: u64) -> bool {
    forall|i: int|
        0 <= i < rs.len() ==> match (#[trigger] rs[i]).expires {
            crate::queue::QueueExpiry::Ttl(t) => created + t + 10 <= u64::MAX,
            _ => true,
        }
}

impl MessageWrapper {
    /// Schedules the next delay notification of each recipient that a report
    /// at `now` covered as delayed. `next_notify[i]` is the delay of the
    /// following notification in the queue of recipient `i`, where there is
    /// one.
    pub fn schedule_next_notify(&mut self, now: u64, next_notify: &Vec<Option<u64>>)
        requires
            next_notify@.len() == old(self).message.recipients@.len(),
            forall|i: int|
                0 <= i < next_notify@.len() && notify_due(old(self).message.recipients@[i], now) ==> {
                    &&& #[trigger] next_notify@[i] is Some ==> now + next_notify@[i]->Some_0 <= u64::MAX
                    &&& next_notify@[i] is Some ==> old(self).message.recipients@[i].notify.inner < u32::MAX
                },
        ensures
            final(self).queue_id == old(self).queue_id,
            final(self).queue_name == old(self).queue_name,
            final(self).span_id == old(self).span_id,
            final(self).message == (Message { recipients: final(self).message.recipients, ..old(self).message }),
            final(self).message.recipients@.len() == old(self).message.recipients@.len(),
            forall|i: int|
                0 <= i < old(self).message.recipients@.len() ==> #[trigger] final(self).message.recipients@[i]
                    == rescheduled(old(self).message.recipients@[i], now, next_notify@[i]),
    {
        let ghost old_rs = self.message.recipients@;
        let mut i: usize = 0;
        while i < self.message.recipients.len()
            invariant
                i <= old_rs.len(),
                old_rs == old(self).message.recipients@,
                next_notify@.len() == old_rs.len(),
                forall|k: int|
                    0 <= k < next_notify@.len() && notify_due(old_rs[k], now) ==> {
                        &&& #[trigger] next_notify@[k] is Some ==> now + next_notify@[k]->Some_0 <= u64::MAX
                        &&& next_notify@[k] is Some ==> old_rs[k].notify.inner < u32::MAX
                    },
                self.message.recipients@.len() == old_rs.len(),
                self.message == (Message { recipients: self.message.recipients, ..old(self).message }),
                self.queue_id == old(self).queue_id,
                self.queue_name == old(self).queue_name,
                self.span_id == old(self).span_id,
                forall|j: int| 0 <= j < i ==> #[trigger] self.message.recipients@[j]
                    == rescheduled(old_rs[j], now, next_notify@[j]),
                forall|j: int| i <= j < old_rs.len() ==> #[trigger] self.message.recipients@[j] == old_rs[j],
            decreases old_rs.len() - i,
        {
            let due = self.message.recipients[i].notify.due;
            let pending = match self.message.recipients[i].status {
                Status::TemporaryFailure(_) | Status::Scheduled => true,
                _ => false,
            };
            assert(self.message.recipients@[i as int] == old_rs[i as int]);
            if pending && due <= now {
                assert(notify_due(old_rs[i as int], now));
                match next_notify[i] {
                    Some(d) => {
                        let inner = self.message.recipients[i].notify.inner;
                        self.message.recipients[i].notify.inner = inner + 1;
                        self.message.recipients[i].notify.due = now + d;
                    },
                    None => {
                        self.message.recipients[i].notify.due = u64::MAX;
                    },
                }
            }
            i = i + 1;
        }
    }

    /// What a message without a return path does instead of sending a
    /// report at `now`: marks its unreported permanent failures as reported
    /// and returns their report lines, and moves each due notification to
    /// ten seconds after the recipient expires, or never.
    pub fn handle_double_bounce(&mut self, now: u64) -> (r: Vec<String>)
        requires
            expiries_fit(old(self).message.recipients@, old(self).message.created),
            expiries_leave_room(old(self).message.recipients@, old(self).message.created),
        ensures
            final(self).queue_id == old(self).queue_id,
            final(self).queue_name == old(self).queue_name,
            final(self).span_id == old(self).span_id,
            final(self).message == (Message { recipients: final(self).message.recipients, ..old(self).message }),
            final(self).message.recipients@.len() == old(self).message.recipients@.len(),
            forall|i: int|
                0 <= i < old(self).message.recipients@.len() ==> #[trigger] final(self).message.recipients@[i]
                    == double_bounced(old(self).message.recipients@[i], old(self).message.created, now),
            r@.len() == double_bounce_lines(old(self).message.recipients@).len(),
            forall|k: int| 0 <= k < r@.len() ==> #[trigger] r@[k]@ == double_bounce_lines(old(self).message.recipients@)[k],
    {
        let ghost old_rs = self.message.recipients@;
        let created = self.message.created;
        let mut lines: Vec<String> = Vec::new();
        let mut i: usize = 0;
        while i < self.message.recipients.len()
            invariant
                i <= old_rs.len(),
                old_rs == old(self).message.recipients@,
                created == old(self).message.created,
                expiries_fit(old_rs, created),
                expiries_leave_room(old_rs, created),
                self.message.recipients@.len() == old_rs.len(),
                self.message == (Message { recipients: self.message.recipients, ..old(self).message }),
                self.queue_id == old(self).queue_id,
                self.queue_name == old(self).queue_name,
                self.span_id == old(self).span_id,
                forall|j: int| 0 <= j < i ==> #[trigger] self.message.recipients@[j]
                    == double_bounced(old_rs[j], created, now),
                forall|j: int| i <= j < old_rs.len() ==> #[trigger] self.message.recipients@[j] == old_rs[j],
                lines@.len() == double_bounce_lines(old_rs.take(i as int)).len(),
                forall|k: int| 0 <= k < lines@.len() ==> #[trigger] lines@[k]@ == double_bounce_lines(old_rs.take(i as int))[k],
            decreases old_rs.len() - i,
        {
            assert(old_rs.take(i + 1).drop_last() =~= old_rs.take(i as int));
            assert(old_rs.take(i + 1).last() == old_rs[i as int]);
            assert(self.message.recipients@[i as int] == old_rs[i as int]);
            assert(expiry_fits(old_rs[i as int], created));
            let ghost before = lines@;
            let done = self.message.recipients[i].has_flag(RCPT_DSN_SENT | RCPT_NOTIFY_NEVER);
            let mut flags = self.message.recipients[i].flags;
            if !done {
                match &self.message.recipients[i].status {
                    Status::PermanentFailure(err) => {
                        flags = flags | RCPT_DSN_SENT;
                        let mut line = String::new();
                        err.write_dsn_text(self.message.recipients[i].address.as_str(), &mut line);
                        proof {
                            reveal_strlit("");
                        }
                        assert(line@ =~= failure_text(*err, old_rs[i as int].address@));
                        lines.push(line);
                    },
                    _ => {},
                }
            }
            let due = self.message.recipients[i].notify.due;
            if due <= now {
                let next = match self.message.recipients[i].expiration_time(created) {
                    Some(d) => d + 10,
                    None => u64::MAX,
                };
                self.message.recipients[i].notify.due = next;
            }
            self.message.recipients[i].flags = flags;
            assert forall|k: int| 0 <= k < lines@.len() implies #[trigger] lines@[k]@ == double_bounce_lines(
                old_rs.take(i + 1),
            )[k] by {
                if k < before.len() {
                    assert(lines@[k] == before[k]);
                }
            }
            i = i + 1;
        }
        assert(old_rs.take(old_rs.len() as int) =~= old_rs);
        lines
    }
}


/// The header block of a stored message that a report quotes: the
/// excerpt of [`header_excerpt`] as text, or nothing where it is not valid
/// UTF-8.
pub fn quoted_headers(buf: &[u8]) -> (r: String)
    ensures
        ({
            let b = buf@.take(header_excerpt_len(buf@) as int);
            r@ == if valid_utf8(b) { decode_utf8(b) } else { Seq::empty() }
        }),
{
    let n = header_excerpt(buf);
    let part = slice_prefix(buf, n);
    match str_from_utf8(part.as_slice()) {
        Some(s) => String::from_str(s),
        None => String::new(),
    }
}

/// The first `n` bytes of a byte string.
fn slice_prefix(buf: &[u8], n: usize) -> (r: Vec<u8>)
    requires
        n <= buf@.len(),
    ensures
        r@ == buf@.take(n as int),
{
    let mut out: Vec<u8> = Vec::new();
    let mut i: usize = 0;
    while i < n
        invariant
            i <= n,
            n <= buf@.len(),
            out@ == buf@.take(i as int),
        decreases n - i,
    {
        out.push(buf[i]);
        assert(buf@.take(i + 1) =~= buf@.take(i as int).push(buf@[i as int]));
        i = i + 1;
    }
    out
}


/// The `Status` field carries the class of the outcome where no server
/// reply gives a code: `5.0.0` for a permanent failure (reported as
/// failed), `4.0.0` for a temporary failure or a recipient still waiting
/// (reported as delayed); so a permanent and a temporary failure with the
/// same error are never reported with the same status.
pub proof fn lemma_status_field_class(e: ErrorDetails)
    requires
        !(e.details is UnexpectedResponse),
    ensures
        status_field_text(Status::PermanentFailure(e)) == "Status: 5.0.0\r\n"@,
        status_field_text(Status::TemporaryFailure(e)) == "Status: 4.0.0\r\n"@,
        status_field_text(Status::Scheduled) == "Status: 4.0.0\r\n"@,
        status_field_text(Status::PermanentFailure(e))[8] == '5',
        action_text::<HostResponse, ErrorDetails>(Status::PermanentFailure(e)) == "Action: failed\r\n"@,
        status_field_text(Status::TemporaryFailure(e))[8] == '4',
        status_field_text(Status::PermanentFailure(e)) != status_field_text(Status::TemporaryFailure(e)),
{
    reveal_strlit("Status: ");
    reveal_strlit("5.0.0");
    reveal_strlit("4.0.0");
    reveal_strlit("\r\n");
    reveal_strlit("Status: 5.0.0\r\n");
    reveal_strlit("Status: 4.0.0\r\n");
    reveal_strlit("Action: ");
    reveal_strlit("failed");
    reveal_strlit("Action: failed\r\n");
    assert(status_field_text(Status::PermanentFailure(e)) =~= "Status: 5.0.0\r\n"@);
    assert(status_field_text(Status::TemporaryFailure(e)) =~= "Status: 4.0.0\r\n"@);
    assert(status_field_text(Status::<HostResponse, ErrorDetails>::Scheduled) =~= "Status: 4.0.0\r\n"@);
    assert(action_text::<HostResponse, ErrorDetails>(Status::PermanentFailure(e)) =~= "Action: failed\r\n"@);
}


/// The `Action` field says what became of the recipient: `delivered` once
/// delivered, `failed` after a permanent failure, and `delayed` while it is
/// still being retried.
pub proof fn lemma_action_names_outcome(s: DeliveryStatus)
    ensures
        s is Completed ==> action_text(s) == "Action: delivered\r\n"@,
        s is PermanentFailure ==> action_text(s) == "Action: failed\r\n"@,
        (s is TemporaryFailure || s is Scheduled) ==> action_text(s) == "Action: delayed\r\n"@,
{
    reveal_strlit("Action: ");
    reveal_strlit("delivered");
    reveal_strlit("failed");
    reveal_strlit("delayed");
    reveal_strlit("\r\n");
    reveal_strlit("Action: delivered\r\n");
    reveal_strlit("Action: failed\r\n");
    reveal_strlit("Action: delayed\r\n");
    assert(s is Completed ==> action_text(s) =~= "Action: delivered\r\n"@);
    assert(s is PermanentFailure ==> action_text(s) =~= "Action: failed\r\n"@);
    assert((s is TemporaryFailure || s is Scheduled) ==> action_text(s) =~= "Action: delayed\r\n"@);
}

/// A reply's status code starts with its class: the first digit of its
/// enhanced code where it has one, else the first digit of its reply code.
pub proof fn lemma_status_code_class(r: Response)
    requires
        r.esc[0] < 10,
        r.code < 1000,
    ensures
        status_code_text(r)[0] == digit_char(if r.esc[0] > 0 { r.esc[0] as nat } else { (r.code / 100) as nat }),
{
    let a: nat = if r.esc[0] > 0 { r.esc[0] as nat } else { (r.code / 100) as nat };
    assert(decimal(a) == seq![digit_char(a)]);
}

} // verus!
