//! The client side of an SMTP or LMTP transaction: the commands it sends,
//! the statuses that replies and failures map to, and the transparency
//! procedure of the message body. Reading and writing the connection is the
//! caller's.

use vstd::prelude::*;
use crate::external::{trim, trimmed};
use crate::queue::{
    DeliveryStatus, Error, ErrorDetails, HostResponse, MessageWrapper, Recipient, Response, Severity,
    Status, UnexpectedResponse, severity_of, MAIL_REQUIRETLS, MAIL_RET_FULL, MAIL_RET_HDRS,
    MAIL_SMTPUTF8, RCPT_NOTIFY_DELAY, RCPT_NOTIFY_FAILURE, RCPT_NOTIFY_NEVER, RCPT_NOTIFY_SUCCESS,
};
use crate::session::DeliveryResult;
use crate::text::{decimal, push_decimal, push_str};

verus! {

/// The server accepts `BDAT` (RFC 3030).
pub const EXT_CHUNKING: u32 = 1u32 << 6u32;
/// The server accepts delivery status notification parameters (RFC 3461).
pub const EXT_DSN: u32 = 1u32 << 10u32;
/// The server accepts `REQUIRETLS` (RFC 8689).
pub const EXT_REQUIRE_TLS: u32 = 1u32 << 20u32;
/// The server accepts `SIZE` (RFC 1870).
pub const EXT_SIZE: u32 = 1u32 << 22u32;
/// The server accepts `SMTPUTF8` (RFC 6531).
pub const EXT_SMTP_UTF8: u32 = 1u32 << 23u32;

/// What kind of failure a client operation met, with the detail text of
/// the kinds that carry one.
pub enum SmtpErrorKind {
    Io(String),
    Tls(String),
    Base64,
    UnparseableReply,
    AuthenticationFailed,
    MissingCredentials,
    MissingMailFrom,
    MissingRcptTo,
    Timeout,
    UnexpectedReply(Response),
    Auth,
    UnsupportedAuthMechanism,
    InvalidTlsName,
    MissingStartTls,
}

/// A failure of a client operation and its description.
pub struct SmtpError {
    pub kind: SmtpErrorKind,
    pub text: String,
}

/// What the server answered to a recipient.
pub enum RcptReply {
    /// It accepted the recipient, with this status should the message be accepted.
    Accepted(DeliveryStatus),
    /// It rejected the recipient.
    Rejected(DeliveryStatus),
}

/// The `SIZE` parameter, when the server takes it.
pub open spec fn size_param(m: MessageWrapper, caps: u32) -> Seq<char> {
    if caps & EXT_SIZE != 0 {
        " SIZE="@ + decimal(m.message.size as nat)
    } else {
        Seq::empty()
    }
}

/// The `REQUIRETLS` and `SMTPUTF8` parameters that the message asks for and
/// the server takes.
pub open spec fn flag_params(m: MessageWrapper, caps: u32) -> Seq<char> {
    (if m.message.flags & MAIL_REQUIRETLS != 0 && caps & EXT_REQUIRE_TLS != 0 {
        " REQUIRETLS"@
    } else {
        Seq::empty()
    }) + (if m.message.flags & MAIL_SMTPUTF8 != 0 && caps & EXT_SMTP_UTF8 != 0 {
        " SMTPUTF8"@
    } else {
        Seq::empty()
    })
}

/// The `RET` and `ENVID` parameters, when the server takes them.
pub open spec fn dsn_params(m: MessageWrapper, caps: u32) -> Seq<char> {
    if caps & EXT_DSN != 0 {
        (if m.message.flags & MAIL_RET_FULL != 0 {
            " RET=FULL"@
        } else if m.message.flags & MAIL_RET_HDRS != 0 {
            " RET=HDRS"@
        } else {
            Seq::empty()
        }) + match m.message.env_id {
            Some(id) => " ENVID="@ + id@,
            None => Seq::empty(),
        }
    } else {
        Seq::empty()
    }
}

/// The `MAIL FROM` command of a message, given the server's capabilities.
pub open spec fn mail_from_text(m: MessageWrapper, caps: u32) -> Seq<char> {
    "MAIL FROM:<"@ + m.message.return_path@ + ">"@ + size_param(m, caps) + flag_params(m, caps)
        + dsn_params(m, caps) + "\r\n"@
}

/// The `NOTIFY` values that a recipient asked for, comma separated.
pub open spec fn notify_list(flags: u64) -> Seq<char> {
    let s = flags & RCPT_NOTIFY_SUCCESS != 0;
    let d = flags & RCPT_NOTIFY_DELAY != 0;
    let f = flags & RCPT_NOTIFY_FAILURE != 0;
    (if s {
        "SUCCESS"@
    } else {
        Seq::empty()
    }) + (if d {
        (if s {
            ","@
        } else {
            Seq::empty()
        }) + "DELAY"@
    } else {
        Seq::empty()
    }) + (if f {
        (if s || d {
            ","@
        } else {
            Seq::empty()
        }) + "FAILURE"@
    } else {
        Seq::empty()
    })
}

/// The `RCPT TO` command of a recipient, given the server's capabilities.
pub open spec fn rcpt_to_text(r: Recipient, caps: u32) -> Seq<char> {
    "RCPT TO:<"@ + r.address@ + ">"@ + (if caps & EXT_DSN != 0 {
        if r.flags & (RCPT_NOTIFY_SUCCESS | RCPT_NOTIFY_FAILURE | RCPT_NOTIFY_DELAY) != 0 {
            " NOTIFY="@ + notify_list(r.flags)
        } else if r.flags & RCPT_NOTIFY_NEVER != 0 {
            " NOTIFY=NEVER"@
        } else {
            Seq::empty()
        }
    } else {
        Seq::empty()
    }) + "\r\n"@
}

/// Whether a failure is one the client may retry later.
pub open spec fn is_transient_kind(k: SmtpErrorKind) -> bool {
    k is Io || k is Tls || k is Base64 || k is UnparseableReply || k is AuthenticationFailed
        || k is MissingCredentials || k is MissingMailFrom || k is MissingRcptTo || k is Timeout
}

/// Whether `s` is the status of a rejection `r` of `command` by `host`:
/// permanent on a 5xx reply, else temporary.
pub open spec fn is_reply_status(s: DeliveryStatus, host: Seq<char>, command: Seq<char>, r: Response) -> bool {
    let permanent = severity_of(r.code) == Severity::PermanentNegativeCompletion;
    let details = if permanent {
        s->PermanentFailure_0
    } else {
        s->TemporaryFailure_0
    };
    &&& (permanent ==> s is PermanentFailure)
    &&& (!permanent ==> s is TemporaryFailure)
    &&& details.entity@ == host
    &&& details.details is UnexpectedResponse
    &&& details.details->UnexpectedResponse_0.command@ == command
    &&& details.details->UnexpectedResponse_0.response == r
}

/// Whether `s` is the status of a failure `e` at `command` on `host`: a
/// rejection is permanent on a 5xx reply and names the command; any other
/// failure is a connection error, permanent for authentication and TLS
/// setup problems.
pub open spec fn is_smtp_error_status(s: DeliveryStatus, host: Seq<char>, command: Seq<char>, e: SmtpError) -> bool {
    match e.kind {
        SmtpErrorKind::UnexpectedReply(r) => is_reply_status(s, host, trimmed(command), r),
        _ => {
            let details = if is_transient_kind(e.kind) {
                s->TemporaryFailure_0
            } else {
                s->PermanentFailure_0
            };
            &&& (is_transient_kind(e.kind) ==> s is TemporaryFailure)
            &&& (!is_transient_kind(e.kind) ==> s is PermanentFailure)
            &&& details.entity@ == host
            &&& details.details is ConnectionError
            &&& details.details->ConnectionError_0@ == e.text@
        },
    }
}

/// The status of a failed transaction: see [`is_smtp_error_status`].
pub fn from_smtp_error(hostname: &str, command: &str, err: SmtpError) -> (r: DeliveryStatus)
    ensures
        is_smtp_error_status(r, hostname@, command@, err),
{
    let entity = String::from_str(hostname);
    let ghost e = err;
    match err.kind {
        SmtpErrorKind::UnexpectedReply(response) => {
            let command = String::from_str(trim(command));
            let permanent = match response.severity() {
                Severity::PermanentNegativeCompletion => true,
                _ => false,
            };
            let details = ErrorDetails {
                entity,
                details: Error::UnexpectedResponse(UnexpectedResponse { command, response }),
            };
            if permanent {
                Status::PermanentFailure(details)
            } else {
                Status::TemporaryFailure(details)
            }
        },
        SmtpErrorKind::Auth | SmtpErrorKind::UnsupportedAuthMechanism | SmtpErrorKind::InvalidTlsName
        | SmtpErrorKind::MissingStartTls => Status::PermanentFailure(
            ErrorDetails { entity, details: Error::ConnectionError(err.text) },
        ),
        _ => Status::TemporaryFailure(ErrorDetails { entity, details: Error::ConnectionError(err.text) }),
    }
}

/// The status of a host that refused `STARTTLS`: its reply when it sent
/// one (permanent on 5xx), else a permanent TLS error.
pub fn from_starttls_error(hostname: &str, response: Option<Response>) -> (r: DeliveryStatus)
    ensures
        match response {
            Some(resp) => {
                let permanent = severity_of(resp.code) == Severity::PermanentNegativeCompletion;
                let d = if permanent {
                    r->PermanentFailure_0
                } else {
                    r->TemporaryFailure_0
                };
                &&& (permanent ==> r is PermanentFailure)
                &&& (!permanent ==> r is TemporaryFailure)
                &&& d.entity@ == hostname@
                &&& d.details is UnexpectedResponse
                &&& d.details->UnexpectedResponse_0.command@ == "STARTTLS"@
                &&& d.details->UnexpectedResponse_0.response == resp
            },
            None => {
                &&& r is PermanentFailure
                &&& r->PermanentFailure_0.entity@ == hostname@
                &&& r->PermanentFailure_0.details is TlsError
                &&& r->PermanentFailure_0.details->TlsError_0@ == "STARTTLS not advertised by host."@
            },
        },
{
    let entity = String::from_str(hostname);
    match response {
        Some(response) => {
            let permanent = match response.severity() {
                Severity::PermanentNegativeCompletion => true,
                _ => false,
            };
            let details = ErrorDetails {
                entity,
                details: Error::UnexpectedResponse(
                    UnexpectedResponse { command: String::from_str("STARTTLS"), response },
                ),
            };
            if permanent {
                Status::PermanentFailure(details)
            } else {
                Status::TemporaryFailure(details)
            }
        },
        None => Status::PermanentFailure(
            ErrorDetails {
                entity,
                details: Error::TlsError(String::from_str("STARTTLS not advertised by host.")),
            },
        ),
    }
}

/// The status of a failed TLS handshake with a host.
pub fn from_tls_error(hostname: &str, err: SmtpError) -> (r: DeliveryStatus)
    ensures
        match err.kind {
            SmtpErrorKind::InvalidTlsName => r is PermanentFailure && r->PermanentFailure_0.entity@
                == hostname@ && r->PermanentFailure_0.details is TlsError
                && r->PermanentFailure_0.details->TlsError_0@ == "Invalid hostname"@,
            SmtpErrorKind::Timeout => r is TemporaryFailure && r->TemporaryFailure_0.entity@ == hostname@
                && r->TemporaryFailure_0.details is TlsError
                && r->TemporaryFailure_0.details->TlsError_0@ == "TLS handshake timed out"@,
            SmtpErrorKind::Tls(t) => r is TemporaryFailure && r->TemporaryFailure_0.entity@ == hostname@
                && r->TemporaryFailure_0.details is TlsError
                && r->TemporaryFailure_0.details->TlsError_0@ == "Handshake failed: "@ + t@,
            SmtpErrorKind::Io(t) => r is TemporaryFailure && r->TemporaryFailure_0.entity@ == hostname@
                && r->TemporaryFailure_0.details is TlsError
                && r->TemporaryFailure_0.details->TlsError_0@ == "I/O error: "@ + t@,
            _ => r is PermanentFailure && r->PermanentFailure_0.entity@ == hostname@
                && r->PermanentFailure_0.details is TlsError
                && r->PermanentFailure_0.details->TlsError_0@ == "Other TLS error"@,
        },
{
    let entity = String::from_str(hostname);
    match err.kind {
        SmtpErrorKind::InvalidTlsName => Status::PermanentFailure(
            ErrorDetails { entity, details: Error::TlsError(String::from_str("Invalid hostname")) },
        ),
        SmtpErrorKind::Timeout => Status::TemporaryFailure(
            ErrorDetails { entity, details: Error::TlsError(String::from_str("TLS handshake timed out")) },
        ),
        SmtpErrorKind::Tls(t) => {
            let mut text = String::from_str("Handshake failed: ");
            push_str(&mut text, t.as_str());
            Status::TemporaryFailure(ErrorDetails { entity, details: Error::TlsError(text) })
        },
        SmtpErrorKind::Io(t) => {
            let mut text = String::from_str("I/O error: ");
            push_str(&mut text, t.as_str());
            Status::TemporaryFailure(ErrorDetails { entity, details: Error::TlsError(text) })
        },
        _ => Status::PermanentFailure(
            ErrorDetails { entity, details: Error::TlsError(String::from_str("Other TLS error")) },
        ),
    }
}

impl MessageWrapper {
    /// The `MAIL FROM` command of the message, given the server's capabilities.
    pub fn build_mail_from(&self, capabilities: u32) -> (r: String)
        ensures
            r@ == mail_from_text(*self, capabilities),
    {
        let mut mail_from = String::from_str("MAIL FROM:<");
        push_str(&mut mail_from, self.message.return_path.as_str());
        push_str(&mut mail_from, ">");
        proof {
            reveal_strlit("");
        }
        let ghost s0 = mail_from@;
        if capabilities & EXT_SIZE != 0 {
            push_str(&mut mail_from, " SIZE=");
            push_decimal(&mut mail_from, self.message.size);
        }
        assert(mail_from@ =~= s0 + size_param(*self, capabilities));
        let ghost s1 = mail_from@;
        if self.has_flag(MAIL_REQUIRETLS) && (capabilities & EXT_REQUIRE_TLS != 0) {
            push_str(&mut mail_from, " REQUIRETLS");
        }
        if self.has_flag(MAIL_SMTPUTF8) && (capabilities & EXT_SMTP_UTF8 != 0) {
            push_str(&mut mail_from, " SMTPUTF8");
        }
        assert(mail_from@ =~= s1 + flag_params(*self, capabilities));
        let ghost s2 = mail_from@;
        if capabilities & EXT_DSN != 0 {
            if self.has_flag(MAIL_RET_FULL) {
                push_str(&mut mail_from, " RET=FULL");
            } else if self.has_flag(MAIL_RET_HDRS) {
                push_str(&mut mail_from, " RET=HDRS");
            }
            if let Some(env_id) = &self.message.env_id {
                push_str(&mut mail_from, " ENVID=");
                push_str(&mut mail_from, env_id.as_str());
            }
        }
        assert(mail_from@ =~= s2 + dsn_params(*self, capabilities));
        push_str(&mut mail_from, "\r\n");
        assert(mail_from@ =~= mail_from_text(*self, capabilities));
        mail_from
    }

    /// The `RCPT TO` command of a recipient, given the server's capabilities.
    pub fn build_rcpt_to(&self, rcpt: &Recipient, capabilities: u32) -> (r: String)
        ensures
            r@ == rcpt_to_text(*rcpt, capabilities),
    {
        let mut rcpt_to = String::from_str("RCPT TO:<");
        push_str(&mut rcpt_to, rcpt.address.as_str());
        push_str(&mut rcpt_to, ">");
        if capabilities & EXT_DSN != 0 {
            if rcpt.has_flag(RCPT_NOTIFY_SUCCESS | RCPT_NOTIFY_FAILURE | RCPT_NOTIFY_DELAY) {
                push_str(&mut rcpt_to, " NOTIFY=");
                let ghost start = rcpt_to@;
                let mut add_comma = if rcpt.has_flag(RCPT_NOTIFY_SUCCESS) {
                    push_str(&mut rcpt_to, "SUCCESS");
                    true
                } else {
                    false
                };
                if rcpt.has_flag(RCPT_NOTIFY_DELAY) {
                    if add_comma {
                        push_str(&mut rcpt_to, ",");
                    } else {
                        add_comma = true;
                    }
                    push_str(&mut rcpt_to, "DELAY");
                }
                if rcpt.has_flag(RCPT_NOTIFY_FAILURE) {
                    if add_comma {
                        push_str(&mut rcpt_to, ",");
                    }
                    push_str(&mut rcpt_to, "FAILURE");
                }
                proof {
                    reveal_strlit("");
                }
                assert(rcpt_to@ =~= start + notify_list(rcpt.flags));
            } else if rcpt.has_flag(RCPT_NOTIFY_NEVER) {
                push_str(&mut rcpt_to, " NOTIFY=NEVER");
            }
        }
        push_str(&mut rcpt_to, "\r\n");
        proof {
            reveal_strlit("");
        }
        assert(rcpt_to@ =~= rcpt_to_text(*rcpt, capabilities));
        rcpt_to
    }
}

/// The `BDAT` command that sends a message of `size` bytes in one chunk,
/// when the server accepts chunking.
pub fn bdat_command(capabilities: u32, size: u64) -> (r: Option<String>)
    ensures
        r is Some == (capabilities & EXT_CHUNKING != 0),
        r is Some ==> r->Some_0@ == "BDAT "@ + decimal(size as nat) + " LAST\r\n"@,
{
    if capabilities & EXT_CHUNKING != 0 {
        let mut cmd = String::from_str("BDAT ");
        push_decimal(&mut cmd, size);
        push_str(&mut cmd, " LAST\r\n");
        Some(cmd)
    } else {
        None
    }
}

/// What a reply to `RCPT TO` (the command `cmd`) from `hostname` means for
/// the recipient: a 2xx reply accepts it; any other rejects it, permanently
/// on a 5xx reply.
pub fn rcpt_reply(hostname: &str, cmd: &str, response: Response) -> (r: RcptReply)
    ensures
        severity_of(response.code) == Severity::PositiveCompletion ==> r is Accepted && ({
            let s = r->Accepted_0;
            s is Completed && s->Completed_0.hostname@ == hostname@ && s->Completed_0.response == response
        }),
        severity_of(response.code) != Severity::PositiveCompletion ==> r is Rejected && is_reply_status(
            r->Rejected_0,
            hostname@,
            trimmed(cmd@),
            response,
        ),
{
    match response.severity() {
        Severity::PositiveCompletion => RcptReply::Accepted(
            Status::Completed(HostResponse { hostname: String::from_str(hostname), response }),
        ),
        severity => {
            let details = ErrorDetails {
                entity: String::from_str(hostname),
                details: Error::UnexpectedResponse(
                    UnexpectedResponse { command: String::from_str(trim(cmd)), response },
                ),
            };
            match severity {
                Severity::PermanentNegativeCompletion => RcptReply::Rejected(Status::PermanentFailure(details)),
                _ => RcptReply::Rejected(Status::TemporaryFailure(details)),
            }
        },
    }
}

/// The outcome of a transaction after an SMTP server's reply to the message
/// data: a 250 reply delivers each accepted recipient with the status it
/// was accepted with; any other fails the whole domain at the data command.
pub fn smtp_data_results(
    hostname: &str,
    data_cmd: &str,
    response: Response,
    accepted: &Vec<(usize, DeliveryStatus)>,
    rcpt_idxs: Vec<usize>,
) -> (r: Vec<DeliveryResult>)
    ensures
        response.code == 250 ==> r@.len() == accepted@.len() && forall|k: int|
            0 <= k < accepted@.len() ==> #[trigger] r@[k] == (DeliveryResult::Account {
                status: accepted@[k].1,
                rcpt_idx: accepted@[k].0,
            }),
        response.code != 250 ==> r@.len() == 1 && r@[0] is Domain && r@[0]->Domain_rcpt_idxs@ == rcpt_idxs@
            && is_reply_status(r@[0]->Domain_status, hostname@, trimmed(data_cmd@), response),
{
    let mut results: Vec<DeliveryResult> = Vec::new();
    if response.code == 250 {
        let mut k: usize = 0;
        while k < accepted.len()
            invariant
                k <= accepted@.len(),
                results@.len() == k,
                forall|j: int|
                    0 <= j < k ==> #[trigger] results@[j] == (DeliveryResult::Account {
                        status: accepted@[j].1,
                        rcpt_idx: accepted@[j].0,
                    }),
            decreases accepted.len() - k,
        {
            let status = crate::delivery::duplicate_status(&accepted[k].1);
            results.push(DeliveryResult::Account { status, rcpt_idx: accepted[k].0 });
            k = k + 1;
        }
    } else {
        let err = SmtpError { kind: SmtpErrorKind::UnexpectedReply(response), text: String::new() };
        let status = from_smtp_error(hostname, data_cmd, err);
        results.push(DeliveryResult::Domain { status, rcpt_idxs });
    }
    results
}

/// The outcome of a transaction after an LMTP server's replies to the
/// message data, one per accepted recipient in order: a 2xx reply delivers
/// the recipient; any other fails it at the data command, permanently on a
/// 5xx reply. Recipients without a reply are left out.
pub fn lmtp_data_results(
    hostname: &str,
    data_cmd: &str,
    accepted: &Vec<usize>,
    responses: Vec<Response>,
) -> (r: Vec<DeliveryResult>)
    ensures
        r@.len() == (if accepted@.len() < responses@.len() {
            accepted@.len()
        } else {
            responses@.len()
        }),
        forall|k: int|
            0 <= k < r@.len() ==> {
                let resp = responses@[k];
                &&& (#[trigger] r@[k]) is Account
                &&& r@[k]->Account_rcpt_idx == accepted@[k]
                &&& (severity_of(resp.code) == Severity::PositiveCompletion ==> {
                    let s = r@[k]->Account_status;
                    s is Completed && s->Completed_0.hostname@ == hostname@ && s->Completed_0.response == resp
                })
                &&& (severity_of(resp.code) != Severity::PositiveCompletion ==> is_reply_status(
                    r@[k]->Account_status,
                    hostname@,
                    data_cmd@,
                    resp,
                ))
            },
{
    let mut results: Vec<DeliveryResult> = Vec::new();
    let mut k: usize = 0;
    while k < accepted.len() && k < responses.len()
        invariant
            k <= accepted@.len(),
            k <= responses@.len(),
            results@.len() == k,
            forall|j: int|
                0 <= j < k ==> {
                    let resp = responses@[j];
                    &&& (#[trigger] results@[j]) is Account
                    &&& results@[j]->Account_rcpt_idx == accepted@[j]
                    &&& (severity_of(resp.code) == Severity::PositiveCompletion ==> {
                        let s = results@[j]->Account_status;
                        s is Completed && s->Completed_0.hostname@ == hostname@ && s->Completed_0.response == resp
                    })
                    &&& (severity_of(resp.code) != Severity::PositiveCompletion ==> is_reply_status(
                        results@[j]->Account_status,
                        hostname@,
                        data_cmd@,
                        resp,
                    ))
                },
        decreases accepted.len() - k,
    {
        let resp = &responses[k];
        let response = Response { code: resp.code, esc: resp.esc, message: resp.message.clone() };
        let status = match response.severity() {
            Severity::PositiveCompletion => Status::Completed(
                HostResponse { hostname: String::from_str(hostname), response },
            ),
            severity => {
                let details = ErrorDetails {
                    entity: String::from_str(hostname),
                    details: Error::UnexpectedResponse(
                        UnexpectedResponse { command: String::from_str(data_cmd), response },
                    ),
                };
                match severity {
                    Severity::PermanentNegativeCompletion => Status::PermanentFailure(details),
                    _ => Status::TemporaryFailure(details),
                }
            },
        };
        results.push(DeliveryResult::Account { status, rcpt_idx: accepted[k] });
        k = k + 1;
    }
    results
}

/// The body of a message after the transparency procedure (RFC 5321,
/// section 4.5.2): a dot that follows a CR or LF is doubled.
pub open spec fn dot_stuffed(m: Seq<u8>) -> Seq<u8>
    decreases m.len(),
{
    if m.len() == 0 {
        Seq::empty()
    } else {
        dot_stuffed(m.drop_last()) + (if m.last() == 46u8 && after_line_break(m.drop_last()) {
            seq![46u8, 46u8]
        } else {
            seq![m.last()]
        })
    }
}

/// Whether the next byte of a body follows a CR or LF that the transparency
/// procedure has not yet acted on.
pub open spec fn after_line_break(m: Seq<u8>) -> bool
    decreases m.len(),
{
    if m.len() == 0 {
        false
    } else if m.last() == 46u8 && after_line_break(m.drop_last()) {
        false
    } else {
        m.last() == 10u8 || m.last() == 13u8
    }
}

/// The bytes sent for a message body: the body with every dot that
/// follows a CR or LF doubled, then the end-of-data line.
pub open spec fn data_payload(m: Seq<u8>) -> Seq<u8> {
    dot_stuffed(m) + seq![13u8, 10u8, 46u8, 13u8, 10u8]
}

/// The bytes to send for a message body after `DATA`.
pub fn write_message(message: &[u8]) -> (r: Vec<u8>)
    ensures
        r@ == data_payload(message@),
{
    let mut out: Vec<u8> = Vec::new();
    let mut is_cr_or_lf = false;
    let mut i: usize = 0;
    while i < message.len()
        invariant
            i <= message@.len(),
            out@ == dot_stuffed(message@.take(i as int)),
            is_cr_or_lf == after_line_break(message@.take(i as int)),
        decreases message.len() - i,
    {
        let b = message[i];
        assert(message@.take(i + 1).drop_last() =~= message@.take(i as int));
        assert(message@.take(i + 1).last() == b);
        if b == 46u8 && is_cr_or_lf {
            out.push(46u8);
            out.push(46u8);
            is_cr_or_lf = false;
        } else {
            out.push(b);
            is_cr_or_lf = b == 10u8 || b == 13u8;
        }
        i = i + 1;
    }
    assert(message@.take(message@.len() as int) =~= message@);
    out.push(13u8);
    out.push(10u8);
    out.push(46u8);
    out.push(13u8);
    out.push(10u8);
    assert(out@ =~= data_payload(message@));
    out
}


/// Why a DNS lookup failed.
pub enum DnsFailure {
    /// No such record, with the name of the response code.
    RecordNotFound(String),
    /// A record that does not parse, with the error's text.
    InvalidRecordType(String),
    /// Another failure, with the error's text.
    Other(String),
}

/// Why the MTA-STS policy of a domain could not be had.
pub enum MtaStsFailure {
    /// The policy's DNS record could not be looked up.
    Dns(DnsFailure),
    /// Fetching the policy timed out.
    HttpTimeout,
    /// The policy host could not be reached.
    HttpConnect,
    /// The policy host answered 404.
    HttpNotFound,
    /// Fetching the policy failed otherwise.
    HttpOther,
    /// The policy does not parse, with the parser's text.
    InvalidPolicy(String),
}

/// `r` is a failure of `entity`, permanent or not, whose error is `e`.
pub open spec fn failure_with(r: DeliveryStatus, permanent: bool, entity: Seq<char>, e: Error) -> bool {
    match r {
        Status::PermanentFailure(d) => permanent && d.entity@ == entity && same_error_text(d.details, e),
        Status::TemporaryFailure(d) => !permanent && d.entity@ == entity && same_error_text(d.details, e),
        _ => false,
    }
}

/// The two errors are of the same kind, with the same text.
pub open spec fn same_error_text(a: Error, b: Error) -> bool {
    match (a, b) {
        (Error::DnsError(x), Error::DnsError(y)) => x@ == y@,
        (Error::MtaStsError(x), Error::MtaStsError(y)) => x@ == y@,
        _ => false,
    }
}

/// The text `a` followed by `b`.
fn join2(a: &str, b: &str) -> (r: String)
    ensures
        r@ == a@ + b@,
{
    let mut t = String::from_str(a);
    push_str(&mut t, b);
    t
}

/// The status of a failed DNS lookup for `entity`: a missing record fails
/// permanently, naming the response code; other failures temporarily,
/// with their text.
pub fn from_mail_auth_error(entity: &str, err: DnsFailure) -> (r: DeliveryStatus)
    ensures
        match err {
            DnsFailure::RecordNotFound(code) => exists|t: String| t@ == "Domain not found: "@ + code@
                && failure_with(r, true, entity@, Error::DnsError(t)),
            DnsFailure::InvalidRecordType(t) => failure_with(r, false, entity@, Error::DnsError(t)),
            DnsFailure::Other(t) => failure_with(r, false, entity@, Error::DnsError(t)),
        },
{
    let entity = String::from_str(entity);
    match err {
        DnsFailure::RecordNotFound(code) => {
            let t = join2("Domain not found: ", code.as_str());
            let ghost g = t;
            let r = Status::PermanentFailure(ErrorDetails { entity, details: Error::DnsError(t) });
            assert(failure_with(r, true, entity@, Error::DnsError(g)));
            r
        },
        DnsFailure::InvalidRecordType(t) => Status::TemporaryFailure(ErrorDetails { entity, details: Error::DnsError(t) }),
        DnsFailure::Other(t) => Status::TemporaryFailure(ErrorDetails { entity, details: Error::DnsError(t) }),
    }
}

/// Whether an MTA-STS failure is permanent, and its text.
pub open spec fn mta_sts_outcome(err: MtaStsFailure) -> (bool, Seq<char>) {
    match err {
        MtaStsFailure::Dns(DnsFailure::RecordNotFound(code)) => (true, "Record not found: "@ + code@),
        MtaStsFailure::Dns(DnsFailure::InvalidRecordType(_)) => (true, "Failed to parse MTA-STS DNS record."@),
        MtaStsFailure::Dns(DnsFailure::Other(t)) => (false, "DNS lookup error: "@ + t@),
        MtaStsFailure::HttpTimeout => (false, "Timeout fetching policy."@),
        MtaStsFailure::HttpConnect => (false, "Could not reach policy host."@),
        MtaStsFailure::HttpNotFound => (true, "Policy not found."@),
        MtaStsFailure::HttpOther => (false, "Failed to fetch policy."@),
        MtaStsFailure::InvalidPolicy(t) => (true, "Failed to parse policy: "@ + t@),
    }
}

/// The status of a domain whose MTA-STS policy could not be had: a missing
/// or unparsable record or policy, or a policy host answering 404, fails
/// permanently; timeouts, unreachable hosts and other failures
/// temporarily. See [`mta_sts_outcome`].
pub fn from_mta_sts_error(entity: &str, err: MtaStsFailure) -> (r: DeliveryStatus)
    ensures
        exists|t: String| t@ == mta_sts_outcome(err).1
            && failure_with(r, mta_sts_outcome(err).0, entity@, Error::MtaStsError(t)),
{
    let ghost e = err;
    let entity = String::from_str(entity);
    let (permanent, t) = match err {
        MtaStsFailure::Dns(DnsFailure::RecordNotFound(code)) => (true, join2("Record not found: ", code.as_str())),
        MtaStsFailure::Dns(DnsFailure::InvalidRecordType(_)) => (true, String::from_str("Failed to parse MTA-STS DNS record.")),
        MtaStsFailure::Dns(DnsFailure::Other(x)) => (false, join2("DNS lookup error: ", x.as_str())),
        MtaStsFailure::HttpTimeout => (false, String::from_str("Timeout fetching policy.")),
        MtaStsFailure::HttpConnect => (false, String::from_str("Could not reach policy host.")),
        MtaStsFailure::HttpNotFound => (true, String::from_str("Policy not found.")),
        MtaStsFailure::HttpOther => (false, String::from_str("Failed to fetch policy.")),
        MtaStsFailure::InvalidPolicy(x) => (true, join2("Failed to parse policy: ", x.as_str())),
    };
    assert(t@ == mta_sts_outcome(e).1 && permanent == mta_sts_outcome(e).0);
    let ghost g = t;
    let details = ErrorDetails { entity, details: Error::MtaStsError(t) };
    let r = if permanent {
        Status::PermanentFailure(details)
    } else {
        Status::TemporaryFailure(details)
    };
    assert(failure_with(r, mta_sts_outcome(e).0, entity@, Error::MtaStsError(g)));
    r
}

} // verus!
