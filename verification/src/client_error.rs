//! The failures of the SMTP client, their descriptions, and the checks that
//! turn an unexpected reply into a failure.

use vstd::prelude::*;
use crate::queue::{severity_of, Response, Severity};
use crate::text::push_str;
use crate::tls_policy::response_text;

verus! {

/// A failure of the SMTP client. I/O, TLS and Base64 failures carry the
/// description of the underlying error.
pub enum ClientError {
    Io(String),
    Tls(String),
    Base64(String),
    InvalidChallenge,
    UnparseableReply,
    UnexpectedReply(Response),
    AuthenticationFailed(Response),
    InvalidTlsName,
    MissingCredentials,
    MissingMailFrom,
    MissingRcptTo,
    UnsupportedAuthMechanism,
    Timeout,
    MissingStartTls,
}

/// The description of a client failure.
pub open spec fn client_error_text(e: ClientError) -> Seq<char> {
    match e {
        ClientError::Io(t) => "I/O error: "@ + t@,
        ClientError::Tls(t) => "TLS error: "@ + t@,
        ClientError::Base64(t) => "Base64 decode error: "@ + t@,
        ClientError::InvalidChallenge => "SMTP authentication error: Invalid challenge"@,
        ClientError::UnparseableReply => "Unparseable SMTP reply"@,
        ClientError::UnexpectedReply(r) => "Unexpected reply: "@ + response_text(r),
        ClientError::AuthenticationFailed(r) => "Authentication failed: "@ + response_text(r),
        ClientError::InvalidTlsName => "Invalid TLS name provided"@,
        ClientError::MissingCredentials => "Missing authentication credentials"@,
        ClientError::MissingMailFrom => "Missing message sender"@,
        ClientError::MissingRcptTo => "Missing message recipients"@,
        ClientError::UnsupportedAuthMechanism => "The server does no support any of the available authentication methods"@,
        ClientError::Timeout => "Connection timeout"@,
        ClientError::MissingStartTls => "STARTTLS extension unavailable"@,
    }
}

impl ClientError {
    /// The description of the failure.
    pub fn text(&self) -> (r: String)
        ensures
            r@ == client_error_text(*self),
    {
        let mut s = String::new();
        match self {
            ClientError::Io(t) => {
                push_str(&mut s, "I/O error: ");
                push_str(&mut s, t.as_str());
            },
            ClientError::Tls(t) => {
                push_str(&mut s, "TLS error: ");
                push_str(&mut s, t.as_str());
            },
            ClientError::Base64(t) => {
                push_str(&mut s, "Base64 decode error: ");
                push_str(&mut s, t.as_str());
            },
            ClientError::InvalidChallenge => push_str(&mut s, "SMTP authentication error: Invalid challenge"),
            ClientError::UnparseableReply => push_str(&mut s, "Unparseable SMTP reply"),
            ClientError::UnexpectedReply(r) => {
                push_str(&mut s, "Unexpected reply: ");
                let t = r.report_text();
                push_str(&mut s, t.as_str());
            },
            ClientError::AuthenticationFailed(r) => {
                push_str(&mut s, "Authentication failed: ");
                let t = r.report_text();
                push_str(&mut s, t.as_str());
            },
            ClientError::InvalidTlsName => push_str(&mut s, "Invalid TLS name provided"),
            ClientError::MissingCredentials => push_str(&mut s, "Missing authentication credentials"),
            ClientError::MissingMailFrom => push_str(&mut s, "Missing message sender"),
            ClientError::MissingRcptTo => push_str(&mut s, "Missing message recipients"),
            ClientError::UnsupportedAuthMechanism => push_str(
                &mut s,
                "The server does no support any of the available authentication methods",
            ),
            ClientError::Timeout => push_str(&mut s, "Connection timeout"),
            ClientError::MissingStartTls => push_str(&mut s, "STARTTLS extension unavailable"),
        }
        proof {
            reveal_strlit("");
        }
        assert(s@ =~= client_error_text(*self));
        s
    }
}

impl Response {
    /// Accepts a reply of the given severity; any other is an unexpected
    /// reply.
    pub fn assert_severity(self, severity: Severity) -> (r: Result<(), ClientError>)
        ensures
            severity_of(self.code) == severity ==> r is Ok,
            severity_of(self.code) != severity ==> r == Err::<(), ClientError>(ClientError::UnexpectedReply(self)),
    {
        let matches = match (self.severity(), severity) {
            (Severity::PositiveCompletion, Severity::PositiveCompletion)
            | (Severity::PositiveIntermediate, Severity::PositiveIntermediate)
            | (Severity::TransientNegativeCompletion, Severity::TransientNegativeCompletion)
            | (Severity::PermanentNegativeCompletion, Severity::PermanentNegativeCompletion)
            | (Severity::Invalid, Severity::Invalid) => true,
            _ => false,
        };
        if matches {
            Ok(())
        } else {
            Err(ClientError::UnexpectedReply(self))
        }
    }

    /// Accepts a 2xx reply; any other is an unexpected reply.
    pub fn assert_positive_completion(self) -> (r: Result<(), ClientError>)
        ensures
            200 <= self.code <= 299 ==> r is Ok,
            !(200 <= self.code <= 299) ==> r == Err::<(), ClientError>(ClientError::UnexpectedReply(self)),
    {
        if 200 <= self.code && self.code <= 299 {
            Ok(())
        } else {
            Err(ClientError::UnexpectedReply(self))
        }
    }

    /// Accepts a reply with the given code; any other is an unexpected
    /// reply.
    pub fn assert_code(self, code: u16) -> (r: Result<(), ClientError>)
        ensures
            self.code == code ==> r is Ok,
            self.code != code ==> r == Err::<(), ClientError>(ClientError::UnexpectedReply(self)),
    {
        if self.code == code {
            Ok(())
        } else {
            Err(ClientError::UnexpectedReply(self))
        }
    }
}

} // verus!
