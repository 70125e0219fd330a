//! The delivery status notification as a MIME message: the verified report
//! of `dsn` framed as a `multipart/report` with `mail_builder`.

use vstd::prelude::*;
use vstd::string::StrSliceExecFns;
use mail_builder::headers::content_type::ContentType;
use mail_builder::headers::HeaderType;
use mail_builder::mime::{BodyPart, MimePart};
use mail_builder::MessageBuilder;
use crate::delivery::QueueSettings;
use crate::dsn::{after_dsn, double_bounced, dsn_texts, expiries_leave_room, notify_fits, quoted_headers};
use crate::queue::{expiries_fit, Message, MessageWrapper};

verus! {

#[verifier::external_type_specification]
#[verifier::external_body]
pub struct ExMimePart<'x>(mail_builder::mime::MimePart<'x>);

/// A multipart MIME part built with `mail_builder::mime::MimePart::new`:
/// the multipart content type with one attribute, holding a text part of
/// each content type and text, in order. Nothing is claimed of the part,
/// which Verus does not see into.
#[verifier::external_body]
fn mime_multipart(
    content_type: String,
    attribute: (String, String),
    parts: [(String, String); 3],
) -> MimePart<'static> {
    let [(t1, b1), (t2, b2), (t3, b3)] = parts;
    MimePart::new(
        ContentType::new(content_type).attribute(attribute.0, attribute.1),
        BodyPart::Multipart(vec![
            MimePart::new(ContentType::new(t1), BodyPart::Text(b1.into())),
            MimePart::new(ContentType::new(t2), BodyPart::Text(b2.into())),
            MimePart::new(ContentType::new(t3), BodyPart::Text(b3.into())),
        ]),
    )
}

/// A pseudo-unique token from `mail_builder::mime::make_boundary`, made of
/// the clock, a counter and an address. Nothing is claimed of it.
#[verifier::external_body]
fn unique_token(separator: &str) -> String {
    mail_builder::mime::make_boundary(separator)
}

/// The bytes of a message written by `mail_builder::MessageBuilder`: a
/// `From` of the name and address, the two text headers, the Message-ID,
/// the subject and the body; the builder adds the date of the clock and the
/// MIME version, and picks the part boundaries. An error of the writer
/// gives no bytes. Nothing is claimed of the bytes.
#[verifier::external_body]
fn message_bytes(
    from_name: &str,
    from_addr: &str,
    headers: [(String, String); 2],
    message_id: String,
    subject: &str,
    body: MimePart<'static>,
) -> Vec<u8> {
    let [(n1, v1), (n2, v2)] = headers;
    MessageBuilder::new().from((from_name, from_addr)).header(n1, HeaderType::Text(v1.into())).header(
        n2,
        HeaderType::Text(v2.into()),
    ).message_id(message_id).subject(subject).body(body).write_to_vec().unwrap_or_default()
}

impl MessageWrapper {
    /// Builds the delivery status notification that is due at `now` as a
    /// MIME message to the sender, from `from_name` and `from_addr`:
    /// a `multipart/report` of the human readable text, the delivery status
    /// and the header block quoted from `stored_prefix` (the start of the
    /// stored message, where it could be read). The recipients are marked
    /// and rescheduled as [`MessageWrapper::build_dsn`] does; `None` where
    /// nothing is to be reported.
    pub fn dsn_message(
        &mut self,
        now: u64,
        from_name: &str,
        from_addr: &str,
        reporting_mta: &str,
        stored_prefix: Option<&[u8]>,
        queues: &Vec<QueueSettings>,
    ) -> (r: Option<Vec<u8>>)
        requires
            expiries_fit(old(self).message.recipients@, old(self).message.created),
            queues@.len() == old(self).message.recipients@.len(),
            notify_fits(old(self).message.recipients@, queues@, now),
        ensures
            final(self).queue_id == old(self).queue_id,
            final(self).queue_name == old(self).queue_name,
            final(self).span_id == old(self).span_id,
            final(self).message == (Message { recipients: final(self).message.recipients, ..old(self).message }),
            final(self).message.recipients@.len() == old(self).message.recipients@.len(),
            ({
                let t = dsn_texts(old(self).message.recipients@, old(self).message.created, now);
                &&& forall|i: int|
                    0 <= i < old(self).message.recipients@.len() ==> #[trigger] final(self).message.recipients@[i]
                        == after_dsn(old(self).message.recipients@[i], now, t.delay.len() > 0, queues@[i].notify@)
                &&& (t.success.len() + t.delay.len() + t.failed.len() == 0) <==> r is None
            }),
    {
        let report = match self.build_dsn(now, reporting_mta, queues) {
            Some(d) => d,
            None => return None,
        };
        let headers = match stored_prefix {
            Some(buf) => quoted_headers(buf),
            None => String::new(),
        };
        let body = mime_multipart(
            String::from_str("multipart/report"),
            (String::from_str("report-type"), String::from_str("delivery-status")),
            [
                (String::from_str("text/plain"), report.text),
                (String::from_str("message/delivery-status"), report.delivery_status),
                (String::from_str("message/rfc822"), headers),
            ],
        );
        let mut message_id = String::from_str("<");
        message_id.append(unique_token(".").as_str());
        message_id.append("@");
        message_id.append(reporting_mta);
        message_id.append(">");
        let to = String::from_str(self.message.return_path.as_str());
        let bytes = message_bytes(
            from_name,
            from_addr,
            [
                (String::from_str("To"), to),
                (String::from_str("Auto-Submitted"), String::from_str("auto-generated")),
            ],
            message_id,
            report.subject.as_str(),
            body,
        );
        Some(bytes)
    }

    /// The notification to send for a message at `now`: where the message
    /// has a return path, the one that [`MessageWrapper::dsn_message`]
    /// builds; where it has none, nobody is told, and the recipients are
    /// handled as a double bounce ([`MessageWrapper::handle_double_bounce`]).
    pub fn dsn_to_send(
        &mut self,
        now: u64,
        from_name: &str,
        from_addr: &str,
        reporting_mta: &str,
        stored_prefix: Option<&[u8]>,
        queues: &Vec<QueueSettings>,
    ) -> (r: Option<Vec<u8>>)
        requires
            expiries_fit(old(self).message.recipients@, old(self).message.created),
            old(self).message.return_path@.len() == 0 ==> expiries_leave_room(
                old(self).message.recipients@,
                old(self).message.created,
            ),
            old(self).message.return_path@.len() > 0 ==> queues@.len() == old(
                self,
            ).message.recipients@.len() && notify_fits(old(self).message.recipients@, queues@, now),
        ensures
            final(self).queue_id == old(self).queue_id,
            final(self).queue_name == old(self).queue_name,
            final(self).span_id == old(self).span_id,
            final(self).message == (Message { recipients: final(self).message.recipients, ..old(self).message }),
            final(self).message.recipients@.len() == old(self).message.recipients@.len(),
            old(self).message.return_path@.len() == 0 ==> r is None && forall|i: int|
                0 <= i < old(self).message.recipients@.len() ==> #[trigger] final(self).message.recipients@[i]
                    == double_bounced(old(self).message.recipients@[i], old(self).message.created, now),
            old(self).message.return_path@.len() > 0 ==> {
                let t = dsn_texts(old(self).message.recipients@, old(self).message.created, now);
                &&& forall|i: int|
                    0 <= i < old(self).message.recipients@.len() ==> #[trigger] final(self).message.recipients@[i]
                        == after_dsn(old(self).message.recipients@[i], now, t.delay.len() > 0, queues@[i].notify@)
                &&& (t.success.len() + t.delay.len() + t.failed.len() == 0) <==> r is None
            },
    {
        if self.message.return_path.as_str().unicode_len() > 0 {
            self.dsn_message(now, from_name, from_addr, reporting_mta, stored_prefix, queues)
        } else {
            let _reported = self.handle_double_bounce(now);
            None
        }
    }
}

} // verus!
