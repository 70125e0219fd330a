//! The outbound queue's data model: recipients, their delivery status and
//! schedules, and the queries that the queue manager runs over them.

use vstd::prelude::*;
use crate::text::{domain_of, domain_part, last_index_of, push_str, rfind_char, str_eq};

verus! {

/// Recipient asked for a notification on success.
pub const RCPT_NOTIFY_SUCCESS: u64 = 1u64 << 0u64;
/// Recipient asked for a notification on failure.
pub const RCPT_NOTIFY_FAILURE: u64 = 1u64 << 1u64;
/// Recipient asked for a notification on delay.
pub const RCPT_NOTIFY_DELAY: u64 = 1u64 << 2u64;
/// Recipient asked never to be notified.
pub const RCPT_NOTIFY_NEVER: u64 = 1u64 << 3u64;
/// A final delivery status notification was already sent for the recipient.
pub const RCPT_DSN_SENT: u64 = 1u64 << 32u64;

/// Sender asked for the full message to be returned.
pub const MAIL_RET_FULL: u64 = 1u64 << 3u64;
/// Sender asked for the headers to be returned.
pub const MAIL_RET_HDRS: u64 = 1u64 << 4u64;
/// Message requires SMTPUTF8.
pub const MAIL_SMTPUTF8: u64 = 1u64 << 5u64;
/// Message requires TLS on every hop.
pub const MAIL_REQUIRETLS: u64 = 1u64 << 6u64;

/// Severity of an SMTP reply, given by the first digit of its code.
#[derive(Debug, Clone, Copy, PartialEq, Eq, Structural)]
pub enum Severity {
    PositiveCompletion,
    PositiveIntermediate,
    TransientNegativeCompletion,
    PermanentNegativeCompletion,
    Invalid,
}

/// The severity that a reply code stands for.
pub open spec fn severity_of(code: u16) -> Severity {
    if 200 <= code <= 299 {
        Severity::PositiveCompletion
    } else if 300 <= code <= 399 {
        Severity::PositiveIntermediate
    } else if 400 <= code <= 499 {
        Severity::TransientNegativeCompletion
    } else if 500 <= code <= 599 {
        Severity::PermanentNegativeCompletion
    } else {
        Severity::Invalid
    }
}

/// An SMTP reply: code, enhanced status code and text.
#[derive(Debug, Clone)]
pub struct Response {
    pub code: u16,
    pub esc: [u8; 3],
    pub message: String,
}

impl Response {
    /// Classifies the reply by its code.
    pub fn severity(&self) -> (r: Severity)
        ensures
            r == severity_of(self.code),
    {
        if 200 <= self.code && self.code <= 299 {
            Severity::PositiveCompletion
        } else if 300 <= self.code && self.code <= 399 {
            Severity::PositiveIntermediate
        } else if 400 <= self.code && self.code <= 499 {
            Severity::TransientNegativeCompletion
        } else if 500 <= self.code && self.code <= 599 {
            Severity::PermanentNegativeCompletion
        } else {
            Severity::Invalid
        }
    }

    /// `true` for a 2xx reply.
    pub fn is_positive_completion(&self) -> (r: bool)
        ensures
            r == (200 <= self.code <= 299),
    {
        200 <= self.code && self.code <= 299
    }
}

/// The reply with which a host accepted a recipient.
#[derive(Debug, Clone)]
pub struct HostResponse {
    pub hostname: String,
    pub response: Response,
}

/// A reply that rejected a command.
#[derive(Debug, Clone)]
pub struct UnexpectedResponse {
    pub command: String,
    pub response: Response,
}

/// Why a delivery attempt failed.
#[derive(Debug, Clone)]
pub enum Error {
    DnsError(String),
    UnexpectedResponse(UnexpectedResponse),
    ConnectionError(String),
    TlsError(String),
    DaneError(String),
    MtaStsError(String),
    RateLimited,
    ConcurrencyLimited,
    Io(String),
}

/// A failure and the host (or `localhost`) that caused it.
#[derive(Debug, Clone)]
pub struct ErrorDetails {
    pub entity: String,
    pub details: Error,
}

/// Delivery status of a recipient.
#[derive(Debug, Clone)]
pub enum Status<T, E> {
    Scheduled,
    Completed(T),
    TemporaryFailure(E),
    PermanentFailure(E),
}

/// The status that [`Status::into_permanent`] gives.
pub open spec fn permanent_of<T, E>(s: Status<T, E>) -> Status<T, E> {
    match s {
        Status::TemporaryFailure(v) => Status::PermanentFailure(v),
        other => other,
    }
}

/// The status that [`Status::into_temporary`] gives.
pub open spec fn temporary_of<T, E>(s: Status<T, E>) -> Status<T, E> {
    match s {
        Status::PermanentFailure(v) => Status::TemporaryFailure(v),
        other => other,
    }
}

/// `true` for a status that still awaits delivery.
pub open spec fn is_pending<T, E>(s: Status<T, E>) -> bool {
    s is Scheduled || s is TemporaryFailure
}

impl<T, E> Status<T, E> {
    /// Turns a temporary failure into a permanent one; other statuses stay.
    pub fn into_permanent(self) -> (r: Self)
        ensures
            r == permanent_of(self),
    {
        match self {
            Status::TemporaryFailure(v) => Status::PermanentFailure(v),
            v => v,
        }
    }

    /// Turns a permanent failure into a temporary one; other statuses stay.
    pub fn into_temporary(self) -> (r: Self)
        ensures
            r == temporary_of(self),
    {
        match self {
            Status::PermanentFailure(err) => Status::TemporaryFailure(err),
            other => other,
        }
    }

    /// `true` for a permanent failure.
    pub fn is_permanent(&self) -> (r: bool)
        ensures
            r == (*self is PermanentFailure),
    {
        match self {
            Status::PermanentFailure(_) => true,
            _ => false,
        }
    }
}

/// Turning a status permanent twice is turning it permanent once, and a
/// permanent failure made temporary and then permanent again is unchanged.
pub proof fn lemma_permanent_idempotent<T, E>(s: Status<T, E>)
    ensures
        permanent_of(permanent_of(s)) == permanent_of(s),
        s is PermanentFailure ==> permanent_of(temporary_of(s)) == s,
        s is TemporaryFailure ==> temporary_of(permanent_of(s)) == s,
{
}

/// The status of a recipient after a delivery attempt.
pub type DeliveryStatus = Status<HostResponse, ErrorDetails>;

impl Status<HostResponse, ErrorDetails> {
    /// A temporary connection failure for a timeout while in `stage`.
    pub fn timeout(hostname: &str, stage: &str) -> (r: Self)
        ensures
            r is TemporaryFailure,
            r->TemporaryFailure_0.entity@ == hostname@,
            r->TemporaryFailure_0.details is ConnectionError,
            r->TemporaryFailure_0.details->ConnectionError_0@ == "Timeout while "@ + stage@,
    {
        let mut m = String::new();
        push_str(&mut m, "Timeout while ");
        push_str(&mut m, stage);
        let mut entity = String::new();
        push_str(&mut entity, hostname);
        Status::TemporaryFailure(ErrorDetails { entity, details: Error::ConnectionError(m) })
    }

    /// The temporary failure for a message that could not be delivered locally.
    pub fn local_error() -> (r: Self)
        ensures
            r is TemporaryFailure,
            r->TemporaryFailure_0.entity@ == "localhost"@,
            r->TemporaryFailure_0.details is ConnectionError,
            r->TemporaryFailure_0.details->ConnectionError_0@
                == "Could not deliver message locally."@,
    {
        let mut m = String::new();
        push_str(&mut m, "Could not deliver message locally.");
        let mut entity = String::new();
        push_str(&mut entity, "localhost");
        Status::TemporaryFailure(ErrorDetails { entity, details: Error::ConnectionError(m) })
    }
}


/// Identifies a virtual queue.
#[derive(Debug, Clone, Copy, PartialEq, Eq, Structural)]
pub struct QueueName(pub u64);

/// When something is next due, and how many times it was already attempted.
#[derive(Debug, Clone, Copy, PartialEq, Eq, Structural)]
pub struct Schedule {
    pub due: u64,
    pub inner: u32,
}

/// When a recipient's delivery gives up: after a time or after attempts.
#[derive(Debug, Clone, Copy, PartialEq, Eq, Structural)]
pub enum QueueExpiry {
    Ttl(u64),
    Attempts(u32),
}

/// A recipient of a queued message.
#[derive(Debug, Clone)]
pub struct Recipient {
    pub address: String,
    pub address_lcase: String,
    pub status: DeliveryStatus,
    pub flags: u64,
    pub orcpt: Option<String>,
    pub retry: Schedule,
    pub notify: Schedule,
    pub expires: QueueExpiry,
    pub queue: QueueName,
}

/// The time at which a recipient created at `created` expires, if it expires by time.
pub open spec fn expiration_of(r: Recipient, created: u64) -> Option<u64> {
    match r.expires {
        QueueExpiry::Ttl(t) => Some((created + t) as u64),
        QueueExpiry::Attempts(_) => None,
    }
}

/// `true` when the expiration time of `r` fits in a `u64`.
pub open spec fn expiry_fits(r: Recipient, created: u64) -> bool {
    match r.expires {
        QueueExpiry::Ttl(t) => created + t <= u64::MAX,
        QueueExpiry::Attempts(_) => true,
    }
}

/// `true` when `r` has expired at `now`.
pub open spec fn expired_at(r: Recipient, created: u64, now: u64) -> bool {
    match r.expires {
        QueueExpiry::Ttl(t) => created + t <= now,
        QueueExpiry::Attempts(count) => r.retry.inner >= count,
    }
}

impl Recipient {
    /// `true` when any bit of `flag` is set.
    pub fn has_flag(&self, flag: u64) -> (r: bool)
        ensures
            r == (self.flags & flag != 0),
    {
        (self.flags & flag) != 0
    }

    /// The time at which the recipient expires, if it expires by time.
    pub fn expiration_time(&self, created: u64) -> (r: Option<u64>)
        requires
            expiry_fits(*self, created),
        ensures
            r == expiration_of(*self, created),
    {
        match self.expires {
            QueueExpiry::Ttl(time) => Some(created + time),
            QueueExpiry::Attempts(_) => None,
        }
    }

    /// `true` when the recipient has expired at `now`.
    pub fn is_expired(&self, created: u64, now: u64) -> (r: bool)
        requires
            expiry_fits(*self, created),
        ensures
            r == expired_at(*self, created, now),
    {
        match self.expires {
            QueueExpiry::Ttl(time) => created + time <= now,
            QueueExpiry::Attempts(count) => self.retry.inner >= count,
        }
    }
}


/// A message waiting in the queue.
#[derive(Debug, Clone)]
pub struct Message {
    pub created: u64,
    pub return_path: String,
    pub return_path_lcase: String,
    pub return_path_domain: String,
    pub recipients: Vec<Recipient>,
    pub flags: u64,
    pub env_id: Option<String>,
    pub priority: i16,
    pub size: u64,
    pub blob_hash: Vec<u8>,
    pub quota_keys: Vec<QuotaKey>,
}

/// A quota that a message holds until its recipients are done.
#[derive(Debug, Clone)]
pub enum QuotaKey {
    Size { key: Vec<u8>, id: u64 },
    Count { key: Vec<u8>, id: u64 },
}

/// `true` when every time-based expiration of the message fits in a `u64`.
pub open spec fn expiries_fit(rs: Seq<Recipient>, created: u64) -> bool {
    forall|i: int| 0 <= i < rs.len() ==> expiry_fits(#[trigger] rs[i], created)
}

/// The smaller of an optional running minimum and a value.
pub open spec fn min_opt(acc: Option<u64>, v: u64) -> Option<u64> {
    match acc {
        Some(a) => Some(if v < a { v } else { a }),
        None => Some(v),
    }
}

/// The larger of an optional running maximum and a value.
pub open spec fn max_opt(acc: Option<u64>, v: u64) -> Option<u64> {
    match acc {
        Some(a) => Some(if v > a { v } else { a }),
        None => Some(v),
    }
}

/// The least key over the recipients whose key is defined.
pub open spec fn min_over(rs: Seq<Recipient>, key: spec_fn(Recipient) -> Option<u64>) -> Option<u64>
    decreases rs.len(),
{
    if rs.len() == 0 {
        None
    } else {
        let prev = min_over(rs.drop_last(), key);
        match key(rs.last()) {
            Some(v) => min_opt(prev, v),
            None => prev,
        }
    }
}

/// The greatest key over the recipients whose key is defined.
pub open spec fn max_over(rs: Seq<Recipient>, key: spec_fn(Recipient) -> Option<u64>) -> Option<u64>
    decreases rs.len(),
{
    if rs.len() == 0 {
        None
    } else {
        let prev = max_over(rs.drop_last(), key);
        match key(rs.last()) {
            Some(v) => max_opt(prev, v),
            None => prev,
        }
    }
}

/// `true` for a recipient still awaiting delivery in `queue` (any queue for `None`).
pub open spec fn pending_in(r: Recipient, queue: Option<QueueName>) -> bool {
    is_pending(r.status) && (queue is None || r.queue == queue->0)
}

/// The earliest of a recipient's retry, notification and expiration times.
pub open spec fn earliest_event(r: Recipient, created: u64) -> u64 {
    let e = if r.retry.due < r.notify.due { r.retry.due } else { r.notify.due };
    match expiration_of(r, created) {
        Some(x) => if x < e { x } else { e },
        None => e,
    }
}

/// Key of [`Message::next_event`].
pub open spec fn event_key(created: u64, queue: Option<QueueName>) -> spec_fn(Recipient) -> Option<u64> {
    |r: Recipient| if pending_in(r, queue) { Some(earliest_event(r, created)) } else { None }
}

/// Key of [`Message::next_delivery_event`].
pub open spec fn retry_key(queue: Option<QueueName>) -> spec_fn(Recipient) -> Option<u64> {
    |r: Recipient| if pending_in(r, queue) { Some(r.retry.due) } else { None }
}

/// Key of [`Message::next_dsn`].
pub open spec fn notify_key(queue: Option<QueueName>) -> spec_fn(Recipient) -> Option<u64> {
    |r: Recipient| if pending_in(r, queue) { Some(r.notify.due) } else { None }
}

/// Key of [`Message::expires`].
pub open spec fn expiry_key(created: u64, queue: Option<QueueName>) -> spec_fn(Recipient) -> Option<u64> {
    |r: Recipient| if pending_in(r, queue) { expiration_of(r, created) } else { None }
}

fn queue_matches(r: &Recipient, queue: Option<QueueName>) -> (b: bool)
    ensures
        b == pending_in(*r, queue),
{
    let pending = match r.status {
        Status::Scheduled | Status::TemporaryFailure(_) => true,
        _ => false,
    };
    pending && match queue {
        None => true,
        Some(q) => r.queue == q,
    }
}

/// `min_over` is defined exactly when some recipient's key is.
pub proof fn lemma_min_over_some(rs: Seq<Recipient>, key: spec_fn(Recipient) -> Option<u64>)
    ensures
        min_over(rs, key) is Some <==> exists|k: int| 0 <= k < rs.len() && (#[trigger] key(rs[k])) is Some,
    decreases rs.len(),
{
    if rs.len() > 0 {
        lemma_min_over_some(rs.drop_last(), key);
        if min_over(rs.drop_last(), key) is Some {
            let k = choose|k: int| 0 <= k < rs.drop_last().len() && (#[trigger] key(rs.drop_last()[k])) is Some;
            assert(rs[k] == rs.drop_last()[k]);
        }
        if exists|k: int| 0 <= k < rs.len() && (#[trigger] key(rs[k])) is Some {
            let k = choose|k: int| 0 <= k < rs.len() && (#[trigger] key(rs[k])) is Some;
            if k < rs.len() - 1 {
                assert(rs.drop_last()[k] == rs[k]);
            }
        }
    }
}

/// Finds the entry for `queue` among per-queue results.
fn find_queue(events: &Vec<(QueueName, u64)>, queue: QueueName) -> (r: Option<usize>)
    ensures
        r matches Some(j) ==> j < events@.len() && events@[j as int].0 == queue,
        r is None ==> forall|j: int| 0 <= j < events@.len() ==> events@[j].0 != queue,
{
    let mut j: usize = 0;
    while j < events.len()
        invariant
            j <= events@.len(),
            forall|k: int| 0 <= k < j ==> events@[k].0 != queue,
        decreases events@.len() - j,
    {
        if events[j].0 == queue {
            return Some(j);
        }
        j = j + 1;
    }
    None
}

impl Message {
    /// Whether every time-based expiry of the recipients fits in a `u64`
    /// when added to the creation time.
    pub fn expiry_times_fit(&self) -> (r: bool)
        ensures
            r == expiries_fit(self.recipients@, self.created),
    {
        let mut i: usize = 0;
        while i < self.recipients.len()
            invariant
                i <= self.recipients@.len(),
                forall|j: int| 0 <= j < i ==> expiry_fits(#[trigger] self.recipients@[j], self.created),
            decreases self.recipients.len() - i,
        {
            match self.recipients[i].expires {
                QueueExpiry::Ttl(t) => {
                    if t > u64::MAX - self.created {
                        assert(!expiry_fits(self.recipients@[i as int], self.created));
                        return false;
                    }
                },
                QueueExpiry::Attempts(_) => {},
            }
            i = i + 1;
        }
        true
    }

    /// `true` when the message's expiration times fit in a `u64`.
    pub open spec fn wf(&self) -> bool {
        expiries_fit(self.recipients@, self.created)
    }

    /// The next time anything is due for a pending recipient of `queue`.
    pub fn next_event(&self, queue: Option<QueueName>) -> (r: Option<u64>)
        requires
            self.wf(),
        ensures
            r == min_over(self.recipients@, event_key(self.created, queue)),
    {
        let ghost rs = self.recipients@;
        let ghost key = event_key(self.created, queue);
        let mut next_event: Option<u64> = None;
        let mut i: usize = 0;
        while i < self.recipients.len()
            invariant
                rs == self.recipients@,
                key == event_key(self.created, queue),
                self.wf(),
                i <= rs.len(),
                next_event == min_over(rs.take(i as int), key),
            decreases rs.len() - i,
        {
            let rcpt = &self.recipients[i];
            assert(rs.take(i + 1).drop_last() =~= rs.take(i as int));
            assert(rs.take(i + 1).last() == rs[i as int]);
            if queue_matches(rcpt, queue) {
                let mut earlier_event = if rcpt.retry.due < rcpt.notify.due {
                    rcpt.retry.due
                } else {
                    rcpt.notify.due
                };
                assert(expiry_fits(rs[i as int], self.created));
                if let Some(expires) = rcpt.expiration_time(self.created) {
                    if expires < earlier_event {
                        earlier_event = expires;
                    }
                }
                match next_event {
                    Some(n) => {
                        if earlier_event < n {
                            next_event = Some(earlier_event);
                        }
                    },
                    None => {
                        next_event = Some(earlier_event);
                    },
                }
            }
            i = i + 1;
        }
        assert(rs.take(rs.len() as int) =~= rs);
        next_event
    }

    /// The next event of every queue that has a pending recipient: one entry
    /// per queue, each holding what [`Message::next_event`] gives for it.
    pub fn next_events(&self) -> (r: Vec<(QueueName, u64)>)
        requires
            self.wf(),
        ensures
            forall|j: int|
                0 <= j < r@.len() ==> min_over(self.recipients@, event_key(self.created, Some(#[trigger] r@[j].0)))
                    == Some(r@[j].1),
            forall|j: int, k: int| 0 <= j < k < r@.len() ==> r@[j].0 != r@[k].0,
            forall|q: QueueName|
                (#[trigger] min_over(self.recipients@, event_key(self.created, Some(q)))) is Some
                    ==> exists|j: int| 0 <= j < r@.len() && r@[j].0 == q,
    {
        let ghost rs = self.recipients@;
        let ghost created = self.created;
        let mut events: Vec<(QueueName, u64)> = Vec::new();
        let mut i: usize = 0;
        while i < self.recipients.len()
            invariant
                rs == self.recipients@,
                created == self.created,
                self.wf(),
                i <= rs.len(),
                forall|j: int|
                    0 <= j < events@.len() ==> min_over(rs.take(i as int), event_key(created, Some(#[trigger] events@[j].0)))
                        == Some(events@[j].1),
                forall|j: int, k: int| 0 <= j < k < events@.len() ==> events@[j].0 != events@[k].0,
                forall|q: QueueName|
                    (#[trigger] min_over(rs.take(i as int), event_key(created, Some(q)))) is Some
                        ==> exists|j: int| 0 <= j < events@.len() && events@[j].0 == q,
            decreases rs.len() - i,
        {
            let rcpt = &self.recipients[i];
            let ghost prev = events@;
            assert(rs.take(i + 1).drop_last() =~= rs.take(i as int));
            assert(rs.take(i + 1).last() == rs[i as int]);
            let pending = match rcpt.status {
                Status::Scheduled | Status::TemporaryFailure(_) => true,
                _ => false,
            };
            if pending {
                let mut earlier_event = if rcpt.retry.due < rcpt.notify.due {
                    rcpt.retry.due
                } else {
                    rcpt.notify.due
                };
                assert(expiry_fits(rs[i as int], self.created));
                if let Some(expires) = rcpt.expiration_time(self.created) {
                    if expires < earlier_event {
                        earlier_event = expires;
                    }
                }
                assert(earlier_event == earliest_event(rs[i as int], created));
                match find_queue(&events, rcpt.queue) {
                    Some(j) => {
                        if earlier_event < events[j].1 {
                            let q = events[j].0;
                            events.set(j, (q, earlier_event));
                        }
                        assert forall|k: int| 0 <= k < events@.len() implies min_over(
                            rs.take(i + 1),
                            event_key(created, Some(#[trigger] events@[k].0)),
                        ) == Some(events@[k].1) by {
                            assert(min_over(rs.take(i as int), event_key(created, Some(prev[k].0)))
                                == Some(prev[k].1));
                        }
                        assert forall|q: QueueName|
                            (#[trigger] min_over(rs.take(i + 1), event_key(created, Some(q))))
                                is Some implies exists|k: int| 0 <= k < events@.len() && events@[k].0 == q by {
                            if q != rcpt.queue {
                                assert(min_over(rs.take(i as int), event_key(created, Some(q))) is Some);
                                let k = choose|k: int| 0 <= k < prev.len() && prev[k].0 == q;
                                assert(events@[k].0 == q);
                            } else {
                                assert(events@[j as int].0 == q);
                            }
                        }
                    },
                    None => {
                        proof {
                            if min_over(rs.take(i as int), event_key(created, Some(rcpt.queue))) is Some {
                                let k = choose|k: int| 0 <= k < prev.len() && prev[k].0 == rcpt.queue;
                                assert(false);
                            }
                        }
                        events.push((rcpt.queue, earlier_event));
                        assert forall|k: int| 0 <= k < events@.len() implies min_over(
                            rs.take(i + 1),
                            event_key(created, Some(#[trigger] events@[k].0)),
                        ) == Some(events@[k].1) by {
                            if k < prev.len() {
                                assert(events@[k] == prev[k]);
                                assert(min_over(rs.take(i as int), event_key(created, Some(prev[k].0)))
                                    == Some(prev[k].1));
                            }
                        }
                        assert forall|q: QueueName|
                            (#[trigger] min_over(rs.take(i + 1), event_key(created, Some(q))))
                                is Some implies exists|k: int| 0 <= k < events@.len() && events@[k].0 == q by {
                            if q != rcpt.queue {
                                assert(min_over(rs.take(i as int), event_key(created, Some(q))) is Some);
                                let k = choose|k: int| 0 <= k < prev.len() && prev[k].0 == q;
                                assert(events@[k].0 == q);
                            } else {
                                assert(events@[prev.len() as int].0 == q);
                            }
                        }
                    },
                }
            } else {
                assert forall|q: QueueName|
                    min_over(rs.take(i + 1), event_key(created, Some(q))) == min_over(
                        rs.take(i as int),
                        event_key(created, Some(q)),
                    ) by {}
            }
            i = i + 1;
        }
        assert(rs.take(rs.len() as int) =~= rs);
        events
    }

    /// The next retry time of a pending recipient of `queue`.
    pub fn next_delivery_event(&self, queue: Option<QueueName>) -> (r: Option<u64>)
        ensures
            r == min_over(self.recipients@, retry_key(queue)),
    {
        let ghost rs = self.recipients@;
        let ghost key = retry_key(queue);
        let mut next: Option<u64> = None;
        let mut i: usize = 0;
        while i < self.recipients.len()
            invariant
                rs == self.recipients@,
                key == retry_key(queue),
                i <= rs.len(),
                next == min_over(rs.take(i as int), key),
            decreases rs.len() - i,
        {
            let rcpt = &self.recipients[i];
            assert(rs.take(i + 1).drop_last() =~= rs.take(i as int));
            if queue_matches(rcpt, queue) {
                match next {
                    Some(n) => {
                        if rcpt.retry.due < n {
                            next = Some(rcpt.retry.due);
                        }
                    },
                    None => {
                        next = Some(rcpt.retry.due);
                    },
                }
            }
            i = i + 1;
        }
        assert(rs.take(rs.len() as int) =~= rs);
        next
    }

    /// The next notification time of a pending recipient of `queue`.
    pub fn next_dsn(&self, queue: Option<QueueName>) -> (r: Option<u64>)
        ensures
            r == min_over(self.recipients@, notify_key(queue)),
    {
        let ghost rs = self.recipients@;
        let ghost key = notify_key(queue);
        let mut next: Option<u64> = None;
        let mut i: usize = 0;
        while i < self.recipients.len()
            invariant
                rs == self.recipients@,
                key == notify_key(queue),
                i <= rs.len(),
                next == min_over(rs.take(i as int), key),
            decreases rs.len() - i,
        {
            let rcpt = &self.recipients[i];
            assert(rs.take(i + 1).drop_last() =~= rs.take(i as int));
            if queue_matches(rcpt, queue) {
                match next {
                    Some(n) => {
                        if rcpt.notify.due < n {
                            next = Some(rcpt.notify.due);
                        }
                    },
                    None => {
                        next = Some(rcpt.notify.due);
                    },
                }
            }
            i = i + 1;
        }
        assert(rs.take(rs.len() as int) =~= rs);
        next
    }

    /// The latest expiration time of a pending recipient of `queue`.
    pub fn expires(&self, queue: Option<QueueName>) -> (r: Option<u64>)
        requires
            self.wf(),
        ensures
            r == max_over(self.recipients@, expiry_key(self.created, queue)),
    {
        let ghost rs = self.recipients@;
        let ghost key = expiry_key(self.created, queue);
        let mut expires: Option<u64> = None;
        let mut i: usize = 0;
        while i < self.recipients.len()
            invariant
                rs == self.recipients@,
                key == expiry_key(self.created, queue),
                self.wf(),
                i <= rs.len(),
                expires == max_over(rs.take(i as int), key),
            decreases rs.len() - i,
        {
            let rcpt = &self.recipients[i];
            assert(rs.take(i + 1).drop_last() =~= rs.take(i as int));
            assert(expiry_fits(rs[i as int], self.created));
            if queue_matches(rcpt, queue) {
                if let Some(rcpt_expires) = rcpt.expiration_time(self.created) {
                    match expires {
                        Some(e) => {
                            if rcpt_expires > e {
                                expires = Some(rcpt_expires);
                            }
                        },
                        None => {
                            expires = Some(rcpt_expires);
                        },
                    }
                }
            }
            i = i + 1;
        }
        assert(rs.take(rs.len() as int) =~= rs);
        expires
    }
}


/// A queued message together with its queue identity.
#[derive(Debug, Clone)]
pub struct MessageWrapper {
    pub queue_id: u64,
    pub queue_name: QueueName,
    pub span_id: u64,
    pub message: Message,
}

/// A message as stored in the queue's archive.
#[derive(Debug, Clone)]
pub struct ArchivedMessage {
    pub message: Message,
}

/// Whether a message still has recipients awaiting delivery, and whether one
/// of them belongs to the message's own queue.
#[derive(Debug, Clone, Copy, PartialEq, Eq, Structural)]
pub enum PendingDelivery {
    Yes(bool),
    No,
}

/// `true` when some entry of `domains` equals `d`.
pub open spec fn domain_listed(domains: Seq<String>, d: Seq<char>) -> bool {
    exists|j: int| 0 <= j < domains.len() && (#[trigger] domains[j])@ == d
}

/// `true` when a recipient's or the sender's domain is among `domains`.
pub open spec fn message_has_domain(m: Message, domains: Seq<String>) -> bool {
    (exists|i: int|
        0 <= i < m.recipients@.len() && domain_listed(
            domains,
            domain_of((#[trigger] m.recipients@[i]).address_lcase@),
        )) || (last_index_of(m.return_path@, '@') >= 0 && domain_listed(
        domains,
        domain_of(m.return_path@),
    ))
}

fn is_listed(domains: &[String], d: &str) -> (r: bool)
    ensures
        r == domain_listed(domains@, d@),
{
    let mut j: usize = 0;
    while j < domains.len()
        invariant
            j <= domains@.len(),
            forall|k: int| 0 <= k < j ==> (#[trigger] domains@[k])@ != d@,
        decreases domains@.len() - j,
    {
        if str_eq(domains[j].as_str(), d) {
            return true;
        }
        j = j + 1;
    }
    false
}

fn has_domain_of(m: &Message, domains: &[String]) -> (r: bool)
    ensures
        r == message_has_domain(*m, domains@),
{
    let mut i: usize = 0;
    while i < m.recipients.len()
        invariant
            i <= m.recipients@.len(),
            forall|k: int|
                0 <= k < i ==> !domain_listed(domains@, domain_of((#[trigger] m.recipients@[k]).address_lcase@)),
        decreases m.recipients@.len() - i,
    {
        let d = domain_part(m.recipients[i].address_lcase.as_str());
        if is_listed(domains, d) {
            return true;
        }
        i = i + 1;
    }
    match rfind_char(m.return_path.as_str(), '@') {
        Some(_) => is_listed(domains, domain_part(m.return_path.as_str())),
        None => false,
    }
}

/// The recipient after the expiration check of [`MessageWrapper::has_pending_delivery`].
pub open spec fn expire_checked(old: Recipient, new: Recipient, created: u64, now: u64) -> bool {
    &&& new == Recipient { status: new.status, ..old }
    &&& match old.status {
        Status::TemporaryFailure(e) => if expired_at(old, created, now) {
            new.status == Status::<HostResponse, ErrorDetails>::PermanentFailure(e)
        } else {
            new.status == old.status
        },
        Status::Scheduled => if expired_at(old, created, now) {
            &&& new.status is PermanentFailure
            &&& new.status->PermanentFailure_0.entity@ == domain_of(old.address_lcase@)
            &&& new.status->PermanentFailure_0.details is Io
            &&& new.status->PermanentFailure_0.details->Io_0@
                == "Message expired without any delivery attempts made."@
        } else {
            new.status == old.status
        },
        _ => new.status == old.status,
    }
}

/// `true` for a recipient that is pending and not expired.
pub open spec fn still_pending(r: Recipient, created: u64, now: u64) -> bool {
    is_pending(r.status) && !expired_at(r, created, now)
}

impl MessageWrapper {
    /// `true` when any bit of `flag` is set on the message.
    pub fn has_flag(&self, flag: u64) -> (r: bool)
        ensures
            r == (self.message.flags & flag != 0),
    {
        (self.message.flags & flag) != 0
    }

    /// `true` when a recipient's domain, or the sender's, is among `domains`.
    pub fn has_domain(&self, domains: &[String]) -> (r: bool)
        ensures
            r == message_has_domain(self.message, domains@),
    {
        has_domain_of(&self.message, domains)
    }

    /// Marks a recipient as rate limited until `retry_at`.
    pub fn set_rcpt_rate_limit(&mut self, rcpt_idx: usize, retry_at: u64)
        requires
            rcpt_idx < old(self).message.recipients@.len(),
        ensures
            final(self).message == (Message { recipients: final(self).message.recipients, ..old(self).message }),
            final(self).queue_id == old(self).queue_id,
            final(self).queue_name == old(self).queue_name,
            final(self).span_id == old(self).span_id,
            final(self).message.recipients@.len() == old(self).message.recipients@.len(),
            forall|i: int|
                0 <= i < old(self).message.recipients@.len() && i != rcpt_idx ==> final(self).message.recipients@[i]
                    == old(self).message.recipients@[i],
            ({
                let o = old(self).message.recipients@[rcpt_idx as int];
                let n = final(self).message.recipients@[rcpt_idx as int];
                &&& n == Recipient { retry: Schedule { due: retry_at, ..o.retry }, status: n.status, ..o }
                &&& n.status is TemporaryFailure
                &&& n.status->TemporaryFailure_0.entity@ == "localhost"@
                &&& n.status->TemporaryFailure_0.details is RateLimited
            }),
    {
        let mut entity = String::new();
        push_str(&mut entity, "localhost");
        let rcpt = &mut self.message.recipients[rcpt_idx];
        rcpt.retry.due = retry_at;
        rcpt.status = Status::TemporaryFailure(ErrorDetails { entity, details: Error::RateLimited });
    }

    /// Fails every expired recipient and tells whether any recipient is still
    /// pending, and whether one of those belongs to this message's queue.
    pub fn has_pending_delivery(&mut self, now: u64) -> (r: PendingDelivery)
        requires
            old(self).message.wf(),
        ensures
            final(self).message == (Message { recipients: final(self).message.recipients, ..old(self).message }),
            final(self).queue_id == old(self).queue_id,
            final(self).queue_name == old(self).queue_name,
            final(self).span_id == old(self).span_id,
            final(self).message.recipients@.len() == old(self).message.recipients@.len(),
            forall|i: int|
                0 <= i < old(self).message.recipients@.len() ==> expire_checked(
                    old(self).message.recipients@[i],
                    #[trigger] final(self).message.recipients@[i],
                    old(self).message.created,
                    now,
                ),
            r is No <==> forall|i: int|
                0 <= i < old(self).message.recipients@.len() ==> !still_pending(
                    #[trigger] old(self).message.recipients@[i],
                    old(self).message.created,
                    now,
                ),
            r matches PendingDelivery::Yes(m) ==> (m <==> exists|i: int|
                0 <= i < old(self).message.recipients@.len() && still_pending(
                    #[trigger] old(self).message.recipients@[i],
                    old(self).message.created,
                    now,
                ) && old(self).message.recipients@[i].queue == old(self).queue_name),
    {
        let ghost olds = self.message.recipients@;
        let created = self.message.created;
        let mut has_pending_delivery = false;
        let mut matches_queue = false;
        let mut i: usize = 0;
        while i < self.message.recipients.len()
            invariant
                olds == old(self).message.recipients@,
                created == old(self).message.created,
                self.message == (Message { recipients: self.message.recipients, ..old(self).message }),
                self.queue_id == old(self).queue_id,
                self.queue_name == old(self).queue_name,
                self.span_id == old(self).span_id,
                old(self).message.wf(),
                self.message.recipients@.len() == olds.len(),
                i <= olds.len(),
                forall|k: int|
                    0 <= k < i ==> expire_checked(olds[k], #[trigger] self.message.recipients@[k], created, now),
                forall|k: int| i <= k < olds.len() ==> self.message.recipients@[k] == olds[k],
                has_pending_delivery <==> exists|k: int| 0 <= k < i && still_pending(#[trigger] olds[k], created, now),
                matches_queue <==> exists|k: int|
                    0 <= k < i && still_pending(#[trigger] olds[k], created, now) && olds[k].queue
                        == self.queue_name,
            decreases olds.len() - i,
        {
            assert(expiry_fits(olds[i as int], created));
            let expired = self.message.recipients[i].is_expired(created, now);
            let kind: u8 = match self.message.recipients[i].status {
                Status::TemporaryFailure(_) => 1,
                Status::Scheduled => 2,
                _ => 0,
            };
            if kind == 1 && expired {
                let rcpt = &mut self.message.recipients[i];
                let mut status: DeliveryStatus = Status::Scheduled;
                std::mem::swap(&mut status, &mut rcpt.status);
                rcpt.status = status.into_permanent();
            } else if kind == 2 && expired {
                let d = domain_part(self.message.recipients[i].address_lcase.as_str());
                let mut entity = String::new();
                push_str(&mut entity, d);
                let mut m = String::new();
                push_str(&mut m, "Message expired without any delivery attempts made.");
                let rcpt = &mut self.message.recipients[i];
                rcpt.status = Status::PermanentFailure(ErrorDetails { entity, details: Error::Io(m) });
            } else if kind != 0 {
                has_pending_delivery = true;
                matches_queue = matches_queue || self.message.recipients[i].queue == self.queue_name;
            }
            i = i + 1;
        }
        if has_pending_delivery {
            PendingDelivery::Yes(matches_queue)
        } else {
            PendingDelivery::No
        }
    }
}

impl ArchivedMessage {
    /// `true` when a recipient's domain, or the sender's, is among `domains`.
    pub fn has_domain(&self, domains: &[String]) -> (r: bool)
        ensures
            r == message_has_domain(self.message, domains@),
    {
        has_domain_of(&self.message, domains)
    }

    /// The earliest retry time of a pending recipient, or `now` when none is pending.
    pub fn next_delivery_event(&self, now: u64) -> (r: u64)
        ensures
            r == match min_over(self.message.recipients@, retry_key(None)) {
                Some(v) => v,
                None => now,
            },
    {
        match self.message.next_delivery_event(None) {
            Some(v) => v,
            None => now,
        }
    }
}

} // verus!
