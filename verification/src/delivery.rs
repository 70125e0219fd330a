//! The decisions of a delivery attempt: whether a message is due, which
//! recipients are tried together, and how the outcomes of the attempt update
//! the recipients. Name resolution, connections and the SMTP dialogue are
//! the caller's.

use vstd::prelude::*;
use crate::manager::QueueEventStatus;
use crate::queue::{
    DeliveryStatus, Error, ErrorDetails, HostResponse, Message, MessageWrapper, PendingDelivery,
    QueueExpiry, QueueName, Recipient, Response, Schedule, Status, UnexpectedResponse, is_pending,
};
use crate::session::DeliveryResult;
use crate::text::{domain_of, domain_part, push_str, str_eq};
use crate::external::{lowercase, to_lowercase};

verus! {

/// What a delivery attempt does first.
#[derive(Clone, Copy, PartialEq, Eq, Structural)]
pub enum StartAction {
    /// Try to deliver now.
    Deliver,
    /// Every recipient is done: remove the message.
    Remove,
    /// Nothing is due in this queue yet: save the message and stop.
    Defer,
}

/// The settings of the queue that a recipient is retried in: the retry
/// and delay notification intervals in seconds, the expiry, and the
/// virtual queue.
pub struct QueueSettings {
    pub retry: Vec<u64>,
    pub notify: Vec<u64>,
    pub expiry: QueueExpiry,
    pub virtual_queue: QueueName,
}

/// Recipients of one domain that go the same route, by position.
pub struct RouteGroup {
    pub domain: String,
    pub route: u64,
    pub rcpt_idxs: Vec<usize>,
}

/// Whether a recipient is due for an attempt in `queue` at `now`.
pub open spec fn due_in_queue(r: Recipient, queue: QueueName, now: u64) -> bool {
    is_pending(r.status) && r.retry.due <= now && r.queue == queue
}

/// What a delivery attempt does first, given whether recipients are pending
/// (and one in the attempt's queue), and the next delivery time in that queue.
pub open spec fn start_action(pending: PendingDelivery, next_due: Option<u64>, now: u64) -> StartAction {
    match pending {
        PendingDelivery::No => StartAction::Remove,
        PendingDelivery::Yes(in_queue) => if in_queue && next_due is Some && next_due->Some_0 <= now {
            StartAction::Deliver
        } else {
            StartAction::Defer
        },
    }
}

/// What a delivery attempt does first.
pub fn delivery_start(pending: PendingDelivery, next_due: Option<u64>, now: u64) -> (r: StartAction)
    ensures
        r == start_action(pending, next_due, now),
{
    match pending {
        PendingDelivery::No => StartAction::Remove,
        PendingDelivery::Yes(in_queue) => {
            let due = match next_due {
                Some(d) => d <= now,
                None => false,
            };
            if in_queue && due {
                StartAction::Deliver
            } else {
                StartAction::Defer
            }
        },
    }
}

/// How a delivery attempt ends: the message stays queued while any event
/// is ahead, else it is removed.
pub fn delivery_end(next_event: Option<u64>) -> (r: QueueEventStatus)
    ensures
        r == (if next_event is Some {
            QueueEventStatus::Deferred
        } else {
            QueueEventStatus::Completed
        }),
{
    match next_event {
        Some(_) => QueueEventStatus::Deferred,
        None => QueueEventStatus::Completed,
    }
}

/// A recipient after a rate limit until `retry_at`: it fails temporarily at
/// `localhost` and is retried then.
pub open spec fn rate_limited(old: Recipient, new: Recipient, retry_at: u64) -> bool {
    &&& new == Recipient { retry: Schedule { due: retry_at, ..old.retry }, status: new.status, ..old }
    &&& new.status is TemporaryFailure
    &&& new.status->TemporaryFailure_0.entity@ == "localhost"@
    &&& new.status->TemporaryFailure_0.details is RateLimited
}

/// A recipient after its status was set to `status` at `now`; a status that
/// is retried schedules the next attempt by the queue's retry intervals and
/// takes the queue's expiry and virtual queue.
pub open spec fn with_status(r: Recipient, status: DeliveryStatus, now: u64, q: QueueSettings) -> Recipient {
    if status is TemporaryFailure || status is Scheduled {
        let n = q.retry@.len() - 1;
        let idx = if r.retry.inner < n {
            r.retry.inner as int
        } else {
            n
        };
        Recipient {
            status,
            retry: Schedule { due: (now + q.retry@[idx]) as u64, inner: (r.retry.inner + 1) as u32 },
            expires: q.expiry,
            queue: q.virtual_queue,
            ..r
        }
    } else {
        Recipient { status, ..r }
    }
}

/// Whether a status can be set on a recipient at `now` without overflow.
pub open spec fn status_fits(r: Recipient, status: DeliveryStatus, now: u64, q: QueueSettings) -> bool {
    (status is TemporaryFailure || status is Scheduled) ==> {
        &&& q.retry@.len() > 0
        &&& r.retry.inner < u32::MAX
        &&& forall|k: int| 0 <= k < q.retry@.len() ==> now + #[trigger] q.retry@[k] <= u64::MAX
    }
}

fn duplicate_response(r: &Response) -> (c: Response)
    ensures
        c == *r,
{
    Response { code: r.code, esc: r.esc, message: r.message.clone() }
}

fn duplicate_error(e: &Error) -> (c: Error)
    ensures
        c == *e,
{
    match e {
        Error::DnsError(s) => Error::DnsError(s.clone()),
        Error::UnexpectedResponse(u) => Error::UnexpectedResponse(
            UnexpectedResponse { command: u.command.clone(), response: duplicate_response(&u.response) },
        ),
        Error::ConnectionError(s) => Error::ConnectionError(s.clone()),
        Error::TlsError(s) => Error::TlsError(s.clone()),
        Error::DaneError(s) => Error::DaneError(s.clone()),
        Error::MtaStsError(s) => Error::MtaStsError(s.clone()),
        Error::RateLimited => Error::RateLimited,
        Error::ConcurrencyLimited => Error::ConcurrencyLimited,
        Error::Io(s) => Error::Io(s.clone()),
    }
}

/// A copy of a delivery status.
pub fn duplicate_status(s: &DeliveryStatus) -> (c: DeliveryStatus)
    ensures
        c == *s,
{
    match s {
        Status::Scheduled => Status::Scheduled,
        Status::Completed(h) => Status::Completed(
            HostResponse { hostname: h.hostname.clone(), response: duplicate_response(&h.response) },
        ),
        Status::TemporaryFailure(e) => Status::TemporaryFailure(
            ErrorDetails { entity: e.entity.clone(), details: duplicate_error(&e.details) },
        ),
        Status::PermanentFailure(e) => Status::PermanentFailure(
            ErrorDetails { entity: e.entity.clone(), details: duplicate_error(&e.details) },
        ),
    }
}

/// The positions that a delivery result covers.
pub open spec fn result_idxs(res: DeliveryResult) -> Seq<usize> {
    match res {
        DeliveryResult::Domain { rcpt_idxs, .. } => rcpt_idxs@,
        DeliveryResult::Account { rcpt_idx, .. } => seq![rcpt_idx],
        DeliveryResult::RateLimited { rcpt_idxs, .. } => rcpt_idxs@,
    }
}

/// Whether a delivery result covers recipient `i`.
pub open spec fn covers(res: DeliveryResult, i: int) -> bool {
    0 <= i && result_idxs(res).contains(i as usize)
}

/// Each recipient is covered by at most one result, once.
pub open spec fn results_disjoint(rs: Seq<DeliveryResult>) -> bool {
    &&& forall|k: int| 0 <= k < rs.len() ==> (#[trigger] result_idxs(rs[k])).no_duplicates()
    &&& forall|k1: int, k2: int, i: int|
        0 <= k1 < k2 < rs.len() ==> !(#[trigger] covers(rs[k1], i) && #[trigger] covers(rs[k2], i))
}

/// A recipient after the result that covers it.
pub open spec fn result_applied(old: Recipient, new: Recipient, res: DeliveryResult, now: u64, q: QueueSettings) -> bool {
    match res {
        DeliveryResult::Domain { status, .. } => new == with_status(old, status, now, q),
        DeliveryResult::Account { status, .. } => new == with_status(old, status, now, q),
        DeliveryResult::RateLimited { retry_at, .. } => rate_limited(old, new, retry_at),
    }
}

/// Whether the results cover only recipients that are due at `now` in the
/// queue `queue`, as [`MessageWrapper::route_groups`] selects them.
pub open spec fn results_cover_due(rs: Seq<DeliveryResult>, rcpts: Seq<Recipient>, queue: QueueName, now: u64) -> bool {
    forall|k: int, i: int|
        0 <= k < rs.len() && 0 <= i < rcpts.len() && #[trigger] covers(rs[k], i) ==> due_in_queue(
            #[trigger] rcpts[i],
            queue,
            now,
        )
}

/// A delivery attempt changes only what it routed: results that cover
/// only recipients of the groups that [`MessageWrapper::route_groups`]
/// formed cover only recipients due in the attempt's queue, so (by the
/// contract of [`MessageWrapper::apply_delivery_results`]) every other
/// recipient keeps its state.
pub proof fn lemma_routed_results_cover_due(
    groups: Seq<RouteGroup>,
    rs: Seq<DeliveryResult>,
    rcpts: Seq<Recipient>,
    queue: QueueName,
    now: u64,
)
    requires
        forall|i: int|
            0 <= i < rcpts.len() ==> (due_in_queue(#[trigger] rcpts[i], queue, now) <==> exists|g: int|
                0 <= g < groups.len() && groups[g].rcpt_idxs@.contains(i as usize)),
        forall|k: int, i: int|
            0 <= k < rs.len() && 0 <= i < rcpts.len() && #[trigger] covers(rs[k], i) ==> exists|g: int|
                0 <= g < groups.len() && groups[g].rcpt_idxs@.contains(i as usize),
    ensures
        results_cover_due(rs, rcpts, queue, now),
{
    assert forall|k: int, i: int| 0 <= k < rs.len() && 0 <= i < rcpts.len() && #[trigger] covers(rs[k], i) implies due_in_queue(
        #[trigger] rcpts[i],
        queue,
        now,
    ) by {
        assert(exists|g: int| 0 <= g < groups.len() && groups[g].rcpt_idxs@.contains(i as usize));
    }
}

/// Whether every result can be applied at `now` without overflow and within
/// the recipient list.
pub open spec fn results_fit(rs: Seq<DeliveryResult>, rcpts: Seq<Recipient>, queues: Seq<QueueSettings>, now: u64) -> bool {
    forall|k: int, j: int|
        0 <= k < rs.len() && 0 <= j < result_idxs(rs[k]).len() ==> {
            let i = #[trigger] result_idxs(rs[k])[j] as int;
            &&& i < rcpts.len()
            &&& match rs[k] {
                DeliveryResult::Domain { status, .. } => status_fits(rcpts[i], status, now, queues[i]),
                DeliveryResult::Account { status, .. } => status_fits(rcpts[i], status, now, queues[i]),
                _ => true,
            }
        }
}

impl MessageWrapper {
    /// Rate limits, until `retry_at`, every recipient of this message's
    /// queue that is due at `now`: the sender exceeded a limit.
    pub fn apply_sender_rate_limit(&mut self, retry_at: u64, now: u64)
        ensures
            final(self).queue_id == old(self).queue_id,
            final(self).queue_name == old(self).queue_name,
            final(self).span_id == old(self).span_id,
            final(self).message == (Message { recipients: final(self).message.recipients, ..old(self).message }),
            final(self).message.recipients@.len() == old(self).message.recipients@.len(),
            forall|i: int|
                0 <= i < old(self).message.recipients@.len() ==> if due_in_queue(
                    old(self).message.recipients@[i],
                    old(self).queue_name,
                    now,
                ) {
                    rate_limited(old(self).message.recipients@[i], #[trigger] final(self).message.recipients@[i], retry_at)
                } else {
                    final(self).message.recipients@[i] == old(self).message.recipients@[i]
                },
    {
        let ghost olds = self.message.recipients@;
        let mut i: usize = 0;
        while i < self.message.recipients.len()
            invariant
                olds == old(self).message.recipients@,
                self.message == (Message { recipients: self.message.recipients, ..old(self).message }),
                self.queue_id == old(self).queue_id,
                self.queue_name == old(self).queue_name,
                self.span_id == old(self).span_id,
                self.message.recipients@.len() == olds.len(),
                i <= olds.len(),
                forall|k: int|
                    0 <= k < i ==> if due_in_queue(olds[k], self.queue_name, now) {
                        rate_limited(olds[k], #[trigger] self.message.recipients@[k], retry_at)
                    } else {
                        self.message.recipients@[k] == olds[k]
                    },
                forall|k: int| i <= k < olds.len() ==> #[trigger] self.message.recipients@[k] == olds[k],
            decreases olds.len() - i,
        {
            let pending = match self.message.recipients[i].status {
                Status::Scheduled | Status::TemporaryFailure(_) => true,
                _ => false,
            };
            if pending && self.message.recipients[i].retry.due <= now
                && self.message.recipients[i].queue == self.queue_name {
                self.set_rcpt_rate_limit(i, retry_at);
            }
            i = i + 1;
        }
    }

    /// Groups the recipients of this message's queue that are due at `now`
    /// by domain and route; `routes[i]` is the route of recipient `i`.
    /// Groups come in the order of their first recipient, and each lists its
    /// recipients in order.
    pub fn route_groups(&self, now: u64, routes: &Vec<u64>) -> (r: Vec<RouteGroup>)
        requires
            routes@.len() == self.message.recipients@.len(),
        ensures
            forall|i: int|
                0 <= i < self.message.recipients@.len() ==> (due_in_queue(
                    #[trigger] self.message.recipients@[i],
                    self.queue_name,
                    now,
                ) <==> exists|g: int| 0 <= g < r@.len() && r@[g].rcpt_idxs@.contains(i as usize)),
            forall|g: int, j: int|
                0 <= g < r@.len() && 0 <= j < r@[g].rcpt_idxs@.len() ==> {
                    let i = #[trigger] r@[g].rcpt_idxs@[j] as int;
                    &&& i < self.message.recipients@.len()
                    &&& r@[g].domain@ == domain_of(self.message.recipients@[i].address_lcase@)
                    &&& r@[g].route == routes@[i]
                },
            forall|g: int, j1: int, j2: int|
                0 <= g < r@.len() && 0 <= j1 < j2 < r@[g].rcpt_idxs@.len() ==> #[trigger] r@[g].rcpt_idxs@[j1]
                    < #[trigger] r@[g].rcpt_idxs@[j2],
            forall|g1: int, g2: int|
                0 <= g1 < g2 < r@.len() ==> !((#[trigger] r@[g1]).domain@ == (#[trigger] r@[g2]).domain@
                    && r@[g1].route == r@[g2].route),
            forall|g: int| 0 <= g < r@.len() ==> (#[trigger] r@[g]).rcpt_idxs@.len() > 0,
            forall|g1: int, g2: int|
                0 <= g1 < g2 < r@.len() ==> (#[trigger] r@[g1]).rcpt_idxs@[0] < (#[trigger] r@[g2]).rcpt_idxs@[0],
    {
        let mut groups: Vec<RouteGroup> = Vec::new();
        let mut i: usize = 0;
        while i < self.message.recipients.len()
            invariant
                i <= self.message.recipients@.len(),
                routes@.len() == self.message.recipients@.len(),
                forall|k: int|
                    0 <= k < i ==> (due_in_queue(
                        #[trigger] self.message.recipients@[k],
                        self.queue_name,
                        now,
                    ) <==> exists|g: int| 0 <= g < groups@.len() && groups@[g].rcpt_idxs@.contains(k as usize)),
                forall|g: int, j: int|
                    0 <= g < groups@.len() && 0 <= j < groups@[g].rcpt_idxs@.len() ==> {
                        let k = #[trigger] groups@[g].rcpt_idxs@[j] as int;
                        &&& k < i
                        &&& groups@[g].domain@ == domain_of(self.message.recipients@[k].address_lcase@)
                        &&& groups@[g].route == routes@[k]
                    },
                forall|g: int, j1: int, j2: int|
                    0 <= g < groups@.len() && 0 <= j1 < j2 < groups@[g].rcpt_idxs@.len() ==> #[trigger] groups@[g].rcpt_idxs@[j1]
                        < #[trigger] groups@[g].rcpt_idxs@[j2],
                forall|g1: int, g2: int|
                    0 <= g1 < g2 < groups@.len() ==> !((#[trigger] groups@[g1]).domain@
                        == (#[trigger] groups@[g2]).domain@ && groups@[g1].route == groups@[g2].route),
                forall|g: int| 0 <= g < groups@.len() ==> (#[trigger] groups@[g]).rcpt_idxs@.len() > 0,
                forall|g1: int, g2: int|
                    0 <= g1 < g2 < groups@.len() ==> (#[trigger] groups@[g1]).rcpt_idxs@[0]
                        < (#[trigger] groups@[g2]).rcpt_idxs@[0],
            decreases self.message.recipients@.len() - i,
        {
            let rcpt = &self.message.recipients[i];
            let pending = match rcpt.status {
                Status::Scheduled | Status::TemporaryFailure(_) => true,
                _ => false,
            };
            if pending && rcpt.retry.due <= now && rcpt.queue == self.queue_name {
                let domain = domain_part(rcpt.address_lcase.as_str());
                let route = routes[i];
                let mut g: usize = 0;
                let mut found = false;
                while g < groups.len()
                    invariant_except_break
                        !found,
                    invariant
                        g <= groups@.len(),
                        forall|h: int| 0 <= h < g ==> !((#[trigger] groups@[h]).domain@ == domain@
                            && groups@[h].route == route),
                    ensures
                        found ==> g < groups@.len() && groups@[g as int].domain@ == domain@
                            && groups@[g as int].route == route,
                        !found ==> g == groups@.len(),
                    decreases groups.len() - g,
                {
                    if groups[g].route == route && str_eq(groups[g].domain.as_str(), domain) {
                        found = true;
                        break;
                    }
                    g = g + 1;
                }
                let ghost before = groups@;
                if found {
                    let mut group = groups.remove(g);
                    let ghost gidx = group.rcpt_idxs@;
                    group.rcpt_idxs.push(i);
                    groups.insert(g, group);
                    assert forall|h: int| 0 <= h < groups@.len() && h != g implies #[trigger] groups@[h] == before[h] by {}
                    assert forall|g1: int, g2: int| 0 <= g1 < g2 < groups@.len() implies !((#[trigger] groups@[g1]).domain@
                        == (#[trigger] groups@[g2]).domain@ && groups@[g1].route == groups@[g2].route) by {
                        assert(groups@[g1].domain == before[g1].domain && groups@[g1].route == before[g1].route);
                        assert(groups@[g2].domain == before[g2].domain && groups@[g2].route == before[g2].route);
                    }
                    assert(groups@[g as int].rcpt_idxs@ == gidx.push(i));
                    assert(groups@[g as int].rcpt_idxs@[0] == before[g as int].rcpt_idxs@[0]);
                    assert forall|g1: int, g2: int| 0 <= g1 < g2 < groups@.len() implies (#[trigger] groups@[g1]).rcpt_idxs@[0]
                        < (#[trigger] groups@[g2]).rcpt_idxs@[0] by {
                        assert(groups@[g1].rcpt_idxs@[0] == before[g1].rcpt_idxs@[0]);
                        assert(groups@[g2].rcpt_idxs@[0] == before[g2].rcpt_idxs@[0]);
                    }
                    assert forall|k: int| 0 <= k < i + 1 implies (due_in_queue(
                        #[trigger] self.message.recipients@[k],
                        self.queue_name,
                        now,
                    ) <==> exists|h: int| 0 <= h < groups@.len() && groups@[h].rcpt_idxs@.contains(k as usize)) by {
                        if k < i {
                            if exists|h: int| 0 <= h < before.len() && before[h].rcpt_idxs@.contains(k as usize) {
                                let h = choose|h: int| 0 <= h < before.len() && before[h].rcpt_idxs@.contains(k as usize);
                                if h == g {
                                    let j = choose|j: int| 0 <= j < gidx.len() && gidx[j] == k as usize;
                                    assert(groups@[h].rcpt_idxs@[j] == k as usize);
                                } else {
                                    assert(groups@[h] == before[h]);
                                }
                            }
                            if exists|h: int| 0 <= h < groups@.len() && groups@[h].rcpt_idxs@.contains(k as usize) {
                                let h = choose|h: int| 0 <= h < groups@.len() && groups@[h].rcpt_idxs@.contains(k as usize);
                                if h == g {
                                    let j = choose|j: int| 0 <= j < groups@[h].rcpt_idxs@.len() && groups@[h].rcpt_idxs@[j] == k as usize;
                                    assert(j < gidx.len());
                                    assert(gidx[j] == k as usize);
                                } else {
                                    assert(groups@[h] == before[h]);
                                }
                            }
                        } else {
                            assert(groups@[g as int].rcpt_idxs@[gidx.len() as int] == i);
                        }
                    }
                } else {
                    let mut idxs: Vec<usize> = Vec::new();
                    idxs.push(i);
                    groups.push(RouteGroup { domain: String::from_str(domain), route, rcpt_idxs: idxs });
                    assert forall|h: int| 0 <= h < before.len() implies #[trigger] groups@[h] == before[h] by {}
                    assert forall|g1: int, g2: int| 0 <= g1 < g2 < groups@.len() implies (#[trigger] groups@[g1]).rcpt_idxs@[0]
                        < (#[trigger] groups@[g2]).rcpt_idxs@[0] by {
                        assert(groups@[g1] == before[g1]);
                        if g2 == before.len() {
                            assert(before[g1].rcpt_idxs@[0] < i);
                        } else {
                            assert(groups@[g2] == before[g2]);
                        }
                    }
                    assert forall|g1: int, g2: int| 0 <= g1 < g2 < groups@.len() implies !((#[trigger] groups@[g1]).domain@
                        == (#[trigger] groups@[g2]).domain@ && groups@[g1].route == groups@[g2].route) by {
                        if g2 == before.len() {
                            assert(groups@[g1] == before[g1]);
                        }
                    }
                    assert forall|k: int| 0 <= k < i + 1 implies (due_in_queue(
                        #[trigger] self.message.recipients@[k],
                        self.queue_name,
                        now,
                    ) <==> exists|h: int| 0 <= h < groups@.len() && groups@[h].rcpt_idxs@.contains(k as usize)) by {
                        if k < i {
                            if exists|h: int| 0 <= h < groups@.len() && groups@[h].rcpt_idxs@.contains(k as usize) {
                                let h = choose|h: int| 0 <= h < groups@.len() && groups@[h].rcpt_idxs@.contains(k as usize);
                                if h == before.len() {
                                    assert(groups@[h].rcpt_idxs@ == seq![i]);
                                } else {
                                    assert(groups@[h] == before[h]);
                                }
                            }
                            if exists|h: int| 0 <= h < before.len() && before[h].rcpt_idxs@.contains(k as usize) {
                                let h = choose|h: int| 0 <= h < before.len() && before[h].rcpt_idxs@.contains(k as usize);
                                assert(groups@[h] == before[h]);
                            }
                        } else {
                            assert(groups@[before.len() as int].rcpt_idxs@[0] == i);
                        }
                    }
                }
            } else {
                assert forall|k: int| 0 <= k < i + 1 implies (due_in_queue(
                    #[trigger] self.message.recipients@[k],
                    self.queue_name,
                    now,
                ) <==> exists|h: int| 0 <= h < groups@.len() && groups@[h].rcpt_idxs@.contains(k as usize)) by {
                    if k == i {
                        if exists|h: int| 0 <= h < groups@.len() && groups@[h].rcpt_idxs@.contains(k as usize) {
                            let h = choose|h: int| 0 <= h < groups@.len() && groups@[h].rcpt_idxs@.contains(k as usize);
                            let j = choose|j: int| 0 <= j < groups@[h].rcpt_idxs@.len() && groups@[h].rcpt_idxs@[j] == k as usize;
                            assert(groups@[h].rcpt_idxs@[j] < i);
                        }
                    }
                }
            }
            i = i + 1;
        }
        groups
    }

    /// Sets the status of recipient `rcpt_idx` at `now`; a status that is
    /// retried schedules the next attempt with the settings `queue` of the
    /// recipient's queue.
    pub fn set_rcpt_status(&mut self, status: DeliveryStatus, rcpt_idx: usize, now: u64, queue: &QueueSettings)
        requires
            rcpt_idx < old(self).message.recipients@.len(),
            status_fits(old(self).message.recipients@[rcpt_idx as int], status, now, *queue),
        ensures
            final(self).queue_id == old(self).queue_id,
            final(self).queue_name == old(self).queue_name,
            final(self).span_id == old(self).span_id,
            final(self).message == (Message { recipients: final(self).message.recipients, ..old(self).message }),
            final(self).message.recipients@ == old(self).message.recipients@.update(
                rcpt_idx as int,
                with_status(old(self).message.recipients@[rcpt_idx as int], status, now, *queue),
            ),
    {
        let needs_retry = match status {
            Status::TemporaryFailure(_) | Status::Scheduled => true,
            _ => false,
        };
        let ghost o = self.message.recipients@[rcpt_idx as int];
        self.message.recipients[rcpt_idx].status = status;
        if needs_retry {
            let n = queue.retry.len() - 1;
            let inner = self.message.recipients[rcpt_idx].retry.inner;
            let idx: usize = if (inner as usize) < n {
                inner as usize
            } else {
                n
            };
            assert(now + queue.retry@[idx as int] <= u64::MAX);
            self.message.recipients[rcpt_idx].retry.due = now + queue.retry[idx];
            self.message.recipients[rcpt_idx].retry.inner = inner + 1;
            self.message.recipients[rcpt_idx].expires = queue.expiry;
            self.message.recipients[rcpt_idx].queue = queue.virtual_queue;
        }
        assert(self.message.recipients@ =~= old(self).message.recipients@.update(
            rcpt_idx as int,
            with_status(o, status, now, *queue),
        ));
    }
}

impl MessageWrapper {
    fn apply_result(
        &mut self,
        res: &DeliveryResult,
        now: u64,
        queues: &Vec<QueueSettings>,
        Ghost(olds): Ghost<Seq<Recipient>>,
    )
        requires
            queues@.len() == old(self).message.recipients@.len(),
            olds.len() == old(self).message.recipients@.len(),
            olds.len() <= usize::MAX,
            result_idxs(*res).no_duplicates(),
            forall|j: int|
                0 <= j < result_idxs(*res).len() ==> {
                    let i = #[trigger] result_idxs(*res)[j] as int;
                    &&& i < olds.len()
                    &&& old(self).message.recipients@[i] == olds[i]
                    &&& match *res {
                        DeliveryResult::Domain { status, .. } => status_fits(olds[i], status, now, queues@[i]),
                        DeliveryResult::Account { status, .. } => status_fits(olds[i], status, now, queues@[i]),
                        _ => true,
                    }
                },
        ensures
            final(self).queue_id == old(self).queue_id,
            final(self).queue_name == old(self).queue_name,
            final(self).span_id == old(self).span_id,
            final(self).message == (Message { recipients: final(self).message.recipients, ..old(self).message }),
            final(self).message.recipients@.len() == old(self).message.recipients@.len(),
            forall|i: int|
                0 <= i < olds.len() ==> if covers(*res, i) {
                    result_applied(olds[i], #[trigger] final(self).message.recipients@[i], *res, now, queues@[i])
                } else {
                    final(self).message.recipients@[i] == old(self).message.recipients@[i]
                },
    {
        let ghost idxs = result_idxs(*res);
        let ghost start = self.message.recipients@;
        match res {
            DeliveryResult::Account { status, rcpt_idx } => {
                assert(idxs[0] == *rcpt_idx);
                assert forall|x: int| 0 <= x < olds.len() implies (covers(*res, x) <==> x == *rcpt_idx as int) by {
                    if covers(*res, x) {
                        let t = choose|t: int| 0 <= t < idxs.len() && #[trigger] idxs[t] == x as usize;
                        assert(t == 0);
                    }
                    if x == *rcpt_idx as int {
                        assert(idxs[0] == x as usize);
                    }
                }
                self.set_rcpt_status(duplicate_status(status), *rcpt_idx, now, &queues[*rcpt_idx]);
            },
            DeliveryResult::Domain { status, rcpt_idxs } => {
                let mut j: usize = 0;
                while j < rcpt_idxs.len()
                    invariant
                        idxs == rcpt_idxs@,
                        j <= idxs.len(),
                        queues@.len() == start.len(),
                        olds.len() == start.len(),
                        olds.len() <= usize::MAX,
                        idxs.no_duplicates(),
                        forall|t: int|
                            0 <= t < idxs.len() ==> {
                                let i = #[trigger] idxs[t] as int;
                                &&& i < olds.len()
                                &&& start[i] == olds[i]
                                &&& status_fits(olds[i], *status, now, queues@[i])
                            },
                        self.queue_id == old(self).queue_id,
                        self.queue_name == old(self).queue_name,
                        self.span_id == old(self).span_id,
                        self.message == (Message { recipients: self.message.recipients, ..old(self).message }),
                        self.message.recipients@.len() == start.len(),
                        forall|i: int|
                            0 <= i < olds.len() ==> if 0 <= i && idxs.take(j as int).contains(i as usize) {
                                #[trigger] self.message.recipients@[i] == with_status(olds[i], *status, now, queues@[i])
                            } else {
                                self.message.recipients@[i] == start[i]
                            },
                    decreases idxs.len() - j,
                {
                    let i = rcpt_idxs[j];
                    assert(idxs[j as int] == i);
                    assert(!idxs.take(j as int).contains(i)) by {
                        if idxs.take(j as int).contains(i) {
                            let t = choose|t: int| 0 <= t < j && idxs.take(j as int)[t] == i;
                            assert(idxs[t] == idxs[j as int]);
                        }
                    }
                    let ghost before = self.message.recipients@;
                    self.set_rcpt_status(duplicate_status(status), i, now, &queues[i]);
                    let ghost jn: int = j + 1;
                    assert forall|x: int| 0 <= x < olds.len() implies if 0 <= x && idxs.take(jn).contains(x as usize) {
                        #[trigger] self.message.recipients@[x] == with_status(olds[x], *status, now, queues@[x])
                    } else {
                        self.message.recipients@[x] == start[x]
                    } by {
                        assert(idxs.take(jn) =~= idxs.take(j as int).push(i));
                        if x == i as int {
                            assert(idxs.take(jn)[j as int] == i);
                        } else {
                            if idxs.take(jn).contains(x as usize) {
                                let t = choose|t: int| 0 <= t < jn && #[trigger] idxs.take(jn)[t] == x as usize;
                                if t == j as int {
                                    assert(idxs.take(jn)[t] == i);
                                } else {
                                    assert(idxs.take(j as int)[t] == x as usize);
                                }
                            }
                            if idxs.take(j as int).contains(x as usize) {
                                let t = choose|t: int| 0 <= t < j && #[trigger] idxs.take(j as int)[t] == x as usize;
                                assert(idxs.take(jn)[t] == x as usize);
                            }
                        }
                    }
                    j = j + 1;
                }
                assert(idxs.take(idxs.len() as int) =~= idxs);
            },
            DeliveryResult::RateLimited { rcpt_idxs, retry_at } => {
                let mut j: usize = 0;
                while j < rcpt_idxs.len()
                    invariant
                        idxs == rcpt_idxs@,
                        j <= idxs.len(),
                        queues@.len() == start.len(),
                        olds.len() == start.len(),
                        olds.len() <= usize::MAX,
                        idxs.no_duplicates(),
                        forall|t: int|
                            0 <= t < idxs.len() ==> {
                                let i = #[trigger] idxs[t] as int;
                                &&& i < olds.len()
                                &&& start[i] == olds[i]
                            },
                        self.queue_id == old(self).queue_id,
                        self.queue_name == old(self).queue_name,
                        self.span_id == old(self).span_id,
                        self.message == (Message { recipients: self.message.recipients, ..old(self).message }),
                        self.message.recipients@.len() == start.len(),
                        forall|i: int|
                            0 <= i < olds.len() ==> if 0 <= i && idxs.take(j as int).contains(i as usize) {
                                rate_limited(olds[i], #[trigger] self.message.recipients@[i], *retry_at)
                            } else {
                                self.message.recipients@[i] == start[i]
                            },
                    decreases idxs.len() - j,
                {
                    let i = rcpt_idxs[j];
                    assert(idxs[j as int] == i);
                    assert(!idxs.take(j as int).contains(i)) by {
                        if idxs.take(j as int).contains(i) {
                            let t = choose|t: int| 0 <= t < j && idxs.take(j as int)[t] == i;
                            assert(idxs[t] == idxs[j as int]);
                        }
                    }
                    self.set_rcpt_rate_limit(i, *retry_at);
                    let ghost jn: int = j + 1;
                    assert forall|x: int| 0 <= x < olds.len() implies if 0 <= x && idxs.take(jn).contains(x as usize) {
                        rate_limited(olds[x], #[trigger] self.message.recipients@[x], *retry_at)
                    } else {
                        self.message.recipients@[x] == start[x]
                    } by {
                        assert(idxs.take(jn) =~= idxs.take(j as int).push(i));
                        if x == i as int {
                            assert(idxs.take(jn)[j as int] == i);
                        } else {
                            if idxs.take(jn).contains(x as usize) {
                                let t = choose|t: int| 0 <= t < jn && #[trigger] idxs.take(jn)[t] == x as usize;
                                if t == j as int {
                                    assert(idxs.take(jn)[t] == i);
                                } else {
                                    assert(idxs.take(j as int)[t] == x as usize);
                                }
                            }
                            if idxs.take(j as int).contains(x as usize) {
                                let t = choose|t: int| 0 <= t < j && #[trigger] idxs.take(j as int)[t] == x as usize;
                                assert(idxs.take(jn)[t] == x as usize);
                            }
                        }
                    }
                    j = j + 1;
                }
                assert(idxs.take(idxs.len() as int) =~= idxs);
            },
        }
    }

    /// Applies the outcomes of a delivery attempt at `now`: each recipient
    /// covered by a result takes that result's status (or rate limit), and
    /// `queues[i]` are the settings of the queue of recipient `i`.
    pub fn apply_delivery_results(&mut self, results: &Vec<DeliveryResult>, now: u64, queues: &Vec<QueueSettings>)
        requires
            queues@.len() == old(self).message.recipients@.len(),
            results_disjoint(results@),
            results_fit(results@, old(self).message.recipients@, queues@, now),
        ensures
            final(self).queue_id == old(self).queue_id,
            final(self).queue_name == old(self).queue_name,
            final(self).span_id == old(self).span_id,
            final(self).message == (Message { recipients: final(self).message.recipients, ..old(self).message }),
            final(self).message.recipients@.len() == old(self).message.recipients@.len(),
            forall|k: int, i: int|
                0 <= k < results@.len() && 0 <= i < old(self).message.recipients@.len() && #[trigger] covers(results@[k], i)
                    ==> result_applied(
                    old(self).message.recipients@[i],
                    #[trigger] final(self).message.recipients@[i],
                    results@[k],
                    now,
                    queues@[i],
                ),
            forall|i: int|
                0 <= i < old(self).message.recipients@.len() && (forall|k: int| 0 <= k < results@.len() ==> !#[trigger] covers(results@[k], i))
                    ==> #[trigger] final(self).message.recipients@[i] == old(self).message.recipients@[i],
            results_cover_due(results@, old(self).message.recipients@, old(self).queue_name, now) ==> forall|i: int|
                0 <= i < old(self).message.recipients@.len() && !due_in_queue(
                    old(self).message.recipients@[i],
                    old(self).queue_name,
                    now,
                ) ==> #[trigger] final(self).message.recipients@[i] == old(self).message.recipients@[i],
    {
        let ghost olds = self.message.recipients@;
        let n = self.message.recipients.len();
        let mut k: usize = 0;
        while k < results.len()
            invariant
                k <= results@.len(),
                olds.len() == n,
                olds == old(self).message.recipients@,
                queues@.len() == olds.len(),
                results_disjoint(results@),
                results_fit(results@, olds, queues@, now),
                self.queue_id == old(self).queue_id,
                self.queue_name == old(self).queue_name,
                self.span_id == old(self).span_id,
                self.message == (Message { recipients: self.message.recipients, ..old(self).message }),
                self.message.recipients@.len() == olds.len(),
                forall|k2: int, i: int|
                    0 <= k2 < k && 0 <= i < olds.len() && #[trigger] covers(results@[k2], i) ==> result_applied(
                        olds[i],
                        #[trigger] self.message.recipients@[i],
                        results@[k2],
                        now,
                        queues@[i],
                    ),
                forall|i: int|
                    0 <= i < olds.len() && (forall|k2: int| 0 <= k2 < k ==> !#[trigger] covers(results@[k2], i))
                        ==> #[trigger] self.message.recipients@[i] == olds[i],
            decreases results@.len() - k,
        {
            let ghost cur = self.message.recipients@;
            let ghost res = results@[k as int];
            assert(result_idxs(res).no_duplicates());
            assert forall|j: int| 0 <= j < result_idxs(res).len() implies {
                let i = #[trigger] result_idxs(res)[j] as int;
                &&& i < olds.len()
                &&& cur[i] == olds[i]
                &&& match res {
                    DeliveryResult::Domain { status, .. } => status_fits(olds[i], status, now, queues@[i]),
                    DeliveryResult::Account { status, .. } => status_fits(olds[i], status, now, queues@[i]),
                    _ => true,
                }
            } by {
                let i = result_idxs(res)[j] as int;
                assert(covers(res, i));
                assert forall|k2: int| 0 <= k2 < k implies !#[trigger] covers(results@[k2], i) by {
                    assert(!(covers(results@[k2], i) && covers(results@[k as int], i)));
                }
            }
            self.apply_result(&results[k], now, queues, Ghost(olds));
            assert forall|k2: int, i: int|
                0 <= k2 < k + 1 && 0 <= i < olds.len() && #[trigger] covers(results@[k2], i) implies result_applied(
                    olds[i],
                    #[trigger] self.message.recipients@[i],
                    results@[k2],
                    now,
                    queues@[i],
                ) by {
                if k2 < k {
                    assert(!(covers(results@[k2], i) && covers(results@[k as int], i)));
                }
            }
            k = k + 1;
        }
    }
}


/// The delay of the first delay notification of a queue: its first
/// notification delay, or a day.
pub open spec fn first_notify(q: QueueSettings) -> u64 {
    if q.notify@.len() > 0 {
        q.notify@[0]
    } else {
        86400
    }
}

impl MessageWrapper {
    /// Adds a recipient, given with its lower case form, to the queue `queue`
    /// (the one that the recipient's envelope selects) at `now`.
    pub fn add_recipient_parts(&mut self, rcpt: String, rcpt_lcase: String, queue: &QueueSettings, now: u64)
        requires
            first_notify(*queue) + now <= u64::MAX,
        ensures
            final(self).queue_id == old(self).queue_id,
            final(self).queue_name == old(self).queue_name,
            final(self).span_id == old(self).span_id,
            final(self).message == (Message { recipients: final(self).message.recipients, ..old(self).message }),
            final(self).message.recipients@.len() == old(self).message.recipients@.len() + 1,
            final(self).message.recipients@.drop_last() == old(self).message.recipients@,
            ({
                let r = final(self).message.recipients@.last();
                &&& r.address@ == rcpt@
                &&& r.address_lcase@ == rcpt_lcase@
                &&& r.status is Scheduled
                &&& r.flags == 0
                &&& r.orcpt is None
                &&& r.retry == Schedule { due: now, inner: 0 }
                &&& r.notify == Schedule { due: (first_notify(*queue) + now) as u64, inner: 0 }
                &&& r.expires == queue.expiry
                &&& r.queue == queue.virtual_queue
            }),
    {
        let first: u64 = if queue.notify.len() > 0 {
            queue.notify[0]
        } else {
            86400
        };
        let ghost before = self.message.recipients@;
        self.message.recipients.push(
            Recipient {
                address: rcpt,
                address_lcase: rcpt_lcase,
                status: Status::Scheduled,
                flags: 0,
                orcpt: None,
                retry: Schedule { due: now, inner: 0 },
                notify: Schedule { due: first + now, inner: 0 },
                expires: queue.expiry,
                queue: queue.virtual_queue,
            },
        );
        assert(self.message.recipients@.drop_last() =~= before);
    }

    /// Adds a recipient to the queue `queue` at `now`, with its lower case
    /// form.
    pub fn add_recipient(&mut self, rcpt: String, queue: &QueueSettings, now: u64)
        requires
            first_notify(*queue) + now <= u64::MAX,
        ensures
            final(self).queue_id == old(self).queue_id,
            final(self).queue_name == old(self).queue_name,
            final(self).span_id == old(self).span_id,
            final(self).message == (Message { recipients: final(self).message.recipients, ..old(self).message }),
            final(self).message.recipients@.len() == old(self).message.recipients@.len() + 1,
            final(self).message.recipients@.drop_last() == old(self).message.recipients@,
            ({
                let r = final(self).message.recipients@.last();
                &&& r.address@ == rcpt@
                &&& r.address_lcase@ == lowercase(rcpt@)
                &&& r.status is Scheduled
                &&& r.flags == 0
                &&& r.orcpt is None
                &&& r.retry == Schedule { due: now, inner: 0 }
                &&& r.notify == Schedule { due: (first_notify(*queue) + now) as u64, inner: 0 }
                &&& r.expires == queue.expiry
                &&& r.queue == queue.virtual_queue
            }),
    {
        let lcase = to_lowercase(rcpt.as_str());
        self.add_recipient_parts(rcpt, lcase, queue, now);
    }
}


/// Where a delivery attempt stands on one route: the host it is at (of
/// `hosts`), whether that host's addresses are known, the address it is at
/// (of `ips`), and the status the last failure left (scheduled before any).
pub struct RouteAttempt {
    pub host: usize,
    pub hosts: usize,
    pub resolved: bool,
    pub ip: usize,
    pub ips: usize,
    pub last_status: DeliveryStatus,
}

/// What happened to the step a route attempt asked for.
pub enum AttemptEvent {
    /// The host's addresses were found: `ips` of them.
    Resolved { ips: usize },
    /// Delivering through the current address failed with this status.
    IpFailed(DeliveryStatus),
    /// The current host cannot be used, with this status.
    HostFailed(DeliveryStatus),
    /// The message went through; the transaction's results stand.
    Delivered,
}

/// What a route attempt does next.
pub enum AttemptAction {
    /// Look up the addresses of host `host`.
    Resolve { host: usize },
    /// Deliver through address `ip` of host `host`.
    Connect { host: usize, ip: usize },
    /// Every host failed: the route's recipients take this status.
    Finish(DeliveryStatus),
    /// The route is done.
    Delivered,
}

/// The attempt moved on to the next host.
pub open spec fn next_host(a: RouteAttempt) -> RouteAttempt {
    RouteAttempt { host: if a.host < a.hosts { (a.host + 1) as usize } else { a.host }, resolved: false, ip: 0, ips: 0, ..a }
}

/// What an attempt in this state does: resolve its host, connect to its
/// next address, or, past the last host, give the last failure.
pub open spec fn action_of(a: RouteAttempt) -> AttemptAction {
    if a.host >= a.hosts {
        AttemptAction::Finish(a.last_status)
    } else if !a.resolved {
        AttemptAction::Resolve { host: a.host }
    } else {
        AttemptAction::Connect { host: a.host, ip: a.ip }
    }
}

/// The state after an event: a host with no address, a failed last
/// address or a failed host moves on to the next host, each failure
/// becoming the status the route ends with if no later host delivers.
pub open spec fn attempt_after(a: RouteAttempt, e: AttemptEvent) -> RouteAttempt {
    match e {
        AttemptEvent::Resolved { ips } => if ips == 0 {
            next_host(a)
        } else {
            RouteAttempt { resolved: true, ip: 0, ips, ..a }
        },
        AttemptEvent::IpFailed(s) => {
            let b = RouteAttempt { last_status: s, ..a };
            if a.ip + 1 < a.ips {
                RouteAttempt { ip: (a.ip + 1) as usize, ..b }
            } else {
                next_host(b)
            }
        },
        AttemptEvent::HostFailed(s) => next_host(RouteAttempt { last_status: s, ..a }),
        AttemptEvent::Delivered => a,
    }
}

/// A route attempt over `hosts` hosts, before any step.
pub fn route_attempt_start(hosts: usize) -> (r: (RouteAttempt, AttemptAction))
    ensures
        r.0 == (RouteAttempt { host: 0, hosts, resolved: false, ip: 0, ips: 0, last_status: Status::Scheduled }),
        r.1 == action_of(r.0),
{
    let a = RouteAttempt { host: 0, hosts, resolved: false, ip: 0, ips: 0, last_status: Status::Scheduled };
    let act = if hosts == 0 {
        AttemptAction::Finish(Status::Scheduled)
    } else {
        AttemptAction::Resolve { host: 0 }
    };
    (a, act)
}

fn attempt_action(a: &RouteAttempt) -> (r: AttemptAction)
    ensures
        r == action_of(*a),
{
    if a.host >= a.hosts {
        AttemptAction::Finish(duplicate_status(&a.last_status))
    } else if !a.resolved {
        AttemptAction::Resolve { host: a.host }
    } else {
        AttemptAction::Connect { host: a.host, ip: a.ip }
    }
}

fn advance_host(a: RouteAttempt) -> (r: RouteAttempt)
    ensures
        r == next_host(a),
{
    let host = if a.host < a.hosts { a.host + 1 } else { a.host };
    RouteAttempt { host, resolved: false, ip: 0, ips: 0, ..a }
}

/// One step of a route attempt: the state after `event` and what to do
/// next (see [`attempt_after`] and [`action_of`]); a delivered route is
/// done.
pub fn route_attempt_step(a: RouteAttempt, event: AttemptEvent) -> (r: (RouteAttempt, AttemptAction))
    ensures
        r.0 == attempt_after(a, event),
        r.1 == (match event {
            AttemptEvent::Delivered => AttemptAction::Delivered,
            _ => action_of(attempt_after(a, event)),
        }),
{
    let ghost e = event;
    match event {
        AttemptEvent::Resolved { ips } => {
            let b = if ips == 0 {
                advance_host(a)
            } else {
                RouteAttempt { resolved: true, ip: 0, ips, ..a }
            };
            let act = attempt_action(&b);
            (b, act)
        },
        AttemptEvent::IpFailed(s) => {
            let more = a.ip < a.ips && a.ip + 1 < a.ips;
            let b = RouteAttempt { last_status: s, ..a };
            let c = if more {
                let ip = b.ip + 1;
                RouteAttempt { ip, ..b }
            } else {
                advance_host(b)
            };
            let act = attempt_action(&c);
            (c, act)
        },
        AttemptEvent::HostFailed(s) => {
            let b = advance_host(RouteAttempt { last_status: s, ..a });
            let act = attempt_action(&b);
            (b, act)
        },
        AttemptEvent::Delivered => (a, AttemptAction::Delivered),
    }
}

} // verus!
