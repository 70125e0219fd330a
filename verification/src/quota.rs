//! Queue quotas: which quota checks a message goes through, what a check
//! decides from the counters it reads, which quota reservations are given
//! back as recipients finish, and what a message reserves when it enters
//! the queue.

use vstd::prelude::*;
use crate::queue::{Message, MessageWrapper, QuotaKey, QueueName, Recipient, Status};
use crate::text::{domain_of, domain_part, str_eq};

verus! {

/// The quota identifier of recipient `pos` (counting from one).
pub open spec fn rcpt_quota_id(pos: int) -> u64 {
    (pos + 1) as u64
}

/// The quota identifier of the domain of recipient `pos`.
pub open spec fn domain_quota_id(pos: int) -> u64 {
    ((pos + 1) * 4294967296) as u64
}

/// A change to a quota counter: by message count or by size.
pub struct QuotaUpdate {
    pub is_size: bool,
    pub key: Vec<u8>,
    pub delta: i64,
}

/// Whether a recipient is done: delivered or failed for good.
pub open spec fn rcpt_done(r: Recipient) -> bool {
    r.status is Completed || r.status is PermanentFailure
}

/// The quota identifiers that the done recipients release, scanning the
/// recipients in order with the domains already seen: the domain's
/// identifier for the first done recipient of each domain, and each done
/// recipient's own.
pub open spec fn released_ids(rs: Seq<Recipient>) -> (Seq<u64>, Seq<Seq<char>>)
    decreases rs.len(),
{
    if rs.len() == 0 {
        (Seq::empty(), Seq::empty())
    } else {
        let (ids, seen) = released_ids(rs.drop_last());
        let pos = rs.len() - 1;
        let r = rs.last();
        if rcpt_done(r) {
            let d = domain_of(r.address@);
            if seen.contains(d) {
                (ids.push(rcpt_quota_id(pos)), seen)
            } else {
                (ids.push(domain_quota_id(pos)).push(rcpt_quota_id(pos)), seen.push(d))
            }
        } else {
            (ids, seen)
        }
    }
}

/// The identifier of a quota reservation.
pub open spec fn key_id(k: QuotaKey) -> u64 {
    match k {
        QuotaKey::Size { id, .. } => id,
        QuotaKey::Count { id, .. } => id,
    }
}

/// The reservations that stay: those whose identifier is not released.
pub open spec fn kept_keys(keys: Seq<QuotaKey>, ids: Seq<u64>) -> Seq<QuotaKey>
    decreases keys.len(),
{
    if keys.len() == 0 {
        Seq::empty()
    } else {
        let p = kept_keys(keys.drop_last(), ids);
        if ids.contains(key_id(keys.last())) {
            p
        } else {
            p.push(keys.last())
        }
    }
}

/// The counter updates that give back the released reservations, in order:
/// one message for a count, the message size for a size.
pub open spec fn release_updates(keys: Seq<QuotaKey>, ids: Seq<u64>, size: u64) -> Seq<(bool, Seq<u8>, i64)>
    decreases keys.len(),
{
    if keys.len() == 0 {
        Seq::empty()
    } else {
        let p = release_updates(keys.drop_last(), ids, size);
        let k = keys.last();
        if ids.contains(key_id(k)) {
            match k {
                QuotaKey::Size { key, .. } => p.push((true, key@, -(size as int) as i64)),
                QuotaKey::Count { key, .. } => p.push((false, key@, -1i64)),
            }
        } else {
            p
        }
    }
}

/// Counter updates with their changes reversed.
pub open spec fn reversed_updates(us: Seq<(bool, Seq<u8>, i64)>) -> Seq<(bool, Seq<u8>, int)> {
    us.map_values(|u: (bool, Seq<u8>, i64)| (u.0, u.1, -(u.2 as int)))
}

/// Counter updates with their changes as integers.
pub open spec fn int_updates(us: Seq<(bool, Seq<u8>, i64)>) -> Seq<(bool, Seq<u8>, int)> {
    us.map_values(|u: (bool, Seq<u8>, i64)| (u.0, u.1, u.2 as int))
}

/// Giving back undoes reserving: once every reservation's identifier is
/// released, the updates that give them back are those that took them,
/// reversed, and no reservation is kept.
pub proof fn lemma_release_undoes_reserve(keys: Seq<QuotaKey>, ids: Seq<u64>, size: u64)
    requires
        size <= i64::MAX as u64,
        forall|i: int| 0 <= i < keys.len() ==> ids.contains(key_id(#[trigger] keys[i])),
    ensures
        int_updates(release_updates(keys, ids, size)) == reversed_updates(reserve_updates(keys, size)),
        kept_keys(keys, ids).len() == 0,
    decreases keys.len(),
{
    if keys.len() > 0 {
        let k = keys.last();
        assert(ids.contains(key_id(keys[keys.len() - 1])));
        assert forall|i: int| 0 <= i < keys.drop_last().len() implies ids.contains(key_id(#[trigger] keys.drop_last()[i])) by {
            assert(keys.drop_last()[i] == keys[i]);
        }
        lemma_release_undoes_reserve(keys.drop_last(), ids, size);
        let rel = release_updates(keys, ids, size);
        let res = reserve_updates(keys, size);
        assert(rel.drop_last() == release_updates(keys.drop_last(), ids, size));
        assert(res.drop_last() == reserve_updates(keys.drop_last(), size));
        assert(int_updates(rel) =~= int_updates(rel.drop_last()).push(
            (rel.last().0, rel.last().1, rel.last().2 as int),
        ));
        assert(reversed_updates(res) =~= reversed_updates(res.drop_last()).push(
            (res.last().0, res.last().1, -(res.last().2 as int)),
        ));
    }
}

/// The views of counter updates.
pub open spec fn update_views(us: Seq<QuotaUpdate>) -> Seq<(bool, Seq<u8>, i64)> {
    us.map_values(|u: QuotaUpdate| (u.is_size, u.key@, u.delta))
}

fn copy_bytes(v: &Vec<u8>) -> (r: Vec<u8>)
    ensures
        r@ == v@,
{
    let mut out: Vec<u8> = Vec::new();
    let mut i: usize = 0;
    while i < v.len()
        invariant
            i <= v@.len(),
            out@ == v@.take(i as int),
        decreases v.len() - i,
    {
        out.push(v[i]);
        assert(v@.take(i + 1) =~= v@.take(i as int).push(v@[i as int]));
        i = i + 1;
    }
    assert(v@.take(v@.len() as int) =~= v@);
    out
}

fn contains_id(ids: &Vec<u64>, id: u64) -> (r: bool)
    ensures
        r == ids@.contains(id),
{
    let mut i: usize = 0;
    while i < ids.len()
        invariant
            i <= ids@.len(),
            forall|j: int| 0 <= j < i ==> ids@[j] != id,
        decreases ids.len() - i,
    {
        if ids[i] == id {
            return true;
        }
        i = i + 1;
    }
    false
}

fn contains_domain(seen: &Vec<String>, d: &str) -> (r: bool)
    ensures
        r == seen@.map_values(|s: String| s@).contains(d@),
{
    let ghost views = seen@.map_values(|s: String| s@);
    let mut i: usize = 0;
    while i < seen.len()
        invariant
            i <= seen@.len(),
            views == seen@.map_values(|s: String| s@),
            forall|j: int| 0 <= j < i ==> views[j] != d@,
        decreases seen.len() - i,
    {
        if str_eq(seen[i].as_str(), d) {
            assert(views[i as int] == d@);
            return true;
        }
        i = i + 1;
    }
    false
}

impl MessageWrapper {
    /// The quota identifiers that the finished recipients release.
    pub fn released_quota_ids(&self) -> (r: Vec<u64>)
        requires
            self.message.recipients@.len() < 4294967295,
        ensures
            r@ == released_ids(self.message.recipients@).0,
    {
        let ghost rs = self.message.recipients@;
        let mut ids: Vec<u64> = Vec::new();
        let mut seen: Vec<String> = Vec::new();
        let mut i: usize = 0;
        while i < self.message.recipients.len()
            invariant
                rs == self.message.recipients@,
                rs.len() < 4294967295,
                i <= rs.len(),
                ids@ == released_ids(rs.take(i as int)).0,
                seen@.map_values(|s: String| s@) == released_ids(rs.take(i as int)).1,
            decreases rs.len() - i,
        {
            assert(rs.take(i + 1).drop_last() =~= rs.take(i as int));
            assert(rs.take(i + 1).last() == rs[i as int]);
            let rcpt = &self.message.recipients[i];
            let done = match rcpt.status {
                Status::Completed(_) | Status::PermanentFailure(_) => true,
                _ => false,
            };
            if done {
                let d = domain_part(rcpt.address.as_str());
                let pos = (i + 1) as u64;
                if !contains_domain(&seen, d) {
                    let ghost before = seen@;
                    seen.push(String::from_str(d));
                    assert(seen@.map_values(|s: String| s@) =~= before.map_values(|s: String| s@).push(d@));
                    ids.push(pos * 4294967296);
                }
                ids.push(pos);
            }
            i = i + 1;
        }
        assert(rs.take(rs.len() as int) =~= rs);
        ids
    }

    /// Gives back the quota reservations of the recipients that are done,
    /// returning the counter updates to make and keeping the other
    /// reservations in order. A message without reservations, or without a
    /// finished recipient, is left as it is.
    pub fn release_quota(&mut self) -> (r: Vec<QuotaUpdate>)
        requires
            old(self).message.recipients@.len() < 4294967295,
            old(self).message.size <= i64::MAX as u64,
        ensures
            final(self).queue_id == old(self).queue_id,
            final(self).queue_name == old(self).queue_name,
            final(self).span_id == old(self).span_id,
            final(self).message == (Message { quota_keys: final(self).message.quota_keys, ..old(self).message }),
            ({
                let ids = released_ids(old(self).message.recipients@).0;
                if old(self).message.quota_keys@.len() == 0 || ids.len() == 0 {
                    final(self).message.quota_keys == old(self).message.quota_keys && r@.len() == 0
                } else {
                    &&& final(self).message.quota_keys@ == kept_keys(old(self).message.quota_keys@, ids)
                    &&& update_views(r@) == release_updates(old(self).message.quota_keys@, ids, old(self).message.size)
                }
            }),
    {
        let mut updates: Vec<QuotaUpdate> = Vec::new();
        if self.message.quota_keys.len() == 0 {
            return updates;
        }
        let ids = self.released_quota_ids();
        if ids.len() == 0 {
            return updates;
        }
        let mut keys: Vec<QuotaKey> = Vec::new();
        std::mem::swap(&mut keys, &mut self.message.quota_keys);
        let ghost old_keys = keys@;
        let size = self.message.size;
        let mut kept: Vec<QuotaKey> = Vec::new();
        let mut i: usize = 0;
        while keys.len() > 0
            invariant
                i <= old_keys.len(),
                old_keys.len() <= usize::MAX,
                keys@ == old_keys.skip(i as int),
                old_keys == old(self).message.quota_keys@,
                size == old(self).message.size,
                size <= i64::MAX as u64,
                ids@ == released_ids(old(self).message.recipients@).0,
                kept@ == kept_keys(old_keys.take(i as int), ids@),
                update_views(updates@) == release_updates(old_keys.take(i as int), ids@, size),
            decreases keys.len(),
        {
            assert(old_keys.take(i + 1).drop_last() =~= old_keys.take(i as int));
            assert(old_keys.take(i + 1).last() == old_keys[i as int]);
            let ghost before = updates@;
            let k = keys.remove(0);
            assert(keys@ =~= old_keys.skip(i + 1));
            let id: u64 = match &k {
                QuotaKey::Count { id, .. } => *id,
                QuotaKey::Size { id, .. } => *id,
            };
            if contains_id(&ids, id) {
                match k {
                    QuotaKey::Count { key, .. } => {
                        updates.push(QuotaUpdate { is_size: false, key, delta: -1 });
                        assert(update_views(updates@) =~= update_views(before).push((false, key@, -1i64)));
                    },
                    QuotaKey::Size { key, .. } => {
                        let delta: i64 = -(size as i64);
                        updates.push(QuotaUpdate { is_size: true, key, delta });
                        assert(update_views(updates@) =~= update_views(before).push((true, key@, -(size as int) as i64)));
                    },
                }
            } else {
                kept.push(k);
            }
            i = i + 1;
        }
        assert(old_keys.take(old_keys.len() as int) =~= old_keys);
        self.message.quota_keys = kept;
        updates
    }
}

/// What a quota check decides from the counters it reads: a message of
/// `size` bytes fits when the used size plus its size stays within the size
/// limit and one more message stays within the message limit (each limit
/// where the quota sets one). Returns the reservations to take, size first,
/// or `None` when the message does not fit.
pub fn check_quota(
    max_size: Option<u64>,
    used_size: u64,
    max_messages: Option<u64>,
    used_messages: u64,
    size: u64,
) -> (r: Option<(bool, bool)>)
    requires
        used_size + size <= u64::MAX,
        used_messages < u64::MAX,
    ensures
        r is None <==> ((max_size is Some && used_size + size > max_size->Some_0) || (max_messages is Some
            && used_messages + 1 > max_messages->Some_0)),
        r is Some ==> r->Some_0 == (max_size is Some, max_messages is Some),
{
    if let Some(max) = max_size {
        if used_size + size > max {
            return None;
        }
    }
    if let Some(max) = max_messages {
        if used_messages + 1 > max {
            return None;
        }
    }
    Some((max_size.is_some(), max_messages.is_some()))
}

/// Which kind of quota a check applies.
#[derive(Clone, Copy, PartialEq, Eq, Structural)]
pub enum QuotaScope {
    Sender,
    Domain,
    Recipient,
}

/// One quota check: the quota (its scope and position in its list), the
/// recipient whose envelope it reads (none for the sender), and the
/// identifier of the reservation it takes.
pub struct QuotaCheck {
    pub scope: QuotaScope,
    pub quota: usize,
    pub rcpt: Option<usize>,
    pub id: u64,
}

/// The quota checks of a message, in the order they run: each sender quota
/// once; each domain quota for each recipient whose domain no earlier
/// domain check covered (the domains seen are shared by all domain
/// quotas); each recipient quota for each recipient.
pub fn quota_checks(
    sender_quotas: usize,
    domain_quotas: usize,
    rcpt_quotas: usize,
    recipients: &Vec<Recipient>,
) -> (r: Vec<QuotaCheck>)
    requires
        recipients@.len() < 4294967295,
        sender_quotas + (domain_quotas + rcpt_quotas) * recipients@.len() < usize::MAX,
    ensures
        r@.len() >= sender_quotas,
        forall|q: int| 0 <= q < sender_quotas ==> {
            let c = #[trigger] r@[q];
            c.scope == QuotaScope::Sender && c.quota == q && c.rcpt is None && c.id == 0
        },
        forall|k: int| sender_quotas <= k < r@.len() ==> {
            let c = #[trigger] r@[k];
            &&& c.rcpt is Some && c.rcpt->Some_0 < recipients@.len()
            &&& c.scope == QuotaScope::Domain ==> c.id == domain_quota_id(c.rcpt->Some_0 as int) && c.quota
                < domain_quotas
            &&& c.scope == QuotaScope::Recipient ==> c.id == rcpt_quota_id(c.rcpt->Some_0 as int) && c.quota
                < rcpt_quotas
            &&& c.scope != QuotaScope::Sender
        },
{
    let mut checks: Vec<QuotaCheck> = Vec::new();
    let mut q: usize = 0;
    while q < sender_quotas
        invariant
            q <= sender_quotas,
            checks@.len() == q,
            forall|j: int| 0 <= j < q ==> {
                let c = #[trigger] checks@[j];
                c.scope == QuotaScope::Sender && c.quota == j && c.rcpt is None && c.id == 0
            },
        decreases sender_quotas - q,
    {
        checks.push(QuotaCheck { scope: QuotaScope::Sender, quota: q, rcpt: None, id: 0 });
        q = q + 1;
    }
    let mut seen: Vec<String> = Vec::new();
    q = 0;
    while q < domain_quotas
        invariant
            q <= domain_quotas,
            recipients@.len() < 4294967295,
            sender_quotas + (domain_quotas + rcpt_quotas) * recipients@.len() < usize::MAX,
            sender_quotas <= checks@.len() <= sender_quotas + q * recipients@.len(),
            forall|j: int| 0 <= j < sender_quotas ==> {
                let c = #[trigger] checks@[j];
                c.scope == QuotaScope::Sender && c.quota == j && c.rcpt is None && c.id == 0
            },
            forall|k: int| sender_quotas <= k < checks@.len() ==> {
                let c = #[trigger] checks@[k];
                &&& c.rcpt is Some && c.rcpt->Some_0 < recipients@.len()
                &&& c.scope == QuotaScope::Domain && c.id == domain_quota_id(c.rcpt->Some_0 as int) && c.quota < domain_quotas
            },
        decreases domain_quotas - q,
    {
        let mut i: usize = 0;
        while i < recipients.len()
            invariant
                q < domain_quotas,
                i <= recipients@.len(),
                recipients@.len() < 4294967295,
                sender_quotas + (domain_quotas + rcpt_quotas) * recipients@.len() < usize::MAX,
                sender_quotas <= checks@.len() <= sender_quotas + q * recipients@.len() + i,
                forall|j: int| 0 <= j < sender_quotas ==> {
                    let c = #[trigger] checks@[j];
                    c.scope == QuotaScope::Sender && c.quota == j && c.rcpt is None && c.id == 0
                },
                forall|k: int| sender_quotas <= k < checks@.len() ==> {
                    let c = #[trigger] checks@[k];
                    &&& c.rcpt is Some && c.rcpt->Some_0 < recipients@.len()
                    &&& c.scope == QuotaScope::Domain && c.id == domain_quota_id(c.rcpt->Some_0 as int) && c.quota < domain_quotas
                },
            decreases recipients.len() - i,
        {
            let d = domain_part(recipients[i].address.as_str());
            if !contains_domain(&seen, d) {
                seen.push(String::from_str(d));
                checks.push(
                    QuotaCheck { scope: QuotaScope::Domain, quota: q, rcpt: Some(i), id: ((i + 1) as u64) * 4294967296 },
                );
            }
            i = i + 1;
        }
        proof {
            assert((q + 1) * recipients@.len() == q * recipients@.len() + recipients@.len()) by (nonlinear_arith);
            assert((q + 1) * recipients@.len() <= domain_quotas * recipients@.len()) by (nonlinear_arith)
                requires q + 1 <= domain_quotas;
        }
        q = q + 1;
    }
    let ghost domain_end = checks@.len();
    q = 0;
    while q < rcpt_quotas
        invariant
            q <= rcpt_quotas,
            recipients@.len() < 4294967295,
            sender_quotas + (domain_quotas + rcpt_quotas) * recipients@.len() < usize::MAX,
            sender_quotas <= checks@.len() <= sender_quotas + domain_quotas * recipients@.len() + q * recipients@.len(),
            forall|j: int| 0 <= j < sender_quotas ==> {
                let c = #[trigger] checks@[j];
                c.scope == QuotaScope::Sender && c.quota == j && c.rcpt is None && c.id == 0
            },
            forall|k: int| sender_quotas <= k < checks@.len() ==> {
                let c = #[trigger] checks@[k];
                &&& c.rcpt is Some && c.rcpt->Some_0 < recipients@.len()
                &&& c.scope == QuotaScope::Domain ==> c.id == domain_quota_id(c.rcpt->Some_0 as int) && c.quota < domain_quotas
                &&& c.scope == QuotaScope::Recipient ==> c.id == rcpt_quota_id(c.rcpt->Some_0 as int) && c.quota < rcpt_quotas
                &&& c.scope != QuotaScope::Sender
            },
        decreases rcpt_quotas - q,
    {
        let mut i: usize = 0;
        while i < recipients.len()
            invariant
                q < rcpt_quotas,
                i <= recipients@.len(),
                recipients@.len() < 4294967295,
                sender_quotas + (domain_quotas + rcpt_quotas) * recipients@.len() < usize::MAX,
                sender_quotas <= checks@.len() <= sender_quotas + domain_quotas * recipients@.len() + q * recipients@.len() + i,
                forall|j: int| 0 <= j < sender_quotas ==> {
                    let c = #[trigger] checks@[j];
                    c.scope == QuotaScope::Sender && c.quota == j && c.rcpt is None && c.id == 0
                },
                forall|k: int| sender_quotas <= k < checks@.len() ==> {
                    let c = #[trigger] checks@[k];
                    &&& c.rcpt is Some && c.rcpt->Some_0 < recipients@.len()
                    &&& c.scope == QuotaScope::Domain ==> c.id == domain_quota_id(c.rcpt->Some_0 as int) && c.quota < domain_quotas
                    &&& c.scope == QuotaScope::Recipient ==> c.id == rcpt_quota_id(c.rcpt->Some_0 as int) && c.quota < rcpt_quotas
                    &&& c.scope != QuotaScope::Sender
                },
            decreases recipients.len() - i,
        {
            checks.push(QuotaCheck { scope: QuotaScope::Recipient, quota: q, rcpt: Some(i), id: (i + 1) as u64 });
            i = i + 1;
        }
        proof {
            assert((q + 1) * recipients@.len() == q * recipients@.len() + recipients@.len()) by (nonlinear_arith);
            assert(domain_quotas * recipients@.len() + (q + 1) * recipients@.len() == (domain_quotas + q + 1) * recipients@.len()) by (nonlinear_arith);
            assert((domain_quotas + q + 1) * recipients@.len() <= (domain_quotas + rcpt_quotas) * recipients@.len()) by (nonlinear_arith)
                requires q + 1 <= rcpt_quotas;
        }
        q = q + 1;
    }
    checks
}

/// What entering the queue takes from a message: its content (the added
/// headers, where there are any, before the received message), its size
/// when it had none, the quota counter updates of its reservations, and the
/// time until which its content is reserved.
pub struct QueuePlan {
    pub content: Vec<u8>,
    pub reserve_until: u64,
    pub updates: Vec<QuotaUpdate>,
}

/// The quota counter updates that a message's reservations take: one
/// message for a count, its size for a size.
pub open spec fn reserve_updates(keys: Seq<QuotaKey>, size: u64) -> Seq<(bool, Seq<u8>, i64)>
    decreases keys.len(),
{
    if keys.len() == 0 {
        Seq::empty()
    } else {
        let p = reserve_updates(keys.drop_last(), size);
        match keys.last() {
            QuotaKey::Size { key, .. } => p.push((true, key@, size as i64)),
            QuotaKey::Count { key, .. } => p.push((false, key@, 1i64)),
        }
    }
}

impl MessageWrapper {
    /// Prepares the message for the queue at `now`: its content, its size
    /// (the content's length when it had none), the reservations it takes
    /// and the time until which the content is reserved (two minutes).
    pub fn prepare_queue(&mut self, raw_headers: Option<&[u8]>, raw_message: &[u8], now: u64) -> (r: QueuePlan)
        requires
            now + 120 <= u64::MAX,
            old(self).message.size <= i64::MAX as u64,
            raw_message@.len() + (match raw_headers {
                Some(h) => h@.len() as int,
                None => 0int,
            }) <= i64::MAX,
        ensures
            r.content@ == (match raw_headers {
                Some(h) => h@ + raw_message@,
                None => raw_message@,
            }),
            final(self).message.size == (if old(self).message.size == 0 {
                r.content@.len() as u64
            } else {
                old(self).message.size
            }),
            final(self).message == (Message { size: final(self).message.size, ..old(self).message }),
            final(self).queue_id == old(self).queue_id,
            final(self).queue_name == old(self).queue_name,
            final(self).span_id == old(self).span_id,
            r.reserve_until == now + 120,
            update_views(r.updates@) == reserve_updates(old(self).message.quota_keys@, final(self).message.size),
    {
        let mut content: Vec<u8> = Vec::new();
        match raw_headers {
            Some(h) => {
                let mut i: usize = 0;
                while i < h.len()
                    invariant
                        i <= h@.len(),
                        content@ == h@.take(i as int),
                    decreases h.len() - i,
                {
                    content.push(h[i]);
                    assert(h@.take(i + 1) =~= h@.take(i as int).push(h@[i as int]));
                    i = i + 1;
                }
                assert(h@.take(h@.len() as int) =~= h@);
            },
            None => {},
        }
        let ghost start = content@;
        let mut j: usize = 0;
        while j < raw_message.len()
            invariant
                j <= raw_message@.len(),
                content@ == start + raw_message@.take(j as int),
            decreases raw_message.len() - j,
        {
            content.push(raw_message[j]);
            assert(raw_message@.take(j + 1) =~= raw_message@.take(j as int).push(raw_message@[j as int]));
            j = j + 1;
        }
        assert(raw_message@.take(raw_message@.len() as int) =~= raw_message@);
        if self.message.size == 0 {
            self.message.size = content.len() as u64;
        }
        let size = self.message.size;
        let mut updates: Vec<QuotaUpdate> = Vec::new();
        let mut k: usize = 0;
        while k < self.message.quota_keys.len()
            invariant
                k <= self.message.quota_keys@.len(),
                self.message.quota_keys == old(self).message.quota_keys,
                size == self.message.size,
                size <= i64::MAX as u64,
                update_views(updates@) == reserve_updates(self.message.quota_keys@.take(k as int), size),
            decreases self.message.quota_keys.len() - k,
        {
            assert(self.message.quota_keys@.take(k + 1).drop_last() =~= self.message.quota_keys@.take(k as int));
            assert(self.message.quota_keys@.take(k + 1).last() == self.message.quota_keys@[k as int]);
            let ghost before = updates@;
            match &self.message.quota_keys[k] {
                QuotaKey::Count { key, .. } => {
                    updates.push(QuotaUpdate { is_size: false, key: copy_bytes(key), delta: 1 });
                    assert(update_views(updates@) =~= update_views(before).push((false, key@, 1i64)));
                },
                QuotaKey::Size { key, .. } => {
                    updates.push(QuotaUpdate { is_size: true, key: copy_bytes(key), delta: size as i64 });
                    assert(update_views(updates@) =~= update_views(before).push((true, key@, size as i64)));
                },
            }
            k = k + 1;
        }
        assert(self.message.quota_keys@.take(self.message.quota_keys@.len() as int) =~= self.message.quota_keys@);
        QueuePlan { content, reserve_until: now + 120, updates }
    }
}


/// The outcome of one quota check of a message, in the order the checks
/// run (see [`quota_checks`]): whether the quota applies (its condition is
/// set and holds), the key it counts under, the identifier of the
/// reservation, and what [`check_quota`] decided from the counters.
pub struct QuotaOutcome {
    pub applies: bool,
    pub key: Vec<u8>,
    pub id: u64,
    pub fit: Option<(bool, bool)>,
}

/// A reservation by its view: whether of size, the key and the identifier.
pub open spec fn quota_key_view(k: QuotaKey) -> (bool, Seq<u8>, u64) {
    match k {
        QuotaKey::Size { key, id } => (true, key@, id),
        QuotaKey::Count { key, id } => (false, key@, id),
    }
}

/// Whether every quota that applies fits.
pub open spec fn all_quotas_fit(outcomes: Seq<QuotaOutcome>) -> bool {
    forall|i: int| 0 <= i < outcomes.len() && (#[trigger] outcomes[i]).applies ==> outcomes[i].fit is Some
}

/// The reservations that the quotas that apply take, in order: for each,
/// one of its size and one of its message count, where it limits them.
pub open spec fn reservations(outcomes: Seq<QuotaOutcome>) -> Seq<(bool, Seq<u8>, u64)>
    decreases outcomes.len(),
{
    if outcomes.len() == 0 {
        Seq::empty()
    } else {
        let p = reservations(outcomes.drop_last());
        let o = outcomes.last();
        match o.fit {
            Some((size, count)) => if o.applies {
                let p1 = if size { p.push((true, o.key@, o.id)) } else { p };
                if count { p1.push((false, o.key@, o.id)) } else { p1 }
            } else {
                p
            },
            None => p,
        }
    }
}

impl MessageWrapper {
    /// Takes the reservations of the quotas that apply to this message when
    /// every one of them fits, and returns whether they all did; where one
    /// does not fit, nothing is reserved.
    pub fn has_quota(&mut self, outcomes: &Vec<QuotaOutcome>) -> (r: bool)
        ensures
            r == all_quotas_fit(outcomes@),
            r ==> final(self).message.quota_keys@.map_values(|k: QuotaKey| quota_key_view(k)) == reservations(outcomes@),
            r ==> final(self).message == (Message { quota_keys: final(self).message.quota_keys, ..old(self).message }),
            !r ==> *final(self) == *old(self),
            final(self).queue_id == old(self).queue_id,
            final(self).queue_name == old(self).queue_name,
            final(self).span_id == old(self).span_id,
    {
        let mut keys: Vec<QuotaKey> = Vec::new();
        let mut i: usize = 0;
        while i < outcomes.len()
            invariant
                i <= outcomes@.len(),
                all_quotas_fit(outcomes@.take(i as int)),
                keys@.map_values(|k: QuotaKey| quota_key_view(k)) == reservations(outcomes@.take(i as int)),
            decreases outcomes.len() - i,
        {
            let o = &outcomes[i];
            assert(outcomes@.take(i + 1).drop_last() =~= outcomes@.take(i as int));
            assert(outcomes@.take(i + 1).last() == outcomes@[i as int]);
            let ghost before = keys@;
            if o.applies {
                match o.fit {
                    Some((size, count)) => {
                        if size {
                            keys.push(QuotaKey::Size { key: copy_bytes(&o.key), id: o.id });
                        }
                        if count {
                            keys.push(QuotaKey::Count { key: copy_bytes(&o.key), id: o.id });
                        }
                        assert(keys@.map_values(|k: QuotaKey| quota_key_view(k)) =~= reservations(outcomes@.take(i + 1)));
                    },
                    None => {
                        assert(!all_quotas_fit(outcomes@)) by {
                            assert(outcomes@[i as int].applies);
                        }
                        return false;
                    },
                }
            }
            assert(all_quotas_fit(outcomes@.take(i + 1))) by {
                assert forall|j: int| 0 <= j < i + 1 && (#[trigger] outcomes@.take(i + 1)[j]).applies
                    implies outcomes@.take(i + 1)[j].fit is Some by {
                    if j < i {
                        assert(outcomes@.take(i + 1)[j] == outcomes@.take(i as int)[j]);
                    }
                }
            }
            i = i + 1;
        }
        assert(outcomes@.take(outcomes@.len() as int) =~= outcomes@);
        self.message.quota_keys = keys;
        true
    }
}

} // verus!
