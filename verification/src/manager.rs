//! The queue manager's decisions: which due messages it hands to delivery
//! workers under each queue's concurrency limit, which messages it keeps
//! locked, and what it does with the events that workers send back. Waiting
//! for events, reading the spool and starting workers are the caller's.

use vstd::prelude::*;
use crate::queue::QueueName;

verus! {

/// Seconds that a lock on a queued message lasts.
pub const LOCK_EXPIRY: u64 = 300;

/// Seconds between two back-pressure warnings of one queue.
pub const BACK_PRESSURE_WARN_INTERVAL: u64 = 60;

/// Seconds that a paused manager sleeps before it looks again.
pub const PAUSED_SLEEP: u64 = 86400;

/// Identifies a queued message.
pub type QueueId = u64;

/// How many deliveries of a queue run, how many may run, and when the
/// manager last warned that the queue was full (monotonic seconds).
#[derive(Clone, Copy)]
pub struct QueueStats {
    pub in_flight: usize,
    pub max_in_flight: usize,
    pub last_warning: u64,
}

/// A lock on a queued message: until when it holds, and the lock revision
/// of the manager that took it.
#[derive(Clone, Copy, PartialEq, Eq, Structural)]
pub struct LockedMessage {
    pub expires: u64,
    pub revision: u64,
}

/// One entry of the lock table.
#[derive(Clone, Copy)]
pub struct LockEntry {
    pub queue_id: QueueId,
    pub queue_name: QueueName,
    pub lock: LockedMessage,
}

/// The locked messages, by queue id and queue name.
pub struct LockTable {
    pub entries: Vec<LockEntry>,
}

/// The lock of a message in a list of lock entries.
pub open spec fn lookup(s: Seq<LockEntry>, id: QueueId, name: QueueName) -> Option<LockedMessage>
    decreases s.len(),
{
    if s.len() == 0 {
        None
    } else if s.last().queue_id == id && s.last().queue_name == name {
        Some(s.last().lock)
    } else {
        lookup(s.drop_last(), id, name)
    }
}

/// No message has two entries.
pub open spec fn unique_keys(s: Seq<LockEntry>) -> bool {
    forall|i: int, j: int|
        0 <= i < j < s.len() ==> !((#[trigger] s[i]).queue_id == (#[trigger] s[j]).queue_id
            && s[i].queue_name == s[j].queue_name)
}

/// Whether a lock survives the expiry pass at time `now` under `revision`.
pub open spec fn lock_survives(l: LockedMessage, now: u64, revision: u64) -> bool {
    l.expires > now && l.revision == revision
}

/// A message has a lock exactly when some entry names it.
pub proof fn lemma_lookup_some(s: Seq<LockEntry>, id: QueueId, name: QueueName)
    ensures
        lookup(s, id, name) is Some <==> exists|i: int|
            0 <= i < s.len() && (#[trigger] s[i]).queue_id == id && s[i].queue_name == name,
        lookup(s, id, name) is Some ==> exists|i: int|
            0 <= i < s.len() && (#[trigger] s[i]).queue_id == id && s[i].queue_name == name
                && s[i].lock == lookup(s, id, name)->Some_0,
    decreases s.len(),
{
    if s.len() > 0 {
        lemma_lookup_some(s.drop_last(), id, name);
        if !(s.last().queue_id == id && s.last().queue_name == name) {
            if exists|i: int|
                0 <= i < s.len() && (#[trigger] s[i]).queue_id == id && s[i].queue_name == name {
                let i = choose|i: int|
                    0 <= i < s.len() && (#[trigger] s[i]).queue_id == id && s[i].queue_name
                        == name;
                assert(s.drop_last()[i] == s[i]);
            }
            if lookup(s, id, name) is Some {
                let i = choose|i: int|
                    0 <= i < s.drop_last().len() && (#[trigger] s.drop_last()[i]).queue_id == id
                        && s.drop_last()[i].queue_name == name && s.drop_last()[i].lock == lookup(
                        s.drop_last(),
                        id,
                        name,
                    )->Some_0;
                assert(s[i] == s.drop_last()[i]);
            }
        } else {
            assert(s[s.len() - 1] == s.last());
        }
    }
}

impl QueueStats {
    /// The stats of a queue with room for `max_in_flight` deliveries at
    /// monotonic time `now`, which may warn at once.
    pub fn new(max_in_flight: usize, now: u64) -> (r: Self)
        requires
            now >= BACK_PRESSURE_WARN_INTERVAL,
        ensures
            r.in_flight == 0,
            r.max_in_flight == max_in_flight,
            r.last_warning == now - BACK_PRESSURE_WARN_INTERVAL,
    {
        QueueStats { in_flight: 0, max_in_flight, last_warning: now - BACK_PRESSURE_WARN_INTERVAL }
    }

    /// Whether another delivery of the queue may start.
    pub fn has_capacity(&self) -> (r: bool)
        ensures
            r == (self.in_flight < self.max_in_flight),
    {
        self.in_flight < self.max_in_flight
    }
}

impl LockTable {
    pub open spec fn wf(&self) -> bool {
        unique_keys(self.entries@)
    }

    /// The lock of a message.
    pub open spec fn lock_of(&self, id: QueueId, name: QueueName) -> Option<LockedMessage> {
        lookup(self.entries@, id, name)
    }

    /// An empty table.
    pub fn new() -> (r: Self)
        ensures
            r.wf(),
            r.entries@.len() == 0,
            forall|id: QueueId, name: QueueName| r.lock_of(id, name) is None,
    {
        LockTable { entries: Vec::new() }
    }

    /// The number of locked messages.
    pub fn len(&self) -> (r: usize)
        ensures
            r == self.entries@.len(),
    {
        self.entries.len()
    }

    /// Whether no message is locked.
    pub fn is_empty(&self) -> (r: bool)
        ensures
            r == (self.entries@.len() == 0),
    {
        self.entries.len() == 0
    }

    /// Unlocks a message; the others keep their locks.
    pub fn remove(&mut self, id: QueueId, name: QueueName)
        requires
            old(self).wf(),
        ensures
            final(self).wf(),
            final(self).lock_of(id, name) is None,
            forall|i: QueueId, n: QueueName|
                !(i == id && n == name) ==> #[trigger] final(self).lock_of(i, n) == old(
                    self,
                ).lock_of(i, n),
            final(self).entries@.len() == old(self).entries@.len() - (if old(self).lock_of(
                id,
                name,
            ) is Some {
                1int
            } else {
                0int
            }),
    {
        let ghost old_entries = self.entries@;
        let mut kept: Vec<LockEntry> = Vec::new();
        let mut removed: bool = false;
        let mut i: usize = 0;
        while i < self.entries.len()
            invariant
                i <= self.entries@.len(),
                self.entries@ == old_entries,
                unique_keys(old_entries),
                unique_keys(kept@),
                forall|k: int|
                    0 <= k < kept@.len() ==> exists|j: int|
                        0 <= j < i && old_entries[j] == #[trigger] kept@[k],
                lookup(kept@, id, name) is None,
                forall|a: QueueId, n: QueueName|
                    !(a == id && n == name) ==> #[trigger] lookup(kept@, a, n) == lookup(
                        old_entries.take(i as int),
                        a,
                        n,
                    ),
                removed == (lookup(old_entries.take(i as int), id, name) is Some),
                kept@.len() == i - (if removed {
                    1int
                } else {
                    0int
                }),
            decreases self.entries.len() - i,
        {
            let e = self.entries[i];
            assert(old_entries.take(i + 1).drop_last() =~= old_entries.take(i as int));
            assert(old_entries.take(i + 1).last() == e);
            let ghost prev = kept@;
            proof {
                lemma_lookup_some(old_entries.take(i as int), e.queue_id, e.queue_name);
                if lookup(old_entries.take(i as int), e.queue_id, e.queue_name) is Some {
                    let j = choose|j: int|
                        0 <= j < old_entries.take(i as int).len() && (#[trigger] old_entries.take(
                            i as int,
                        )[j]).queue_id == e.queue_id && old_entries.take(i as int)[j].queue_name
                            == e.queue_name;
                    assert(old_entries[j] == old_entries.take(i as int)[j]);
                    assert(false);
                }
            }
            if e.queue_id == id && e.queue_name == name {
                removed = true;
            } else {
                proof {
                    assert forall|k: int| 0 <= k < kept@.len() implies !((#[trigger] kept@[k]).queue_id
                        == e.queue_id && kept@[k].queue_name == e.queue_name) by {
                        let j = choose|j: int| 0 <= j < i && old_entries[j] == kept@[k];
                    }
                }
                kept.push(e);
                assert(kept@.drop_last() =~= prev);
                assert forall|k: int| 0 <= k < kept@.len() implies exists|j: int|
                    0 <= j < i + 1 && old_entries[j] == #[trigger] kept@[k] by {
                    if k == kept@.len() - 1 {
                        assert(old_entries[i as int] == kept@[k]);
                    } else {
                        let j = choose|j: int| 0 <= j < i && old_entries[j] == kept@[k];
                    }
                }
            }
            assert forall|a: QueueId, n: QueueName| !(a == id && n == name) implies #[trigger] lookup(
                kept@,
                a,
                n,
            ) == lookup(old_entries.take(i + 1), a, n) by {
                assert(lookup(prev, a, n) == lookup(old_entries.take(i as int), a, n));
            }
            i = i + 1;
        }
        assert(old_entries.take(i as int) =~= old_entries);
        self.entries = kept;
    }

    /// Locks a message, replacing any lock it had.
    pub fn insert(&mut self, id: QueueId, name: QueueName, lock: LockedMessage)
        requires
            old(self).wf(),
        ensures
            final(self).wf(),
            final(self).lock_of(id, name) == Some(lock),
            forall|i: QueueId, n: QueueName|
                !(i == id && n == name) ==> #[trigger] final(self).lock_of(i, n) == old(
                    self,
                ).lock_of(i, n),
            final(self).entries@.len() == old(self).entries@.len() + (if old(self).lock_of(
                id,
                name,
            ) is Some {
                0int
            } else {
                1int
            }),
    {
        self.remove(id, name);
        let ghost mid = *self;
        proof {
            lemma_lookup_some(self.entries@, id, name);
        }
        let ghost before = self.entries@;
        self.entries.push(LockEntry { queue_id: id, queue_name: name, lock });
        assert(self.entries@.drop_last() =~= before);
        assert forall|i: QueueId, n: QueueName| !(i == id && n == name) implies #[trigger] self.lock_of(
            i,
            n,
        ) == old(self).lock_of(i, n) by {
            assert(lookup(self.entries@, i, n) == lookup(before, i, n));
            assert(mid.lock_of(i, n) == old(self).lock_of(i, n));
        }
        assert forall|a: int, b: int| 0 <= a < b < self.entries@.len() implies !((
        #[trigger] self.entries@[a]).queue_id == (#[trigger] self.entries@[b]).queue_id
            && self.entries@[a].queue_name == self.entries@[b].queue_name) by {
            if b == self.entries@.len() - 1 {
                assert(self.entries@[a] == before[a]);
            } else {
                assert(self.entries@[a] == before[a]);
                assert(self.entries@[b] == before[b]);
            }
        }
    }

    /// Drops every lock that has expired at `now` or was taken under another
    /// revision.
    pub fn retain_live(&mut self, now: u64, revision: u64)
        requires
            old(self).wf(),
        ensures
            final(self).wf(),
            forall|i: QueueId, n: QueueName|
                #[trigger] final(self).lock_of(i, n) == (match old(self).lock_of(i, n) {
                    Some(l) => if lock_survives(l, now, revision) {
                        Some(l)
                    } else {
                        None
                    },
                    None => None,
                }),
    {
        let ghost old_entries = self.entries@;
        let mut kept: Vec<LockEntry> = Vec::new();
        let mut i: usize = 0;
        while i < self.entries.len()
            invariant
                i <= self.entries@.len(),
                self.entries@ == old_entries,
                unique_keys(old_entries),
                unique_keys(kept@),
                forall|k: int|
                    0 <= k < kept@.len() ==> exists|j: int|
                        0 <= j < i && old_entries[j] == #[trigger] kept@[k],
                forall|a: QueueId, n: QueueName|
                    #[trigger] lookup(kept@, a, n) == (match lookup(
                        old_entries.take(i as int),
                        a,
                        n,
                    ) {
                        Some(l) => if lock_survives(l, now, revision) {
                            Some(l)
                        } else {
                            None
                        },
                        None => None,
                    }),
            decreases self.entries.len() - i,
        {
            let e = self.entries[i];
            assert(old_entries.take(i + 1).drop_last() =~= old_entries.take(i as int));
            assert(old_entries.take(i + 1).last() == e);
            let ghost prev = kept@;
            proof {
                lemma_lookup_some(old_entries.take(i as int), e.queue_id, e.queue_name);
                if lookup(old_entries.take(i as int), e.queue_id, e.queue_name) is Some {
                    let j = choose|j: int|
                        0 <= j < old_entries.take(i as int).len() && (#[trigger] old_entries.take(
                            i as int,
                        )[j]).queue_id == e.queue_id && old_entries.take(i as int)[j].queue_name
                            == e.queue_name;
                    assert(old_entries[j] == old_entries.take(i as int)[j]);
                    assert(false);
                }
            }
            if e.lock.expires > now && e.lock.revision == revision {
                proof {
                    assert forall|k: int| 0 <= k < kept@.len() implies !((#[trigger] kept@[k]).queue_id
                        == e.queue_id && kept@[k].queue_name == e.queue_name) by {
                        let j = choose|j: int| 0 <= j < i && old_entries[j] == kept@[k];
                    }
                }
                kept.push(e);
                assert(kept@.drop_last() =~= prev);
                assert forall|k: int| 0 <= k < kept@.len() implies exists|j: int|
                    0 <= j < i + 1 && old_entries[j] == #[trigger] kept@[k] by {
                    if k == kept@.len() - 1 {
                        assert(old_entries[i as int] == kept@[k]);
                    } else {
                        let j = choose|j: int| 0 <= j < i && old_entries[j] == kept@[k];
                    }
                }
            }
            assert forall|a: QueueId, n: QueueName| #[trigger] lookup(kept@, a, n) == (match lookup(
                old_entries.take(i + 1),
                a,
                n,
            ) {
                Some(l) => if lock_survives(l, now, revision) {
                    Some(l)
                } else {
                    None
                },
                None => None,
            }) by {
                assert(lookup(prev, a, n) == (match lookup(old_entries.take(i as int), a, n) {
                    Some(l) => if lock_survives(l, now, revision) {
                        Some(l)
                    } else {
                        None
                    },
                    None => None,
                }));
            }
            i = i + 1;
        }
        assert(old_entries.take(i as int) =~= old_entries);
        self.entries = kept;
    }
}

/// How a delivery worker finished with a message.
#[derive(Clone, Copy, PartialEq, Eq, Structural)]
pub enum QueueEventStatus {
    Completed,
    Locked,
    Deferred,
}

/// What the manager is told.
pub enum QueueEvent {
    /// A worker finished with a message.
    WorkerDone { queue_id: QueueId, queue_name: QueueName, status: QueueEventStatus },
    /// New messages may be due.
    Refresh,
    /// Delivery is paused or resumed.
    Paused(bool),
    /// The concurrency limit of each configured queue.
    ReloadSettings(Vec<(QueueName, usize)>),
    /// The manager stops.
    Stop,
}

/// What the manager does with a due message.
#[derive(Clone, Copy, Debug, PartialEq, Eq, Structural)]
pub enum DispatchAction {
    /// Start a delivery worker for it.
    Deliver,
    /// Leave it for later, because its queue is full; `warn` says whether
    /// to log a back-pressure warning.
    Defer { warn: bool },
}

/// The state of the queue manager. Times named "monotonic" are seconds of a
/// monotonic clock; lock expiry times are UNIX seconds.
pub struct QueueManager {
    pub locked: LockTable,
    pub locked_revision: u64,
    pub stats: Vec<(QueueName, QueueStats)>,
    pub next_refresh: u64,
    pub is_paused: bool,
}

/// The position of a queue's stats, where it has them.
pub open spec fn stats_index(stats: Seq<(QueueName, QueueStats)>, name: QueueName) -> Option<int> {
    if exists|i: int| 0 <= i < stats.len() && (#[trigger] stats[i]).0 == name {
        Some(choose|i: int| 0 <= i < stats.len() && (#[trigger] stats[i]).0 == name)
    } else {
        None
    }
}

/// Each queue has at most one stats entry.
pub open spec fn unique_queues(stats: Seq<(QueueName, QueueStats)>) -> bool {
    forall|i: int, j: int|
        0 <= i < j < stats.len() ==> (#[trigger] stats[i]).0 != (#[trigger] stats[j]).0
}

/// The stats after a settings reload: each listed queue gets its new limit,
/// and a queue without stats gets fresh ones.
pub open spec fn reload_stats(
    stats: Seq<(QueueName, QueueStats)>,
    settings: Seq<(QueueName, usize)>,
    now: u64,
) -> Seq<(QueueName, QueueStats)>
    decreases settings.len(),
{
    if settings.len() == 0 {
        stats
    } else {
        let prev = reload_stats(stats, settings.drop_last(), now);
        let (name, threads) = settings.last();
        match stats_index(prev, name) {
            Some(i) => prev.update(i, (name, QueueStats { max_in_flight: threads, ..prev[i].1 })),
            None => prev.push(
                (
                    name,
                    QueueStats {
                        in_flight: 0,
                        max_in_flight: threads,
                        last_warning: (now - BACK_PRESSURE_WARN_INTERVAL) as u64,
                    },
                ),
            ),
        }
    }
}

impl QueueManager {
    pub open spec fn wf(&self) -> bool {
        &&& self.locked.wf()
        &&& unique_queues(self.stats@)
    }

    /// A manager at monotonic time `now`, which first looks at the queue a
    /// second later.
    pub fn new(now: u64) -> (r: Self)
        requires
            now < u64::MAX,
        ensures
            r.wf(),
            r.locked.entries@.len() == 0,
            r.locked_revision == 0,
            r.stats@.len() == 0,
            r.next_refresh == now + 1,
            !r.is_paused,
    {
        QueueManager {
            locked: LockTable::new(),
            locked_revision: 0,
            stats: Vec::new(),
            next_refresh: now + 1,
            is_paused: false,
        }
    }

    /// The position of a queue's stats.
    pub fn find_stats(&self, name: QueueName) -> (r: Option<usize>)
        requires
            unique_queues(self.stats@),
        ensures
            r is Some <==> stats_index(self.stats@, name) is Some,
            r is Some ==> r->Some_0 == stats_index(self.stats@, name)->Some_0,
            r is Some ==> r->Some_0 < self.stats@.len() && self.stats@[r->Some_0 as int].0 == name,
    {
        let mut i: usize = 0;
        while i < self.stats.len()
            invariant
                i <= self.stats@.len(),
                unique_queues(self.stats@),
                forall|j: int| 0 <= j < i ==> (#[trigger] self.stats@[j]).0 != name,
            decreases self.stats.len() - i,
        {
            if self.stats[i].0 == name {
                assert(exists|j: int| 0 <= j < self.stats@.len() && (#[trigger] self.stats@[j]).0 == name) by {
                    assert(self.stats@[i as int].0 == name);
                }
                proof {
                    let c = choose|j: int| 0 <= j < self.stats@.len() && (#[trigger] self.stats@[j]).0 == name;
                    if c != i {
                        if c < i {
                            assert(self.stats@[c].0 != self.stats@[i as int].0);
                        } else {
                            assert(self.stats@[i as int].0 != self.stats@[c].0);
                        }
                    }
                }
                return Some(i);
            }
            i = i + 1;
        }
        None
    }

    /// Whether the manager looks at the queue now: it is not paused, and an
    /// event asked for it or the planned time has come.
    pub fn should_process(&self, refresh_queue: bool, now: u64) -> (r: bool)
        ensures
            r == (!self.is_paused && (refresh_queue || self.next_refresh <= now)),
    {
        !self.is_paused && (refresh_queue || self.next_refresh <= now)
    }

    /// Decides what to do with a due message of `queue_name`, whose queue
    /// allows `threads` concurrent deliveries when the manager has no stats
    /// for it yet. A full queue defers the message and drops its lock, and
    /// warns at most once per warning interval.
    pub fn dispatch_one(
        &mut self,
        queue_id: QueueId,
        queue_name: QueueName,
        threads: usize,
        now: u64,
    ) -> (r: DispatchAction)
        requires
            old(self).wf(),
            now >= BACK_PRESSURE_WARN_INTERVAL,
        ensures
            final(self).wf(),
            ({
                let st = match stats_index(old(self).stats@, queue_name) {
                    Some(i) => old(self).stats@[i].1,
                    None => QueueStats { in_flight: 0, max_in_flight: threads, last_warning: (now - BACK_PRESSURE_WARN_INTERVAL) as u64 },
                };
                let j = stats_index(final(self).stats@, queue_name)->Some_0;
                &&& stats_index(final(self).stats@, queue_name) is Some
                &&& (st.in_flight < st.max_in_flight) <==> r == DispatchAction::Deliver
                &&& r == DispatchAction::Deliver ==> final(self).stats@[j].1 == QueueStats {
                    in_flight: (st.in_flight + 1) as usize,
                    ..st
                }
                &&& r == DispatchAction::Deliver ==> final(self).locked == old(self).locked
                &&& r != DispatchAction::Deliver ==> {
                    let warn = now >= st.last_warning && now - st.last_warning >= BACK_PRESSURE_WARN_INTERVAL;
                    &&& r == DispatchAction::Defer { warn }
                    &&& final(self).stats@[j].1 == (if warn { QueueStats { last_warning: now, ..st } } else { st })
                    &&& final(self).locked.lock_of(queue_id, queue_name) is None
                    &&& forall|i: QueueId, n: QueueName|
                        !(i == queue_id && n == queue_name) ==> #[trigger] final(self).locked.lock_of(i, n)
                            == old(self).locked.lock_of(i, n)
                }
            }),
            forall|n: QueueName|
                n != queue_name ==> #[trigger] stats_index(final(self).stats@, n) == stats_index(old(self).stats@, n)
                    && (stats_index(old(self).stats@, n) is Some ==> final(self).stats@[stats_index(old(self).stats@, n)->Some_0]
                        == old(self).stats@[stats_index(old(self).stats@, n)->Some_0]),
            final(self).locked_revision == old(self).locked_revision,
            final(self).next_refresh == old(self).next_refresh,
            final(self).is_paused == old(self).is_paused,
    {
        let idx = match self.find_stats(queue_name) {
            Some(i) => i,
            None => {
                let ghost before = self.stats@;
                self.stats.push((queue_name, QueueStats::new(threads, now)));
                proof {
                    assert(self.stats@.drop_last() =~= before);
                    assert forall|a: int, b: int| 0 <= a < b < self.stats@.len() implies (#[trigger] self.stats@[a]).0
                        != (#[trigger] self.stats@[b]).0 by {
                        if b < before.len() {
                            assert(self.stats@[a] == before[a]);
                            assert(self.stats@[b] == before[b]);
                        } else {
                            assert(self.stats@[a] == before[a]);
                        }
                    }
                    assert(self.stats@[before.len() as int].0 == queue_name);
                    assert forall|n: QueueName| n != queue_name implies #[trigger] stats_index(self.stats@, n) == stats_index(before, n) by {
                        if exists|i: int| 0 <= i < before.len() && (#[trigger] before[i]).0 == n {
                            let i = choose|i: int| 0 <= i < before.len() && (#[trigger] before[i]).0 == n;
                            assert(self.stats@[i] == before[i]);
                        }
                        if exists|i: int| 0 <= i < self.stats@.len() && (#[trigger] self.stats@[i]).0 == n {
                            let i = choose|i: int| 0 <= i < self.stats@.len() && (#[trigger] self.stats@[i]).0 == n;
                            assert(before[i] == self.stats@[i]);
                        }
                    }
                }
                self.stats.len() - 1
            },
        };
        let ghost mid = self.stats@;
        let mut st = self.stats[idx].1;
        let action = if st.has_capacity() {
            st.in_flight = st.in_flight + 1;
            DispatchAction::Deliver
        } else {
            let warn = now >= st.last_warning && now - st.last_warning >= BACK_PRESSURE_WARN_INTERVAL;
            if warn {
                st.last_warning = now;
            }
            self.locked.remove(queue_id, queue_name);
            DispatchAction::Defer { warn }
        };
        self.stats.set(idx, (queue_name, st));
        proof {
            assert forall|a: int, b: int| 0 <= a < b < self.stats@.len() implies (#[trigger] self.stats@[a]).0
                != (#[trigger] self.stats@[b]).0 by {
                assert(mid[a].0 == self.stats@[a].0);
                assert(mid[b].0 == self.stats@[b].0);
            }
            assert forall|n: QueueName| #[trigger] stats_index(self.stats@, n) == stats_index(mid, n) by {
                if exists|i: int| 0 <= i < mid.len() && (#[trigger] mid[i]).0 == n {
                    let i = choose|i: int| 0 <= i < mid.len() && (#[trigger] mid[i]).0 == n;
                    assert(self.stats@[i].0 == n);
                }
                if exists|i: int| 0 <= i < self.stats@.len() && (#[trigger] self.stats@[i]).0 == n {
                    let i = choose|i: int| 0 <= i < self.stats@.len() && (#[trigger] self.stats@[i]).0 == n;
                    assert(mid[i].0 == n);
                }
            }
        }
        action
    }

    /// Drops the locks that have expired at UNIX time `now` or belong to an
    /// older revision.
    pub fn expire_locks(&mut self, now: u64)
        requires
            old(self).wf(),
        ensures
            final(self).wf(),
            forall|i: QueueId, n: QueueName|
                #[trigger] final(self).locked.lock_of(i, n) == (match old(self).locked.lock_of(i, n) {
                    Some(l) => if lock_survives(l, now, old(self).locked_revision) {
                        Some(l)
                    } else {
                        None
                    },
                    None => None,
                }),
            final(self).stats == old(self).stats,
            final(self).locked_revision == old(self).locked_revision,
            final(self).next_refresh == old(self).next_refresh,
            final(self).is_paused == old(self).is_paused,
    {
        let revision = self.locked_revision;
        self.locked.retain_live(now, revision);
    }

    /// Plans the next look at the queue, at monotonic time `now` and UNIX
    /// time `unix_now`, for a queue whose next message is due at UNIX time
    /// `next_due`; a paused manager looks again after a day.
    pub fn plan_refresh(&mut self, now: u64, unix_now: u64, next_due: u64)
        requires
            now + PAUSED_SLEEP <= u64::MAX,
            now + (if next_due >= unix_now { next_due - unix_now } else { 0 }) <= u64::MAX,
        ensures
            final(self).next_refresh == (if old(self).is_paused {
                now + PAUSED_SLEEP
            } else {
                now + (if next_due >= unix_now { next_due - unix_now } else { 0 })
            }),
            final(self).locked == old(self).locked,
            final(self).stats == old(self).stats,
            final(self).locked_revision == old(self).locked_revision,
            final(self).is_paused == old(self).is_paused,
    {
        if self.is_paused {
            self.next_refresh = now + PAUSED_SLEEP;
        } else {
            self.next_refresh = now + next_due.saturating_sub(unix_now);
        }
    }
}

impl QueueManager {
    fn reload_settings(&mut self, settings: &Vec<(QueueName, usize)>, now: u64)
        requires
            old(self).wf(),
            now >= BACK_PRESSURE_WARN_INTERVAL,
        ensures
            final(self).wf(),
            final(self).stats@ == reload_stats(old(self).stats@, settings@, now),
            final(self).locked == old(self).locked,
            final(self).locked_revision == old(self).locked_revision,
            final(self).next_refresh == old(self).next_refresh,
            final(self).is_paused == old(self).is_paused,
    {
        let mut k: usize = 0;
        while k < settings.len()
            invariant
                k <= settings@.len(),
                now >= BACK_PRESSURE_WARN_INTERVAL,
                self.wf(),
                self.stats@ == reload_stats(old(self).stats@, settings@.take(k as int), now),
                self.locked == old(self).locked,
                self.locked_revision == old(self).locked_revision,
                self.next_refresh == old(self).next_refresh,
                self.is_paused == old(self).is_paused,
            decreases settings.len() - k,
        {
            let (name, threads) = settings[k];
            assert(settings@.take(k + 1).drop_last() =~= settings@.take(k as int));
            assert(settings@.take(k + 1).last() == settings@[k as int]);
            let ghost before = self.stats@;
            match self.find_stats(name) {
                Some(i) => {
                    let mut st = self.stats[i].1;
                    st.max_in_flight = threads;
                    self.stats.set(i, (name, st));
                    assert forall|a: int, b: int| 0 <= a < b < self.stats@.len() implies (#[trigger] self.stats@[a]).0
                        != (#[trigger] self.stats@[b]).0 by {
                        assert(before[a].0 == self.stats@[a].0);
                        assert(before[b].0 == self.stats@[b].0);
                    }
                },
                None => {
                    self.stats.push((name, QueueStats::new(threads, now)));
                    assert(self.stats@.drop_last() =~= before);
                    assert forall|a: int, b: int| 0 <= a < b < self.stats@.len() implies (#[trigger] self.stats@[a]).0
                        != (#[trigger] self.stats@[b]).0 by {
                        assert(self.stats@[a] == before[a]);
                        if b < before.len() {
                            assert(self.stats@[b] == before[b]);
                        } else {
                            assert(!(exists|j: int| 0 <= j < before.len() && (#[trigger] before[j]).0 == name));
                        }
                    }
                },
            }
            k = k + 1;
        }
        assert(settings@.take(settings@.len() as int) =~= settings@);
    }

    /// Handles an event at monotonic time `now` and UNIX time `unix_now`, and
    /// says whether the queue should be looked at now. `jitter` (five to
    /// nine seconds, drawn at random) lengthens the lock of a message that a
    /// worker found locked elsewhere.
    pub fn handle_event(&mut self, event: QueueEvent, now: u64, unix_now: u64, jitter: u64) -> (r: bool)
        requires
            old(self).wf(),
            5 <= jitter < 10,
            now + LOCK_EXPIRY + jitter <= u64::MAX,
            unix_now + LOCK_EXPIRY + jitter <= u64::MAX,
            now >= BACK_PRESSURE_WARN_INTERVAL,
            event matches QueueEvent::WorkerDone { queue_name, .. } ==> stats_index(
                old(self).stats@,
                queue_name,
            ) is Some && old(self).stats@[stats_index(old(self).stats@, queue_name)->Some_0].1.in_flight > 0,
        ensures
            final(self).wf(),
            final(self).locked_revision == old(self).locked_revision,
            match event {
                QueueEvent::WorkerDone { queue_id, queue_name, status } => {
                    let i = stats_index(old(self).stats@, queue_name)->Some_0;
                    let st = QueueStats { in_flight: (old(self).stats@[i].1.in_flight - 1) as usize, ..old(self).stats@[i].1 };
                    &&& final(self).stats@ == old(self).stats@.update(i, (queue_name, st))
                    &&& final(self).is_paused == old(self).is_paused
                    &&& forall|a: QueueId, n: QueueName|
                        !(a == queue_id && n == queue_name) ==> #[trigger] final(self).locked.lock_of(a, n)
                            == old(self).locked.lock_of(a, n)
                    &&& match status {
                        QueueEventStatus::Completed => {
                            &&& final(self).locked.lock_of(queue_id, queue_name) is None
                            &&& final(self).next_refresh == old(self).next_refresh
                            &&& r == (final(self).locked.entries@.len() > 0 || !(st.in_flight < st.max_in_flight))
                        },
                        QueueEventStatus::Locked => {
                            &&& final(self).locked.lock_of(queue_id, queue_name) == Some(LockedMessage {
                                expires: (unix_now + LOCK_EXPIRY + jitter) as u64,
                                revision: old(self).locked_revision,
                            })
                            &&& final(self).next_refresh == (if now + LOCK_EXPIRY + jitter < old(self).next_refresh {
                                (now + LOCK_EXPIRY + jitter) as u64
                            } else {
                                old(self).next_refresh
                            })
                            &&& r == (final(self).locked.entries@.len() > 1 || !(st.in_flight < st.max_in_flight))
                        },
                        QueueEventStatus::Deferred => {
                            &&& final(self).locked.lock_of(queue_id, queue_name) is None
                            &&& final(self).next_refresh == old(self).next_refresh
                            &&& r
                        },
                    }
                },
                QueueEvent::Refresh => r && *final(self) == *old(self),
                QueueEvent::Paused(p) => !r && final(self).is_paused == p && final(self).stats == old(
                    self,
                ).stats && final(self).locked == old(self).locked && final(self).next_refresh == old(
                    self,
                ).next_refresh,
                QueueEvent::ReloadSettings(settings) => !r && final(self).stats@ == reload_stats(
                    old(self).stats@,
                    settings@,
                    now,
                ) && final(self).locked == old(self).locked && final(self).is_paused == old(
                    self,
                ).is_paused && final(self).next_refresh == old(self).next_refresh,
                QueueEvent::Stop => !r && final(self).is_paused && final(self).stats == old(self).stats
                    && final(self).locked == old(self).locked && final(self).next_refresh == old(
                    self,
                ).next_refresh,
            },
    {
        match event {
            QueueEvent::WorkerDone { queue_id, queue_name, status } => {
                let i = match self.find_stats(queue_name) {
                    Some(i) => i,
                    None => {
                        assert(false);
                        0
                    },
                };
                let ghost before = self.stats@;
                let mut st = self.stats[i].1;
                st.in_flight = st.in_flight - 1;
                self.stats.set(i, (queue_name, st));
                assert forall|a: int, b: int| 0 <= a < b < self.stats@.len() implies (#[trigger] self.stats@[a]).0
                    != (#[trigger] self.stats@[b]).0 by {
                    assert(before[a].0 == self.stats@[a].0);
                    assert(before[b].0 == self.stats@[b].0);
                }
                match status {
                    QueueEventStatus::Completed => {
                        self.locked.remove(queue_id, queue_name);
                        !self.locked.is_empty() || !st.has_capacity()
                    },
                    QueueEventStatus::Locked => {
                        let expires = LOCK_EXPIRY + jitter;
                        let due_in = now + expires;
                        if due_in < self.next_refresh {
                            self.next_refresh = due_in;
                        }
                        let revision = self.locked_revision;
                        self.locked.insert(
                            queue_id,
                            queue_name,
                            LockedMessage { expires: unix_now + expires, revision },
                        );
                        self.locked.len() > 1 || !st.has_capacity()
                    },
                    QueueEventStatus::Deferred => {
                        self.locked.remove(queue_id, queue_name);
                        true
                    },
                }
            },
            QueueEvent::Refresh => true,
            QueueEvent::Paused(paused) => {
                self.is_paused = paused;
                false
            },
            QueueEvent::ReloadSettings(settings) => {
                self.reload_settings(&settings, now);
                false
            },
            QueueEvent::Stop => {
                self.is_paused = true;
                false
            },
        }
    }
}

} // verus!
