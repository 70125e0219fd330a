use stalwart::manager::{
    DispatchAction, LockTable, LockedMessage, QueueEvent, QueueEventStatus, QueueManager, QueueStats,
};
use stalwart::queue::QueueName;

const Q: QueueName = QueueName(1);

#[test]
fn stats_start_empty() {
    let s = QueueStats::new(2, 100);
    assert_eq!(s.in_flight, 0);
    assert_eq!(s.last_warning, 40);
    assert!(s.has_capacity());
}

#[test]
fn lock_table_keeps_one_lock_per_message() {
    let mut t = LockTable::new();
    assert!(t.is_empty());
    t.insert(1, Q, LockedMessage { expires: 10, revision: 0 });
    t.insert(1, Q, LockedMessage { expires: 20, revision: 0 });
    t.insert(2, Q, LockedMessage { expires: 5, revision: 1 });
    assert_eq!(t.len(), 2);
    t.retain_live(8, 0);
    assert_eq!(t.len(), 1);
    assert_eq!(t.entries[0].lock.expires, 20);
    t.remove(1, Q);
    assert!(t.is_empty());
}

#[test]
fn dispatch_respects_concurrency_limit() {
    let mut m = QueueManager::new(100);
    assert_eq!(m.dispatch_one(10, Q, 2, 100), DispatchAction::Deliver);
    assert_eq!(m.dispatch_one(11, Q, 2, 100), DispatchAction::Deliver);
    assert_eq!(m.dispatch_one(12, Q, 2, 100), DispatchAction::Defer { warn: true });
    assert_eq!(m.dispatch_one(13, Q, 2, 120), DispatchAction::Defer { warn: false });
    assert_eq!(m.dispatch_one(14, Q, 2, 160), DispatchAction::Defer { warn: true });
    let i = m.find_stats(Q).unwrap();
    assert_eq!(m.stats[i].1.in_flight, 2);
    assert!(m.handle_event(QueueEvent::WorkerDone { queue_id: 10, queue_name: Q, status: QueueEventStatus::Completed }, 200, 1000, 5) == false);
    assert_eq!(m.stats[i].1.in_flight, 1);
    assert_eq!(m.dispatch_one(15, Q, 2, 200), DispatchAction::Deliver);
}

#[test]
fn locked_elsewhere_and_deferred() {
    let mut m = QueueManager::new(100);
    m.dispatch_one(10, Q, 4, 100);
    m.dispatch_one(11, Q, 4, 100);
    assert!(!m.handle_event(QueueEvent::WorkerDone { queue_id: 10, queue_name: Q, status: QueueEventStatus::Locked }, 100, 5000, 7));
    assert_eq!(m.locked.entries[0].lock.expires, 5307);
    assert_eq!(m.next_refresh, 101);
    assert!(m.handle_event(QueueEvent::WorkerDone { queue_id: 11, queue_name: Q, status: QueueEventStatus::Deferred }, 100, 5000, 7));
    m.expire_locks(5000);
    assert_eq!(m.locked.len(), 1);
    m.expire_locks(5307);
    assert_eq!(m.locked.len(), 0);
}

#[test]
fn pause_reload_and_refresh() {
    let mut m = QueueManager::new(100);
    assert!(m.should_process(false, 101));
    assert!(!m.should_process(false, 100));
    assert!(m.handle_event(QueueEvent::Refresh, 100, 0, 5));
    assert!(!m.handle_event(QueueEvent::Paused(true), 100, 0, 5));
    assert!(!m.should_process(true, 1000));
    m.plan_refresh(100, 0, 50);
    assert_eq!(m.next_refresh, 100 + 86400);
    assert!(!m.handle_event(QueueEvent::Paused(false), 100, 0, 5));
    m.plan_refresh(100, 1000, 1030);
    assert_eq!(m.next_refresh, 130);
    m.plan_refresh(100, 1000, 900);
    assert_eq!(m.next_refresh, 100);
    assert!(!m.handle_event(QueueEvent::ReloadSettings(vec![(Q, 8), (QueueName(2), 3)]), 100, 0, 5));
    assert_eq!(m.stats.len(), 2);
    assert_eq!(m.stats[m.find_stats(QueueName(2)).unwrap()].1.max_in_flight, 3);
    assert!(!m.handle_event(QueueEvent::Stop, 100, 0, 5));
    assert!(m.is_paused);
}
