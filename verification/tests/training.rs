use stalwart::training::{
    already_running_reason, train_start, TrainStart,
    plan_training, read_sample_entry, sample_account, sample_removals, scan_samples, training_epochs,
    SampleEntry, TrainDecision, TrainingSample, TrainingTask,
};

fn key(until: u64, account: u32, hash: &[u8]) -> Vec<u8> {
    let mut k = vec![7u8];
    k.extend_from_slice(&until.to_be_bytes());
    k.extend_from_slice(&account.to_be_bytes());
    k.extend_from_slice(hash);
    k
}

#[test]
fn reads_sample_entries() {
    let k = key(0x0102_0304_0506_0708, 42, &[9, 9, 9]);
    let e = read_sample_entry(&k, &[1, 0]).expect("readable");
    assert_eq!(e.until, 0x0102_0304_0506_0708);
    assert_eq!(e.account_id, 42);
    assert_eq!(e.hash, vec![9, 9, 9]);
    assert!(e.is_spam);
    assert!(e.remove);
    let e = read_sample_entry(&k, &[0, 1]).expect("readable");
    assert!(!e.is_spam);
    assert!(!e.remove);
}

#[test]
fn short_entries_are_unreadable() {
    let k = key(1, 2, &[]);
    assert!(read_sample_entry(&k[..12], &[1, 1]).is_none());
    assert!(read_sample_entry(&k, &[1]).is_none());
    assert!(read_sample_entry(&k, &[1, 1]).is_some());
}

fn entry(until: u64, is_spam: bool, remove: bool) -> SampleEntry {
    SampleEntry { until, account_id: 5, hash: vec![until as u8], is_spam, remove }
}

#[test]
fn scan_counts_classes_and_removals() {
    let entries = vec![entry(10, true, false), entry(11, false, true), entry(12, true, false)];
    let scan = scan_samples(&entries, 3);
    assert_eq!(scan.spam_count, 2);
    assert_eq!(scan.ham_count, 1);
    assert!(scan.remove_entries);
    assert_eq!(scan.last_expiry, 12);
    assert_eq!(scan.tasks.len(), 3);
    assert_eq!(scan.tasks[1].remove, Some(11));
    assert!(!scan.tasks[0].is_replay);
    let removals = sample_removals(&scan.tasks);
    assert_eq!(removals.len(), 1);
    assert_eq!(removals[0].until, 11);
    assert_eq!(removals[0].hash, vec![11]);
    let empty = scan_samples(&vec![], 3);
    assert_eq!(empty.last_expiry, 3);
    assert!(!empty.remove_entries);
}

#[test]
fn epochs_by_smaller_class() {
    assert_eq!(training_epochs(50, 1000), 3);
    assert_eq!(training_epochs(1000, 51), 2);
    assert_eq!(training_epochs(200, 200), 2);
    assert_eq!(training_epochs(201, 300), 1);
}

#[test]
fn training_decisions() {
    assert!(matches!(plan_training(0, 0, 100, 100, 10, 10), TrainDecision::NoSamples));
    assert!(matches!(plan_training(3, 1, 5, 100, 10, 10), TrainDecision::NotReady));
    assert!(matches!(plan_training(3, 1, 100, 5, 10, 10), TrainDecision::NotReady));
    match plan_training(5, 2, 100, 300, 10, 10) {
        TrainDecision::Train { replay, replay_spam, epochs } => {
            assert_eq!(replay, 3);
            assert!(!replay_spam);
            assert_eq!(epochs, 2);
        }
        _ => panic!("expected training"),
    }
    match plan_training(1, 4, 300, 300, 10, 10) {
        TrainDecision::Train { replay, replay_spam, epochs } => {
            assert_eq!(replay, 3);
            assert!(replay_spam);
            assert_eq!(epochs, 1);
        }
        _ => panic!("expected training"),
    }
    match plan_training(2, 2, 10, 10, 10, 10) {
        TrainDecision::Train { replay, .. } => assert_eq!(replay, 0),
        _ => panic!("expected training"),
    }
}

#[test]
fn no_account_marker() {
    assert_eq!(sample_account(u32::MAX), None);
    assert_eq!(sample_account(7), Some(7));
    let task = TrainingTask {
        sample: TrainingSample { hash: vec![1], account_id: u32::MAX },
        is_spam: true,
        is_replay: true,
        remove: None,
    };
    assert!(sample_removals(&vec![task]).is_empty());
}

#[test]
fn training_start_checks() {
    assert_eq!(train_start(false, true, false), TrainStart::Disabled);
    assert_eq!(train_start(true, false, false), TrainStart::AlreadyRunning);
    assert_eq!(train_start(true, true, false), TrainStart::Run { load_saved: true });
    assert_eq!(train_start(true, true, true), TrainStart::Run { load_saved: false });
    assert_eq!(already_running_reason(), "Spam training task is already running");
}
