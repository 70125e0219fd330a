//! The decisions of a spam classifier training run: reading the stored
//! training samples, whether the model has seen enough of each class, how
//! the classes are balanced by replaying older samples, how many passes
//! the training makes, and which sample entries are removed afterwards.

use vstd::prelude::*;

verus! {

/// The number of samples sent to the trainer at a time.
pub const TRAIN_BATCH_SIZE: usize = 128;

/// The account number that stands for no account.
pub const NO_ACCOUNT: u32 = 0xFFFF_FFFF;

/// A message kept for training: the hash of its stored copy and the account
/// it belongs to.
pub struct TrainingSample {
    pub hash: Vec<u8>,
    pub account_id: u32,
}

/// One sample to train on: whether it is spam, whether it is an older
/// sample replayed to balance the classes, and, for a sample whose entry is
/// to be removed after training, the expiry of that entry.
pub struct TrainingTask {
    pub sample: TrainingSample,
    pub is_spam: bool,
    pub is_replay: bool,
    pub remove: Option<u64>,
}

/// The big-endian value of a byte string.
pub open spec fn be_value(s: Seq<u8>) -> nat
    decreases s.len(),
{
    if s.len() == 0 {
        0
    } else {
        be_value(s.drop_last()) * 256 + (s.last() as nat)
    }
}

/// The largest value of `n` bytes.
pub open spec fn be_max(n: nat) -> nat
    decreases n,
{
    if n == 0 {
        0
    } else {
        be_max((n - 1) as nat) * 256 + 255
    }
}

proof fn lemma_be_value_bound(s: Seq<u8>)
    ensures
        be_value(s) <= be_max(s.len()),
    decreases s.len(),
{
    if s.len() > 0 {
        lemma_be_value_bound(s.drop_last());
    }
}

proof fn lemma_be_max_mono(a: nat, b: nat)
    requires
        a <= b,
    ensures
        be_max(a) <= be_max(b),
    decreases b,
{
    if a < b {
        lemma_be_max_mono(a, (b - 1) as nat);
    }
}

proof fn lemma_be_max_8()
    ensures
        be_max(8) == 0xFFFF_FFFF_FFFF_FFFF,
        be_max(4) == 0xFFFF_FFFF,
{
    reveal_with_fuel(be_max, 9);
}

/// The big-endian number of `n` bytes at `offset`, where the bytes are
/// there.
fn read_be(bytes: &[u8], offset: usize, n: usize) -> (r: Option<u64>)
    requires
        n <= 8,
    ensures
        offset + n <= bytes@.len() ==> r == Some(
            be_value(bytes@.subrange(offset as int, offset + n)) as u64,
        ),
        offset + n <= bytes@.len() ==> be_value(bytes@.subrange(offset as int, offset + n)) <= be_max(n as nat),
        offset + n > bytes@.len() ==> r is None,
{
    if offset > bytes.len() || n > bytes.len() - offset {
        return None;
    }
    let ghost s = bytes@.subrange(offset as int, offset + n);
    let mut v: u64 = 0;
    let mut i: usize = 0;
    while i < n
        invariant
            n <= 8,
            offset + n <= bytes.len(),
            s == bytes@.subrange(offset as int, offset + n),
            i <= n,
            v == be_value(s.take(i as int)),
        decreases n - i,
    {
        proof {
            lemma_be_value_bound(s.take(i as int));
            lemma_be_max_mono(i as nat, 7);
            lemma_be_max_8();
            reveal_with_fuel(be_max, 9);
            assert(s.take(i + 1).drop_last() =~= s.take(i as int));
            assert(s.take(i + 1).last() == bytes@[offset + i]);
        }
        v = v * 256 + bytes[offset + i] as u64;
        i = i + 1;
    }
    proof {
        assert(s.take(n as int) =~= s);
        lemma_be_value_bound(s);
    }
    Some(v)
}

/// A stored training sample entry, as read: its expiry, account, hash,
/// whether it is spam and whether its entry is to be removed.
pub struct SampleEntry {
    pub until: u64,
    pub account_id: u32,
    pub hash: Vec<u8>,
    pub is_spam: bool,
    pub remove: bool,
}

/// Whether a stored sample entry can be read: a key of at least thirteen
/// bytes and a value of at least two.
pub open spec fn entry_readable(key: Seq<u8>, value: Seq<u8>) -> bool {
    key.len() >= 13 && value.len() >= 2
}

/// Reads a stored sample entry: the expiry from the eight bytes after the
/// key's first, the account from the next four, the hash from the rest; the
/// value's first byte is one for spam, its second zero for an entry to be
/// removed. `None` for an entry too short to read.
pub fn read_sample_entry(key: &[u8], value: &[u8]) -> (r: Option<SampleEntry>)
    ensures
        r is Some <==> entry_readable(key@, value@),
        r matches Some(e) ==> {
            &&& e.until == be_value(key@.subrange(1, 9))
            &&& e.account_id == be_value(key@.subrange(9, 13))
            &&& e.hash@ == key@.subrange(13, key@.len() as int)
            &&& e.is_spam == (value@[0] == 1)
            &&& e.remove == (value@[1] == 0)
        },
{
    let until = match read_be(key, 1, 8) {
        Some(v) => v,
        None => return None,
    };
    let account = match read_be(key, 9, 4) {
        Some(v) => v,
        None => return None,
    };
    if value.len() < 2 {
        return None;
    }
    proof {
        lemma_be_max_8();
    }
    let account_id = account as u32;
    let mut hash: Vec<u8> = Vec::new();
    let mut i: usize = 13;
    while i < key.len()
        invariant
            13 <= i <= key@.len(),
            hash@ == key@.subrange(13, i as int),
        decreases key.len() - i,
    {
        hash.push(key[i]);
        assert(key@.subrange(13, i + 1) =~= key@.subrange(13, i as int).push(key@[i as int]));
        i = i + 1;
    }
    Some(SampleEntry {
        until,
        account_id,
        hash,
        is_spam: value[0] == 1,
        remove: value[1] == 0,
    })
}

/// What a pass over the stored sample entries gathers: the samples to
/// train on, whether any entry is to be removed, the expiry of the last
/// entry read, and how many spam and ham samples were read.
pub struct SampleScan {
    pub tasks: Vec<TrainingTask>,
    pub remove_entries: bool,
    pub last_expiry: u64,
    pub spam_count: u64,
    pub ham_count: u64,
}

/// The number of spam entries in a list.
pub open spec fn spam_entries(es: Seq<SampleEntry>) -> nat
    decreases es.len(),
{
    if es.len() == 0 {
        0
    } else {
        spam_entries(es.drop_last()) + if es.last().is_spam {
            1nat
        } else {
            0nat
        }
    }
}

/// Whether the task for an entry is the one the entry asks for.
pub open spec fn task_of(t: TrainingTask, e: SampleEntry) -> bool {
    &&& t.sample.hash@ == e.hash@
    &&& t.sample.account_id == e.account_id
    &&& t.is_spam == e.is_spam
    &&& !t.is_replay
    &&& t.remove == if e.remove {
        Some(e.until)
    } else {
        None::<u64>
    }
}

fn copy_bytes(v: &Vec<u8>) -> (r: Vec<u8>)
    ensures
        r@ == v@,
{
    let mut out: Vec<u8> = Vec::new();
    let mut i: usize = 0;
    while i < v.len()
        invariant
            i <= v@.len(),
            out@ == v@.take(i as int),
        decreases v.len() - i,
    {
        out.push(v[i]);
        assert(v@.take(i + 1) =~= v@.take(i as int).push(v@[i as int]));
        i = i + 1;
    }
    assert(v@.take(v@.len() as int) =~= v@);
    out
}

/// Gathers the samples of the entries read, in order, starting from the
/// expiry of the previous run.
pub fn scan_samples(entries: &Vec<SampleEntry>, last_expiry: u64) -> (r: SampleScan)
    ensures
        r.tasks@.len() == entries@.len(),
        forall|i: int| 0 <= i < entries@.len() ==> task_of(#[trigger] r.tasks@[i], entries@[i]),
        r.remove_entries == exists|i: int| 0 <= i < entries@.len() && (#[trigger] entries@[i]).remove,
        r.last_expiry == if entries@.len() == 0 {
            last_expiry
        } else {
            entries@.last().until
        },
        r.spam_count == spam_entries(entries@),
        r.ham_count == entries@.len() - spam_entries(entries@),
{
    let mut tasks: Vec<TrainingTask> = Vec::new();
    let mut remove_entries = false;
    let mut last = last_expiry;
    let mut spam: u64 = 0;
    let mut ham: u64 = 0;
    let mut i: usize = 0;
    while i < entries.len()
        invariant
            i <= entries@.len(),
            tasks@.len() == i,
            forall|j: int| 0 <= j < i ==> task_of(#[trigger] tasks@[j], entries@[j]),
            remove_entries == exists|j: int| 0 <= j < i && (#[trigger] entries@[j]).remove,
            last == if i == 0 {
                last_expiry
            } else {
                entries@[i - 1].until
            },
            spam == spam_entries(entries@.take(i as int)),
            spam + ham == i,
        decreases entries.len() - i,
    {
        let e = &entries[i];
        proof {
            assert(entries@.take(i + 1).drop_last() =~= entries@.take(i as int));
        }
        let task = TrainingTask {
            sample: TrainingSample { hash: copy_bytes(&e.hash), account_id: e.account_id },
            is_spam: e.is_spam,
            is_replay: false,
            remove: if e.remove {
                Some(e.until)
            } else {
                None
            },
        };
        tasks.push(task);
        remove_entries = remove_entries || e.remove;
        last = e.until;
        if e.is_spam {
            spam = spam + 1;
        } else {
            ham = ham + 1;
        }
        proof {
            assert(tasks@[i as int] == task);
            assert forall|j: int| 0 <= j < i + 1 implies task_of(#[trigger] tasks@[j], entries@[j]) by {}
            if e.remove {
                assert(entries@[i as int].remove);
            }
        }
        i = i + 1;
    }
    assert(entries@.take(entries@.len() as int) =~= entries@);
    SampleScan { tasks, remove_entries, last_expiry: last, spam_count: spam, ham_count: ham }
}

/// What a training run does after reading the samples.
pub enum TrainDecision {
    /// Nothing was read.
    NoSamples,
    /// One class has been seen fewer times than its minimum.
    NotReady,
    /// Train, first replaying `replay` older samples of the class given by
    /// `replay_spam` when the counts read differ, in `epochs` passes.
    Train { replay: u64, replay_spam: bool, epochs: usize },
}

/// The number of passes over the samples: three while the smaller class
/// has been seen at most 50 times, two up to 200, else one.
pub open spec fn epochs_for(ham_seen: u64, spam_seen: u64) -> usize {
    let m = if ham_seen < spam_seen { ham_seen } else { spam_seen };
    if m <= 50 {
        3
    } else if m <= 200 {
        2
    } else {
        1
    }
}

/// The number of passes over the samples (see [`epochs_for`]).
pub fn training_epochs(ham_seen: u64, spam_seen: u64) -> (r: usize)
    ensures
        r == epochs_for(ham_seen, spam_seen),
{
    let m = if ham_seen < spam_seen {
        ham_seen
    } else {
        spam_seen
    };
    if m <= 50 {
        3
    } else if m <= 200 {
        2
    } else {
        1
    }
}

/// Decides a training run from the counts read in this run and the totals
/// the sample reservoir has seen of each class: nothing read stops it; a
/// class seen fewer times than its minimum stops it; else the class read
/// less is topped up by replaying as many older samples as the other
/// class exceeds it by.
pub fn plan_training(
    spam_count: u64,
    ham_count: u64,
    ham_seen: u64,
    spam_seen: u64,
    min_ham_samples: u64,
    min_spam_samples: u64,
) -> (r: TrainDecision)
    ensures
        spam_count + ham_count == 0 ==> r is NoSamples,
        spam_count + ham_count > 0 && (ham_seen < min_ham_samples || spam_seen < min_spam_samples)
            ==> r is NotReady,
        spam_count + ham_count > 0 && ham_seen >= min_ham_samples && spam_seen >= min_spam_samples
            ==> r == (TrainDecision::Train {
            replay: if spam_count > ham_count {
                (spam_count - ham_count) as u64
            } else {
                (ham_count - spam_count) as u64
            },
            replay_spam: ham_count > spam_count,
            epochs: epochs_for(ham_seen, spam_seen),
        }),
{
    if spam_count == 0 && ham_count == 0 {
        TrainDecision::NoSamples
    } else if ham_seen < min_ham_samples || spam_seen < min_spam_samples {
        TrainDecision::NotReady
    } else {
        let replay = if spam_count > ham_count {
            spam_count - ham_count
        } else {
            ham_count - spam_count
        };
        TrainDecision::Train {
            replay,
            replay_spam: ham_count > spam_count,
            epochs: training_epochs(ham_seen, spam_seen),
        }
    }
}

/// The account a sample is trained for: none for the account number that
/// stands for no account.
pub fn sample_account(account_id: u32) -> (r: Option<u32>)
    ensures
        r == if account_id == NO_ACCOUNT {
            None
        } else {
            Some(account_id)
        },
{
    if account_id != NO_ACCOUNT {
        Some(account_id)
    } else {
        None
    }
}

/// An entry to remove after training: its account, hash and expiry.
pub struct SampleRemoval {
    pub account_id: u32,
    pub hash: Vec<u8>,
    pub until: u64,
}

/// The removals that the tasks ask for, in order.
pub open spec fn removals_of(ts: Seq<TrainingTask>) -> Seq<(u32, Seq<u8>, u64)>
    decreases ts.len(),
{
    if ts.len() == 0 {
        Seq::empty()
    } else {
        let p = removals_of(ts.drop_last());
        match ts.last().remove {
            Some(until) => p.push((ts.last().sample.account_id, ts.last().sample.hash@, until)),
            None => p,
        }
    }
}

/// The entries to remove after training: those of the tasks that carry an
/// expiry, in order.
pub fn sample_removals(tasks: &Vec<TrainingTask>) -> (r: Vec<SampleRemoval>)
    ensures
        r@.map_values(|x: SampleRemoval| (x.account_id, x.hash@, x.until)) == removals_of(tasks@),
{
    let mut out: Vec<SampleRemoval> = Vec::new();
    let mut i: usize = 0;
    while i < tasks.len()
        invariant
            i <= tasks@.len(),
            out@.map_values(|x: SampleRemoval| (x.account_id, x.hash@, x.until)) == removals_of(
                tasks@.take(i as int),
            ),
        decreases tasks.len() - i,
    {
        let t = &tasks[i];
        proof {
            assert(tasks@.take(i + 1).drop_last() =~= tasks@.take(i as int));
        }
        let ghost before = out@;
        match t.remove {
            Some(until) => {
                out.push(SampleRemoval {
                    account_id: t.sample.account_id,
                    hash: copy_bytes(&t.sample.hash),
                    until,
                });
                assert(out@.map_values(|x: SampleRemoval| (x.account_id, x.hash@, x.until))
                    =~= before.map_values(|x: SampleRemoval| (x.account_id, x.hash@, x.until)).push(
                    (t.sample.account_id, t.sample.hash@, until),
                ));
            },
            None => {},
        }
        i = i + 1;
    }
    assert(tasks@.take(tasks@.len() as int) =~= tasks@);
    out
}


/// How a training run starts.
#[derive(Clone, Copy, Debug, PartialEq, Eq, Structural)]
pub enum TrainStart {
    /// No classifier is configured: nothing to do.
    Disabled,
    /// Another training run holds the permit: the run fails.
    AlreadyRunning,
    /// The run goes ahead, from the saved trainer where `load_saved`, else
    /// from a new one.
    Run { load_saved: bool },
}

/// How a training run starts: nothing without a classifier; a failure
/// while another run is under way (`permit` says whether the run could
/// take the training permit); else a run that loads the saved trainer
/// unless asked to retrain from scratch.
pub fn train_start(has_classifier: bool, permit: bool, retrain: bool) -> (r: TrainStart)
    ensures
        r == (if !has_classifier {
            TrainStart::Disabled
        } else if !permit {
            TrainStart::AlreadyRunning
        } else {
            TrainStart::Run { load_saved: !retrain }
        }),
{
    if !has_classifier {
        TrainStart::Disabled
    } else if !permit {
        TrainStart::AlreadyRunning
    } else {
        TrainStart::Run { load_saved: !retrain }
    }
}

/// The reason a training run fails while another is under way.
pub fn already_running_reason() -> (r: &'static str)
    ensures
        r@ == "Spam training task is already running"@,
{
    "Spam training task is already running"
}

} // verus!
