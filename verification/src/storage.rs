//! The store handles and the composite stores built from them: SQL read
//! replicas, sharded blob and in-memory stores, and the file system blob
//! store's read window.

use vstd::prelude::*;
use crate::external::{xxh3_64, xxh3_hash};

verus! {

/// A data store. Each backend variant carries the handle of the open
/// backend; `NotConfigured` is the store of a server without one.
pub enum Store {
    RocksDb(u64),
    SQLite(u64),
    PostgreSQL(u64),
    MySQL(u64),
    FoundationDb(u64),
    SQLReadReplica(Box<SQLReadReplica>),
    Ephemeral(u64),
    NotConfigured,
}

/// A SQL store whose reads go to its replicas in turn, falling back to the
/// primary, and whose writes go to the primary.
pub struct SQLReadReplica {
    pub primary: Store,
    pub replicas: Vec<Store>,
    pub last_used_replica: usize,
}

/// A blob store.
pub enum BlobStore {
    Store(Store),
    Fs(FsStore),
    S3(u64),
    Azure(u64),
    Sharded(Box<ShardedBlob>),
}

/// An in-memory store.
pub enum InMemoryStore {
    Store(Store),
    Redis(u64),
    Http(u64),
    Static(u64),
    Sharded(Box<ShardedInMemory>),
}

/// A blob store that spreads keys over several stores by their hash.
pub struct ShardedBlob {
    pub stores: Vec<BlobStore>,
}

/// An in-memory store that spreads keys over several stores by their hash.
pub struct ShardedInMemory {
    pub stores: Vec<InMemoryStore>,
}

/// A blob store on the local file system; blobs sit below `path`, in one
/// directory level per leading key byte, at most five.
pub struct FsStore {
    pub path: String,
    pub hash_levels: usize,
}

/// The total hit count of a search engine reply.
pub struct Total {
    pub value: u64,
}

/// The reply of a search engine to a delete-by-query request.
pub struct DeleteByQueryResponse {
    pub deleted: u64,
}

/// What a read does after trying a replica.
pub enum ReplicaStep<T, E> {
    /// The read is over, with this result.
    Return(Result<T, E>),
    /// The replica failed; the read tries the primary.
    TryPrimary(E),
}

/// The error text of a sharded blob store built from fewer than two stores.
pub open spec fn too_few_blob_stores() -> Seq<char> {
    "At least two blob stores are required for sharded blob store"@
}

/// The error text of a sharded in-memory store built from fewer than two stores.
pub open spec fn too_few_memory_stores() -> Seq<char> {
    "At least two in-memory stores are required for sharded in-memory store"@
}

/// The shard that a key hash falls in.
pub fn shard_of(hash: u64, shards: usize) -> (r: usize)
    requires
        shards > 0,
    ensures
        r == hash as int % shards as int,
        r < shards,
{
    (hash % (shards as u64)) as usize
}

impl Store {
    /// Whether the store lives in memory only (the store of bootstrap mode).
    pub fn is_ephemeral(&self) -> (r: bool)
        ensures
            r == (*self is Ephemeral),
    {
        match self {
            Store::Ephemeral(_) => true,
            _ => false,
        }
    }
}

impl SQLReadReplica {
    /// Builds the store from a primary and its replicas.
    pub fn open(primary: Store, replicas: Vec<Store>) -> (r: Result<Store, String>)
        ensures
            r is Ok,
            r->Ok_0 is SQLReadReplica,
            r->Ok_0->SQLReadReplica_0.primary == primary,
            r->Ok_0->SQLReadReplica_0.replicas@ == replicas@,
            r->Ok_0->SQLReadReplica_0.last_used_replica == 0,
    {
        Ok(Store::SQLReadReplica(Box::new(SQLReadReplica { primary, replicas, last_used_replica: 0 })))
    }

    /// Picks the replica that the next read tries first: the replicas are
    /// taken in turn, by a counter that wraps around.
    pub fn next_replica(&mut self) -> (r: usize)
        requires
            old(self).replicas@.len() > 0,
        ensures
            r == old(self).last_used_replica as int % old(self).replicas@.len() as int,
            r < old(self).replicas@.len(),
            final(self).last_used_replica == (if old(self).last_used_replica == usize::MAX {
                0
            } else {
                old(self).last_used_replica + 1
            }),
            final(self).primary == old(self).primary,
            final(self).replicas@ == old(self).replicas@,
    {
        let used = self.last_used_replica;
        self.last_used_replica = used.wrapping_add(1);
        used % self.replicas.len()
    }

    /// What a read does with the result of a replica: it returns a success
    /// and an assertion failure as they are, and tries the primary after any
    /// other error.
    pub fn replica_step<T, E>(result: Result<T, E>, assertion_failure: bool) -> (r: ReplicaStep<T, E>)
        ensures
            result is Ok ==> r == ReplicaStep::<T, E>::Return(result),
            result is Err && assertion_failure ==> r == ReplicaStep::<T, E>::Return(result),
            result is Err && !assertion_failure ==> r == ReplicaStep::<T, E>::TryPrimary(
                result->Err_0,
            ),
    {
        match result {
            Ok(v) => ReplicaStep::Return(Ok(v)),
            Err(e) => if assertion_failure {
                ReplicaStep::Return(Err(e))
            } else {
                ReplicaStep::TryPrimary(e)
            },
        }
    }

    /// The primary store.
    pub fn primary_store(&self) -> (r: &Store)
        ensures
            *r == self.primary,
    {
        &self.primary
    }

    /// Gives up the replicas and keeps the primary.
    pub fn into_primary(self) -> (r: Store)
        ensures
            r == self.primary,
    {
        self.primary
    }
}

impl BlobStore {
    /// The blob store of a server without a sharded one: the data store.
    pub open spec fn spec_default() -> BlobStore {
        BlobStore::Store(Store::NotConfigured)
    }

    /// Replaces a sharded store, which needs the enterprise edition, with the
    /// default store; keeps any other.
    pub fn downgrade_store(self) -> (r: BlobStore)
        ensures
            self is Sharded ==> r == BlobStore::spec_default(),
            !(self is Sharded) ==> r == self,
    {
        match self {
            BlobStore::Sharded(_) => BlobStore::default(),
            other => other,
        }
    }

    /// Whether the store needs the enterprise edition.
    pub fn is_enterprise(&self) -> (r: bool)
        ensures
            r == (*self is Sharded),
    {
        match self {
            BlobStore::Sharded(_) => true,
            _ => false,
        }
    }
}

impl Default for BlobStore {
    fn default() -> (r: BlobStore)
        ensures
            r == BlobStore::spec_default(),
    {
        BlobStore::Store(Store::NotConfigured)
    }
}

impl ShardedBlob {
    /// Builds a sharded blob store from its stores; at least two are needed.
    pub fn open(stores: Vec<BlobStore>) -> (r: Result<BlobStore, String>)
        ensures
            stores@.len() >= 2 <==> r is Ok,
            r is Ok ==> r->Ok_0 is Sharded && r->Ok_0->Sharded_0.stores@ == stores@,
            r is Err ==> r->Err_0@ == too_few_blob_stores(),
    {
        if stores.len() >= 2 {
            Ok(BlobStore::Sharded(Box::new(ShardedBlob { stores })))
        } else {
            Err(String::from_str("At least two blob stores are required for sharded blob store"))
        }
    }

    /// The position of the store that holds a key.
    pub fn store_index(&self, key: &[u8]) -> (r: usize)
        requires
            self.stores@.len() > 0,
        ensures
            r == xxh3_hash(key@) as int % self.stores@.len() as int,
            r < self.stores@.len(),
    {
        shard_of(xxh3_64(key), self.stores.len())
    }

    /// The store that holds a key.
    pub fn get_store(&self, key: &[u8]) -> (r: &BlobStore)
        requires
            self.stores@.len() > 0,
        ensures
            *r == self.stores@[xxh3_hash(key@) as int % self.stores@.len() as int],
    {
        let i = self.store_index(key);
        &self.stores[i]
    }

    /// The first of the stores.
    pub fn into_single(self) -> (r: BlobStore)
        requires
            self.stores@.len() > 0,
        ensures
            r == self.stores@[0],
    {
        let mut stores = self.stores;
        stores.swap_remove(0)
    }
}

impl ShardedInMemory {
    /// Builds a sharded in-memory store from its stores; at least two are needed.
    pub fn open(stores: Vec<InMemoryStore>) -> (r: Result<InMemoryStore, String>)
        ensures
            stores@.len() >= 2 <==> r is Ok,
            r is Ok ==> r->Ok_0 is Sharded && r->Ok_0->Sharded_0.stores@ == stores@,
            r is Err ==> r->Err_0@ == too_few_memory_stores(),
    {
        if stores.len() >= 2 {
            Ok(InMemoryStore::Sharded(Box::new(ShardedInMemory { stores })))
        } else {
            Err(
                String::from_str(
                    "At least two in-memory stores are required for sharded in-memory store",
                ),
            )
        }
    }

    /// The position of the store that holds a key.
    pub fn store_index(&self, key: &[u8]) -> (r: usize)
        requires
            self.stores@.len() > 0,
        ensures
            r == xxh3_hash(key@) as int % self.stores@.len() as int,
            r < self.stores@.len(),
    {
        shard_of(xxh3_64(key), self.stores.len())
    }

    /// The store that holds a key.
    pub fn get_store(&self, key: &[u8]) -> (r: &InMemoryStore)
        requires
            self.stores@.len() > 0,
        ensures
            *r == self.stores@[xxh3_hash(key@) as int % self.stores@.len() as int],
    {
        let i = self.store_index(key);
        &self.stores[i]
    }

    /// The first of the stores.
    pub fn into_single(self) -> (r: InMemoryStore)
        requires
            self.stores@.len() > 0,
        ensures
            r == self.stores@[0],
    {
        let mut stores = self.stores;
        stores.swap_remove(0)
    }
}

impl FsStore {
    /// A store below `path` with `depth` directory levels, at most five.
    pub fn new(path: String, depth: u64) -> (r: FsStore)
        ensures
            r.path@ == path@,
            r.hash_levels == (if depth < 5 { depth as int } else { 5 }),
    {
        let levels: usize = if depth < 5 {
            depth as usize
        } else {
            5
        };
        FsStore { path, hash_levels: levels }
    }

    /// The part of a blob of `blob_size` bytes that a read of
    /// `range_start..range_end` returns: `None` for the whole blob (the
    /// range `0..usize::MAX`), else the offset and the length to read. A
    /// range that starts past the end reads from the start.
    pub fn read_window(range_start: usize, range_end: usize, blob_size: usize) -> (r: Option<
        (usize, usize),
    >)
        requires
            range_start < blob_size ==> range_start <= range_end,
        ensures
            (range_start == 0 && range_end == usize::MAX) <==> r is None,
            r is Some ==> {
                let from = if range_start < blob_size {
                    range_start as int
                } else {
                    0
                };
                let to = if range_end < blob_size {
                    range_end as int
                } else {
                    blob_size as int
                };
                r->Some_0.0 == from && r->Some_0.1 == to - from
            },
    {
        if range_start != 0 || range_end != usize::MAX {
            let from = if range_start < blob_size {
                range_start
            } else {
                0
            };
            let to = if range_end < blob_size {
                range_end
            } else {
                blob_size
            };
            Some((from, to - from))
        } else {
            None
        }
    }
}

} // verus!
