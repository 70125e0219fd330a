use stalwart::registry::{first_free_node_id, node_status, plan_node_id, ClusterNodeStatus, NodeLease};
use stalwart::storage::{
    shard_of, BlobStore, FsStore, InMemoryStore, ReplicaStep, SQLReadReplica, ShardedBlob, ShardedInMemory, Store,
};

#[test]
fn shards_by_remainder() {
    assert_eq!(shard_of(10, 3), 1);
    assert_eq!(shard_of(u64::MAX, 2), 1);
}

#[test]
fn sharded_blob_store_needs_two_stores() {
    match ShardedBlob::open(vec![BlobStore::S3(1)]) {
        Err(e) => assert_eq!(e, "At least two blob stores are required for sharded blob store"),
        Ok(_) => panic!("expected an error"),
    }
    match ShardedInMemory::open(vec![]) {
        Err(e) => assert_eq!(e, "At least two in-memory stores are required for sharded in-memory store"),
        Ok(_) => panic!("expected an error"),
    }
    let store = ShardedBlob::open(vec![BlobStore::S3(1), BlobStore::Azure(2), BlobStore::S3(3)]).unwrap();
    assert!(store.is_enterprise());
    assert!(matches!(store.downgrade_store(), BlobStore::Store(Store::NotConfigured)));
    assert!(matches!(BlobStore::S3(9).downgrade_store(), BlobStore::S3(9)));
}

#[test]
fn sharded_lookup_uses_xxh3() {
    let sharded = ShardedBlob { stores: vec![BlobStore::S3(0), BlobStore::S3(1), BlobStore::S3(2)] };
    for key in [&b"alpha"[..], b"beta", b"gamma", b""] {
        let expected = (xxhash_rust::xxh3::xxh3_64(key) % 3) as usize;
        assert_eq!(sharded.store_index(key), expected);
        assert!(matches!(sharded.get_store(key), BlobStore::S3(n) if *n == expected as u64));
    }
    let mem = ShardedInMemory { stores: vec![InMemoryStore::Redis(0), InMemoryStore::Http(1)] };
    assert_eq!(mem.store_index(b"key"), (xxhash_rust::xxh3::xxh3_64(b"key") % 2) as usize);
    assert!(matches!(mem.into_single(), InMemoryStore::Redis(0)));
}

#[test]
fn read_replicas_rotate() {
    let mut r = SQLReadReplica { primary: Store::PostgreSQL(0), replicas: vec![Store::PostgreSQL(1), Store::PostgreSQL(2)], last_used_replica: 0 };
    assert_eq!(r.next_replica(), 0);
    assert_eq!(r.next_replica(), 1);
    assert_eq!(r.next_replica(), 0);
    r.last_used_replica = usize::MAX;
    assert_eq!(r.next_replica(), usize::MAX % 2);
    assert_eq!(r.last_used_replica, 0);
    assert!(matches!(r.primary_store(), Store::PostgreSQL(0)));
    let opened = SQLReadReplica::open(Store::MySQL(0), vec![Store::MySQL(1)]).unwrap();
    assert!(matches!(opened, Store::SQLReadReplica(ref inner) if inner.last_used_replica == 0));
    assert!(Store::Ephemeral(0).is_ephemeral());
    assert!(!opened.is_ephemeral());
}

#[test]
fn replica_errors_fall_back_to_primary() {
    assert!(matches!(SQLReadReplica::replica_step::<u32, &str>(Ok(1), false), ReplicaStep::Return(Ok(1))));
    assert!(matches!(SQLReadReplica::replica_step::<u32, &str>(Err("x"), true), ReplicaStep::Return(Err("x"))));
    assert!(matches!(SQLReadReplica::replica_step::<u32, &str>(Err("x"), false), ReplicaStep::TryPrimary("x")));
}

#[test]
fn fs_store_levels_and_windows() {
    assert_eq!(FsStore::new("/data".to_string(), 9).hash_levels, 5);
    assert_eq!(FsStore::new("/data".to_string(), 2).hash_levels, 2);
    assert_eq!(FsStore::read_window(0, usize::MAX, 100), None);
    assert_eq!(FsStore::read_window(10, 20, 100), Some((10, 10)));
    assert_eq!(FsStore::read_window(10, 500, 100), Some((10, 90)));
    assert_eq!(FsStore::read_window(200, 300, 100), Some((0, 100)));
}

#[test]
fn node_status_by_age() {
    assert!(node_status(1000, 1000) == ClusterNodeStatus::Active);
    assert!(node_status(3600, 0) == ClusterNodeStatus::Active);
    assert!(node_status(3601, 0) == ClusterNodeStatus::Stale);
    assert!(node_status(86401, 0) == ClusterNodeStatus::Inactive);
    assert!(node_status(0, 100) == ClusterNodeStatus::Active);
}

fn lease(node_id: u16, last_renewal: u64, hostname: &str) -> NodeLease {
    NodeLease { node_id, last_renewal, hostname: hostname.to_string() }
}

#[test]
fn node_ids() {
    assert_eq!(first_free_node_id(&vec![0, 1, 3]), 2);
    assert_eq!(first_free_node_id(&vec![]), 0);
    let now = 100_000;
    let plan = plan_node_id(&vec![lease(0, now, "a"), lease(1, now, "me"), lease(2, now, "b")], "me", now);
    assert!(plan.reused);
    assert_eq!(plan.node_id, 1);
    let plan = plan_node_id(&vec![lease(0, now, "a"), lease(1, now - 4000, "b")], "me", now);
    assert!(plan.reused);
    assert_eq!(plan.node_id, 1);
    let plan = plan_node_id(&vec![lease(0, now, "a"), lease(2, now, "b")], "me", now);
    assert!(!plan.reused);
    assert_eq!(plan.node_id, 1);
    let plan = plan_node_id(&vec![lease(4, now, "me"), lease(5, 0, "gone")], "me", now);
    assert_eq!(plan.node_id, 4);
    assert_eq!(plan.cleared, vec![5]);
}
