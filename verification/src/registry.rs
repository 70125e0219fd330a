//! The registry store: the settings that a node reads from its environment,
//! its data store, and the cluster node ids that nodes lease in that store.

use vstd::prelude::*;
use crate::storage::Store;

verus! {

/// Seconds after which a node that has not renewed its lease is stale.
pub const STALE_NODE_TIMEOUT: u64 = 3600;

/// Seconds after which a node that has not renewed its lease is gone.
pub const DEAD_NODE_TIMEOUT: u64 = 86400;

/// What a node knows of itself and where its registry lives.
pub struct RegistryStoreInner {
    pub local_path: String,
    pub store: Store,
    pub node_id: u16,
    pub env_recovery_mode: bool,
    pub env_recovery_admin: Option<(String, String)>,
    pub env_cluster_role: Option<String>,
    pub env_push_shard_id: u32,
    pub env_hostname: String,
    pub env_base_url: Option<String>,
}

/// The registry store of a node.
pub struct RegistryStore(pub Box<RegistryStoreInner>);

/// How recently a cluster node renewed its lease.
#[derive(Clone, Copy, PartialEq, Eq, Structural)]
pub enum ClusterNodeStatus {
    Active,
    Stale,
    Inactive,
}

/// A node id lease read from the store: the id, the time of its last
/// renewal and the host that holds it.
pub struct NodeLease {
    pub node_id: u16,
    pub last_renewal: u64,
    pub hostname: String,
}

/// What a starting node does with the leases in the store: the id it
/// claims, with whether that id was taken over from an existing lease, and
/// the ids whose leases it clears.
pub struct NodeIdPlan {
    pub node_id: u16,
    pub reused: bool,
    pub cleared: Vec<u16>,
}

/// The status of a node whose lease was last renewed `since` seconds ago.
pub open spec fn status_after(since: int) -> ClusterNodeStatus {
    if since > DEAD_NODE_TIMEOUT {
        ClusterNodeStatus::Inactive
    } else if since > STALE_NODE_TIMEOUT {
        ClusterNodeStatus::Stale
    } else {
        ClusterNodeStatus::Active
    }
}

/// `now - then`, or zero when `then` is later.
pub open spec fn elapsed(now: u64, then: u64) -> int {
    if now >= then {
        now - then
    } else {
        0
    }
}

/// The status of a node that last renewed its lease at `last_renewal`.
pub fn node_status(now: u64, last_renewal: u64) -> (r: ClusterNodeStatus)
    ensures
        r == status_after(elapsed(now, last_renewal)),
{
    let since = now.saturating_sub(last_renewal);
    if since > DEAD_NODE_TIMEOUT {
        ClusterNodeStatus::Inactive
    } else if since > STALE_NODE_TIMEOUT {
        ClusterNodeStatus::Stale
    } else {
        ClusterNodeStatus::Active
    }
}

/// Whether a starting node on `hostname` may take over a lease: its own, or
/// one that has gone stale.
pub open spec fn may_take_over(lease: NodeLease, hostname: Seq<char>, now: u64) -> bool {
    lease.hostname@ == hostname || elapsed(now, lease.last_renewal) > STALE_NODE_TIMEOUT
}

/// Whether a starting node may clear the lease of `id`: a lease of that id
/// may be taken over and has been silent past the dead timeout.
pub open spec fn may_clear(leases: Seq<NodeLease>, hostname: Seq<char>, now: u64, id: u16) -> bool {
    exists|i: int|
        0 <= i < leases.len() && leases[i].node_id == id && may_take_over(
            #[trigger] leases[i],
            hostname,
            now,
        ) && elapsed(now, leases[i].last_renewal) > DEAD_NODE_TIMEOUT
}

/// The ids of a list of leases.
pub open spec fn lease_ids(leases: Seq<NodeLease>) -> Seq<u16> {
    leases.map_values(|l: NodeLease| l.node_id)
}

/// The smallest node id that no lease holds.
pub open spec fn is_first_free(id: u16, used: Seq<u16>) -> bool {
    &&& !used.contains(id)
    &&& forall|k: u16| k < id ==> used.contains(k)
}

/// The smallest id that `used` does not hold.
pub fn first_free_node_id(used: &Vec<u16>) -> (r: u16)
    requires
        exists|n: u16| !used@.contains(n),
    ensures
        is_first_free(r, used@),
{
    let mut candidate: u16 = 0;
    loop
        invariant
            exists|n: u16| !used@.contains(n),
            forall|k: u16| k < candidate ==> used@.contains(k),
        decreases u16::MAX - candidate,
    {
        let mut found = false;
        let mut j: usize = 0;
        while j < used.len()
            invariant
                j <= used@.len(),
                found <==> exists|x: int| 0 <= x < j && used@[x] == candidate,
            decreases used.len() - j,
        {
            if used[j] == candidate {
                found = true;
            }
            j = j + 1;
        }
        if !found {
            assert(!used@.contains(candidate));
            return candidate;
        }
        assert(used@.contains(candidate));
        if candidate == u16::MAX {
            assert(forall|n: u16| used@.contains(n));
            assert(false);
        }
        candidate = candidate + 1;
    }
}

/// Whether some lease may be taken over.
pub open spec fn has_taker(leases: Seq<NodeLease>, hostname: Seq<char>, now: u64) -> bool {
    exists|j: int| 0 <= j < leases.len() && may_take_over(#[trigger] leases[j], hostname, now)
}

/// The ids that a starting node clears, in order: each lease after the
/// first one it may take over that it may take over too and that has been
/// silent past the dead timeout.
pub open spec fn cleared_ids(leases: Seq<NodeLease>, hostname: Seq<char>, now: u64) -> Seq<u16>
    decreases leases.len(),
{
    if leases.len() == 0 {
        Seq::empty()
    } else {
        let p = cleared_ids(leases.drop_last(), hostname, now);
        let l = leases.last();
        if has_taker(leases.drop_last(), hostname, now) && may_take_over(l, hostname, now) && elapsed(
            now,
            l.last_renewal,
        ) > DEAD_NODE_TIMEOUT {
            p.push(l.node_id)
        } else {
            p
        }
    }
}

/// Whether leases come in increasing id order, as the store lists them.
pub open spec fn ids_increasing(leases: Seq<NodeLease>) -> bool {
    forall|a: int, b: int| 0 <= a < b < leases.len() ==> (#[trigger] leases[a]).node_id < (#[trigger] leases[b]).node_id
}

/// What a node on `hostname` does with the leases in the store at time
/// `now`, walking them in the store's order: it takes over the first lease
/// that is its own or stale, and clears each later stale one that has been
/// silent past the dead timeout; when it takes none over, it claims the
/// smallest id that no live lease of another host holds.
pub fn plan_node_id(leases: &Vec<NodeLease>, hostname: &str, now: u64) -> (r: NodeIdPlan)
    requires
        (exists|i: int| 0 <= i < leases@.len() && may_take_over(#[trigger] leases@[i], hostname@, now))
            || exists|n: u16| !#[trigger] lease_ids(leases@).contains(n),
    ensures
        r.reused <==> exists|i: int|
            0 <= i < leases@.len() && may_take_over(#[trigger] leases@[i], hostname@, now),
        r.reused ==> exists|i: int|
            0 <= i < leases@.len() && may_take_over(#[trigger] leases@[i], hostname@, now)
                && leases@[i].node_id == r.node_id && forall|j: int|
                0 <= j < i ==> !may_take_over(#[trigger] leases@[j], hostname@, now),
        !r.reused ==> is_first_free(
            r.node_id,
            lease_ids(leases@),
        ),
        forall|k: int|
            0 <= k < r.cleared@.len() ==> may_clear(leases@, hostname@, now, #[trigger] r.cleared@[k]),
        r.cleared@ == cleared_ids(leases@, hostname@, now),
        r.reused && ids_increasing(leases@) ==> forall|j: int|
            0 <= j < leases@.len() && may_take_over(#[trigger] leases@[j], hostname@, now) ==> r.node_id
                <= leases@[j].node_id,
{
    let mut claimed: Option<u16> = None;
    let mut cleared: Vec<u16> = Vec::new();
    let mut used: Vec<u16> = Vec::new();
    let mut i: usize = 0;
    while i < leases.len()
        invariant
            i <= leases@.len(),
            claimed is Some <==> exists|x: int|
                0 <= x < i && may_take_over(#[trigger] leases@[x], hostname@, now),
            claimed is Some ==> exists|x: int|
                0 <= x < i && may_take_over(#[trigger] leases@[x], hostname@, now)
                    && leases@[x].node_id == claimed->Some_0 && forall|j: int|
                    0 <= j < x ==> !may_take_over(#[trigger] leases@[j], hostname@, now),
            claimed is None ==> used@ == lease_ids(leases@.take(i as int)),
            forall|k: int|
                0 <= k < cleared@.len() ==> may_clear(leases@, hostname@, now, #[trigger] cleared@[k]),
            cleared@ == cleared_ids(leases@.take(i as int), hostname@, now),
        decreases leases.len() - i,
    {
        proof {
            let t = leases@.take(i + 1);
            assert(t.drop_last() =~= leases@.take(i as int));
            if has_taker(t.drop_last(), hostname@, now) {
                let j = choose|j: int| 0 <= j < t.drop_last().len() && may_take_over(#[trigger] t.drop_last()[j], hostname@, now);
                assert(leases@[j] == t.drop_last()[j]);
            }
            if claimed is Some {
                let x = choose|x: int| 0 <= x < i && may_take_over(#[trigger] leases@[x], hostname@, now);
                assert(t.drop_last()[x] == leases@[x]);
            }
        }
        let lease = &leases[i];
        let since = now.saturating_sub(lease.last_renewal);
        let own = crate::text::str_eq(lease.hostname.as_str(), hostname);
        if own || since > STALE_NODE_TIMEOUT {
            if claimed.is_none() {
                claimed = Some(lease.node_id);
            } else if since > DEAD_NODE_TIMEOUT {
                assert(may_clear(leases@, hostname@, now, lease.node_id));
                cleared.push(lease.node_id);
            }
        } else if claimed.is_none() {
            used.push(lease.node_id);
        }
        assert(lease_ids(leases@.take(i + 1)) =~= lease_ids(leases@.take(i as int)).push(
            leases@[i as int].node_id,
        ));
        i = i + 1;
    }
    assert(leases@.take(leases@.len() as int) =~= leases@);
    match claimed {
        Some(id) => {
            let plan = NodeIdPlan { node_id: id, reused: true, cleared };
            proof {
                if ids_increasing(leases@) {
                    let x = choose|x: int|
                        0 <= x < leases@.len() && may_take_over(#[trigger] leases@[x], hostname@, now)
                            && leases@[x].node_id == id && forall|j: int|
                            0 <= j < x ==> !may_take_over(#[trigger] leases@[j], hostname@, now);
                    assert forall|j: int| 0 <= j < leases@.len() && may_take_over(#[trigger] leases@[j], hostname@, now)
                        implies id <= leases@[j].node_id by {
                        if j < x {
                        } else if j > x {
                            assert(leases@[x].node_id < leases@[j].node_id);
                        }
                    }
                }
            }
            plan
        },
        None => {
            assert(leases@.take(leases@.len() as int) =~= leases@);
            assert(used@ == lease_ids(leases@));
            let id = first_free_node_id(&used);
            NodeIdPlan { node_id: id, reused: false, cleared }
        },
    }
}

impl RegistryStore {
    /// A registry store over settings that are already complete.
    pub fn from_inner_bootstrapped(inner: RegistryStoreInner) -> (r: Self)
        ensures
            *r.0 == inner,
    {
        RegistryStore(Box::new(inner))
    }

    /// The cluster node id of this node.
    pub fn node_id(&self) -> (r: u16)
        ensures
            r == self.0.node_id,
    {
        self.0.node_id
    }

    /// Seconds between two renewals of the node id lease: half the stale timeout.
    pub fn refresh_node_id_interval(&self) -> (r: u64)
        ensures
            r == STALE_NODE_TIMEOUT / 2,
    {
        STALE_NODE_TIMEOUT / 2
    }

    /// The recovery administrator's name and secret, where one is set.
    pub fn recovery_admin(&self) -> (r: Option<&(String, String)>)
        ensures
            r is Some == self.0.env_recovery_admin is Some,
            r is Some ==> *r->Some_0 == self.0.env_recovery_admin->Some_0,
    {
        match &self.0.env_recovery_admin {
            Some(a) => Some(a),
            None => None,
        }
    }

    /// The cluster role of this node, where one is set.
    pub fn cluster_role(&self) -> (r: Option<&str>)
        ensures
            r is Some == self.0.env_cluster_role is Some,
            r is Some ==> r->Some_0@ == self.0.env_cluster_role->Some_0@,
    {
        match &self.0.env_cluster_role {
            Some(role) => Some(role.as_str()),
            None => None,
        }
    }

    /// The push notification shard of this node.
    pub fn cluster_push_shard(&self) -> (r: u32)
        ensures
            r == self.0.env_push_shard_id,
    {
        self.0.env_push_shard_id
    }

    /// The host name of this node.
    pub fn local_hostname(&self) -> (r: &str)
        ensures
            r@ == self.0.env_hostname@,
    {
        self.0.env_hostname.as_str()
    }

    /// The public base URL, where one is set.
    pub fn base_url(&self) -> (r: Option<&str>)
        ensures
            r is Some == self.0.env_base_url is Some,
            r is Some ==> r->Some_0@ == self.0.env_base_url->Some_0@,
    {
        match &self.0.env_base_url {
            Some(u) => Some(u.as_str()),
            None => None,
        }
    }

    /// Whether the node runs in recovery mode.
    pub fn is_recovery_mode(&self) -> (r: bool)
        ensures
            r == self.0.env_recovery_mode,
    {
        self.0.env_recovery_mode
    }

    /// Whether the node runs in bootstrap mode: its store lives in memory only.
    pub fn is_bootstrap_mode(&self) -> (r: bool)
        ensures
            r == (self.0.store is Ephemeral),
    {
        self.0.store.is_ephemeral()
    }

    /// The local directory of the registry.
    pub fn path(&self) -> (r: &String)
        ensures
            r@ == self.0.local_path@,
    {
        &self.0.local_path
    }

    /// The data store.
    pub fn store(&self) -> (r: &Store)
        ensures
            *r == self.0.store,
    {
        &self.0.store
    }

    /// The settings of this node over another data store.
    pub fn initialize_inner(&self, store: Store) -> (r: RegistryStoreInner)
        ensures
            r.store == store,
            r.local_path@ == self.0.local_path@,
            r.node_id == self.0.node_id,
            r.env_recovery_mode == self.0.env_recovery_mode,
            r.env_recovery_admin is Some == self.0.env_recovery_admin is Some,
            r.env_recovery_admin is Some ==> r.env_recovery_admin->Some_0.0@
                == self.0.env_recovery_admin->Some_0.0@ && r.env_recovery_admin->Some_0.1@
                == self.0.env_recovery_admin->Some_0.1@,
            r.env_cluster_role is Some == self.0.env_cluster_role is Some,
            r.env_cluster_role is Some ==> r.env_cluster_role->Some_0@
                == self.0.env_cluster_role->Some_0@,
            r.env_push_shard_id == self.0.env_push_shard_id,
            r.env_hostname@ == self.0.env_hostname@,
            r.env_base_url is Some == self.0.env_base_url is Some,
            r.env_base_url is Some ==> r.env_base_url->Some_0@ == self.0.env_base_url->Some_0@,
    {
        let inner = &self.0;
        RegistryStoreInner {
            local_path: inner.local_path.clone(),
            store,
            node_id: inner.node_id,
            env_recovery_mode: inner.env_recovery_mode,
            env_recovery_admin: match &inner.env_recovery_admin {
                Some(a) => Some((a.0.clone(), a.1.clone())),
                None => None,
            },
            env_cluster_role: match &inner.env_cluster_role {
                Some(s) => Some(s.clone()),
                None => None,
            },
            env_push_shard_id: inner.env_push_shard_id,
            env_hostname: inner.env_hostname.clone(),
            env_base_url: match &inner.env_base_url {
                Some(s) => Some(s.clone()),
                None => None,
            },
        }
    }
}

} // verus!
