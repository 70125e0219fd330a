//! The hosts a message is relayed to, from a domain's MX records: in order
//! of preference, hosts of equal preference in random order, at most as
//! many as configured; none for a null MX, and the domain itself where it
//! has no MX record.

use vstd::prelude::*;
use crate::auth::Credentials;
use crate::dane::Mx;
use crate::lookup::IpLookupStrategy;
use vstd::string::StrSliceExecFns;
use crate::text::str_eq;
use rand::seq::SliceRandom;

verus! {

/// A host to relay to, and whether it stands for a domain without MX
/// records.
pub struct NextHopMx {
    pub host: String,
    pub is_implicit: bool,
}

/// The names of the hosts.
pub open spec fn hop_names(v: Seq<NextHopMx>) -> Seq<Seq<char>> {
    v.map_values(|h: NextHopMx| h.host@)
}

/// `order` lists each of `0..n` once.
pub open spec fn is_permutation(order: Seq<usize>, n: nat) -> bool {
    &&& order.len() == n
    &&& order.no_duplicates()
    &&& forall|k: int| 0 <= k < n ==> (#[trigger] order[k] as int) < n
}

/// The exchanges of an MX record in the order `order`.
pub open spec fn ordered_hosts(mx: Mx, order: Seq<usize>) -> Seq<Seq<char>> {
    Seq::new(order.len(), |k: int| mx.exchanges@[order[k] as int]@)
}

/// How many of `n` hosts still fit after `acc_len`, with at most `max` in
/// all (no limit for zero).
pub open spec fn room(acc_len: nat, max: nat, n: nat) -> nat {
    if max > acc_len && ((max - acc_len) as nat) < n {
        (max - acc_len) as nat
    } else {
        n
    }
}

/// The hosts after one MX record: its exchanges in the order `order` while
/// they fit; a single exchange `.` of preference zero (a null MX) stops
/// with none. The flag says whether the limit was reached.
pub open spec fn group_step(acc: Seq<Seq<char>>, mx: Mx, order: Seq<usize>, max: nat) -> Option<(Seq<Seq<char>>, bool)> {
    let n = mx.exchanges@.len();
    if n > 1 {
        let next = acc + ordered_hosts(mx, order).take(room(acc.len(), max, n) as int);
        Some((next, max > 0 && next.len() == max))
    } else if n == 1 {
        let h = mx.exchanges@[0]@;
        if mx.preference == 0 && h == "."@ {
            None
        } else {
            let next = acc.push(h);
            Some((next, max > 0 && next.len() == max))
        }
    } else {
        Some((acc, false))
    }
}

/// The hosts after the first `i` MX records, stopping at the limit.
pub open spec fn plan_upto(mxs: Seq<Mx>, orders: Seq<Vec<usize>>, max: nat, i: nat) -> Option<(Seq<Seq<char>>, bool)>
    decreases i,
{
    if i == 0 {
        Some((Seq::empty(), false))
    } else {
        match plan_upto(mxs, orders, max, (i - 1) as nat) {
            None => None,
            Some((acc, done)) => if done {
                Some((acc, true))
            } else {
                group_step(acc, mxs[i - 1], orders[i - 1]@, max)
            },
        }
    }
}

/// The hosts to relay to for a domain and its MX records, with the
/// exchanges of each record taken in the order `orders` gives: the domain
/// itself, as an implicit MX, where it has no record; none for a null MX.
pub open spec fn remote_hosts_of(mxs: Seq<Mx>, domain: Seq<char>, max: nat, orders: Seq<Vec<usize>>) -> Option<(Seq<Seq<char>>, bool)> {
    if mxs.len() == 0 {
        Some((seq![domain], true))
    } else {
        match plan_upto(mxs, orders, max, mxs.len()) {
            None => None,
            Some((acc, _)) => Some((acc, false)),
        }
    }
}

/// Each record of more than one exchange has an order of them.
pub open spec fn valid_orders(mxs: Seq<Mx>, orders: Seq<Vec<usize>>) -> bool {
    &&& orders.len() == mxs.len()
    &&& forall|i: int| 0 <= i < mxs.len() && (#[trigger] mxs[i]).exchanges@.len() > 1
        ==> is_permutation(orders[i]@, mxs[i].exchanges@.len())
}

/// `r` is the outcome `e`: the same hosts, all implicit or none.
pub open spec fn hops_match(r: Option<Vec<NextHopMx>>, e: Option<(Seq<Seq<char>>, bool)>) -> bool {
    match r {
        None => e is None,
        Some(v) => e matches Some((names, implicit)) && hop_names(v@) == names
            && forall|j: int| 0 <= j < v@.len() ==> (#[trigger] v@[j]).is_implicit == implicit,
    }
}

/// Once the limit is reached, later records add nothing.
proof fn lemma_done_stays(mxs: Seq<Mx>, orders: Seq<Vec<usize>>, max: nat, i: nat, j: nat, acc: Seq<Seq<char>>)
    requires
        i <= j,
        plan_upto(mxs, orders, max, i) == Some((acc, true)),
    ensures
        plan_upto(mxs, orders, max, j) == Some((acc, true)),
    decreases j,
{
    if j > i {
        lemma_done_stays(mxs, orders, max, i, (j - 1) as nat, acc);
    }
}

/// Once a null MX is met, later records change nothing.
proof fn lemma_none_stays(mxs: Seq<Mx>, orders: Seq<Vec<usize>>, max: nat, i: nat, j: nat)
    requires
        i <= j,
        plan_upto(mxs, orders, max, i) is None,
    ensures
        plan_upto(mxs, orders, max, j) is None,
    decreases j,
{
    if j > i {
        lemma_none_stays(mxs, orders, max, i, (j - 1) as nat);
    }
}

/// The hosts to relay to, with the exchanges of each record of more than
/// one taken in the order `orders` gives.
pub fn to_remote_hosts_ordered(mxs: &Vec<Mx>, domain: &str, max_mx: usize, orders: &Vec<Vec<usize>>) -> (r: Option<Vec<NextHopMx>>)
    requires
        valid_orders(mxs@, orders@),
    ensures
        hops_match(r, remote_hosts_of(mxs@, domain@, max_mx as nat, orders@)),
{
    if mxs.len() == 0 {
        let v = vec![NextHopMx { host: String::from_str(domain), is_implicit: true }];
        assert(hop_names(v@) =~= seq![domain@]);
        return Some(v);
    }
    let ghost max = max_mx as nat;
    let mut hosts: Vec<NextHopMx> = Vec::new();
    let mut i: usize = 0;
    while i < mxs.len()
        invariant
            i <= mxs@.len(),
            mxs@.len() > 0,
            max == max_mx as nat,
            valid_orders(mxs@, orders@),
            plan_upto(mxs@, orders@, max, i as nat) == Some((hop_names(hosts@), false)),
            max > 0 ==> hosts@.len() < max,
            forall|j: int| 0 <= j < hosts@.len() ==> !(#[trigger] hosts@[j]).is_implicit,
        decreases mxs.len() - i,
    {
        let mx = &mxs[i];
        let n = mx.exchanges.len();
        let ghost acc = hop_names(hosts@);
        if n > 1 {
            let order = &orders[i];
            assert(is_permutation(order@, n as nat));
            let mut k: usize = 0;
            while k < n
                invariant
                    k <= n,
                    i < mxs@.len(),
                    *mx == mxs@[i as int],
                    order@ == orders@[i as int]@,
                    plan_upto(mxs@, orders@, max, i as nat) == Some((acc, false)),
                    n == mx.exchanges@.len(),
                    n > 1,
                    is_permutation(order@, n as nat),
                    max == max_mx as nat,
                    hop_names(hosts@) == acc + ordered_hosts(*mx, order@).take(k as int),
                    max > 0 ==> acc.len() + k < max,
                    forall|j: int| 0 <= j < hosts@.len() ==> !(#[trigger] hosts@[j]).is_implicit,
                decreases n - k,
            {
                let idx = order[k];
                let ghost before = hosts@;
                hosts.push(NextHopMx { host: mx.exchanges[idx].clone(), is_implicit: false });
                assert(hop_names(hosts@) =~= hop_names(before).push(mx.exchanges@[idx as int]@));
                assert(ordered_hosts(*mx, order@).take(k + 1) =~= ordered_hosts(*mx, order@).take(k as int).push(
                    mx.exchanges@[idx as int]@,
                ));
                k = k + 1;
                if hosts.len() == max_mx {
                    assert(room(acc.len(), max, n as nat) == k);
                    assert(plan_upto(mxs@, orders@, max, (i + 1) as nat) == Some((hop_names(hosts@), true)));
                    proof {
                        lemma_done_stays(mxs@, orders@, max, (i + 1) as nat, mxs@.len(), hop_names(hosts@));
                    }
                    return Some(hosts);
                }
            }
            assert(room(acc.len(), max, n as nat) == n);
        } else if n == 1 {
            proof {
                reveal_strlit(".");
            }
            if mx.preference == 0 && str_eq(mx.exchanges[0].as_str(), ".") {
                proof {
                    lemma_none_stays(mxs@, orders@, max, (i + 1) as nat, mxs@.len());
                }
                return None;
            }
            let ghost before = hosts@;
            hosts.push(NextHopMx { host: mx.exchanges[0].clone(), is_implicit: false });
            assert(hop_names(hosts@) =~= hop_names(before).push(mx.exchanges@[0]@));
            if hosts.len() == max_mx {
                assert(plan_upto(mxs@, orders@, max, (i + 1) as nat) == Some((hop_names(hosts@), true)));
                proof {
                    lemma_done_stays(mxs@, orders@, max, (i + 1) as nat, mxs@.len(), hop_names(hosts@));
                }
                return Some(hosts);
            }
        }
        i = i + 1;
    }
    Some(hosts)
}

/// Shuffles a list with `rand`'s `SliceRandom::shuffle` and the thread's
/// random generator. The contract claims what holds of every outcome of a
/// shuffle: the same length, only items of the list, and no item twice
/// where the list held none twice.
#[verifier::external_body]
fn shuffle(v: &mut Vec<usize>)
    ensures
        final(v)@.len() == old(v)@.len(),
        forall|k: int| 0 <= k < final(v)@.len() ==> old(v)@.contains(#[trigger] final(v)@[k]),
        old(v)@.no_duplicates() ==> final(v)@.no_duplicates(),
{
    v.shuffle(&mut rand::rng());
}

/// The positions `0..n` in random order.
fn random_order(n: usize) -> (r: Vec<usize>)
    ensures
        is_permutation(r@, n as nat),
{
    let mut v: Vec<usize> = Vec::new();
    let mut k: usize = 0;
    while k < n
        invariant
            k <= n,
            v@.len() == k,
            forall|j: int| 0 <= j < k ==> (#[trigger] v@[j]) == j,
        decreases n - k,
    {
        v.push(k);
        k = k + 1;
    }
    assert(v@.no_duplicates());
    let ghost before = v@;
    shuffle(&mut v);
    assert forall|j: int| 0 <= j < n implies (#[trigger] v@[j] as int) < n by {
        assert(before.contains(v@[j]));
        let m = choose|m: int| 0 <= m < before.len() && before[m] == v@[j];
        assert(before[m] == m);
    }
    v
}

/// The hosts to relay to for a domain and its MX records, at most
/// `max_mx` (no limit for zero): the exchanges of each record in random
/// order, records in the order given.
pub fn to_remote_hosts(mxs: &Vec<Mx>, domain: &str, max_mx: usize) -> (r: Option<Vec<NextHopMx>>)
    ensures
        exists|orders: Seq<Vec<usize>>| valid_orders(mxs@, orders)
            && hops_match(r, remote_hosts_of(mxs@, domain@, max_mx as nat, orders)),
{
    let mut orders: Vec<Vec<usize>> = Vec::new();
    let mut i: usize = 0;
    while i < mxs.len()
        invariant
            i <= mxs@.len(),
            orders@.len() == i,
            forall|j: int| 0 <= j < i && (#[trigger] mxs@[j]).exchanges@.len() > 1
                ==> is_permutation(orders@[j]@, mxs@[j].exchanges@.len()),
        decreases mxs.len() - i,
    {
        let n = mxs[i].exchanges.len();
        if n > 1 {
            orders.push(random_order(n));
        } else {
            orders.push(Vec::new());
        }
        i = i + 1;
    }
    let r = to_remote_hosts_ordered(mxs, domain, max_mx, &orders);
    assert(valid_orders(mxs@, orders@));
    r
}


/// A relay host that all mail of a route goes through.
pub struct RelayHost {
    pub address: String,
    pub port: u16,
    pub auth: Option<Credentials>,
    pub tls_allow_invalid_certs: bool,
    pub tls_implicit: bool,
    pub is_smtp: bool,
}

/// How MX hosts are tried: at most `max_mx` hosts, at most
/// `max_multi_homed` addresses of each, looked up by the strategy.
pub struct MxConfig {
    pub max_mx: usize,
    pub max_multi_homed: usize,
    pub ip_lookup_strategy: IpLookupStrategy,
}

/// The next host of a delivery: a relay, or an MX host of the domain.
pub enum NextHop<'x> {
    Relay(&'x RelayHost),
    MX { is_implicit: bool, host: &'x str, config: &'x MxConfig },
}

/// A host name without one trailing dot.
pub open spec fn without_final_dot(h: Seq<char>) -> Seq<char> {
    if h.len() > 0 && h.last() == '.' {
        h.drop_last()
    } else {
        h
    }
}

/// A host name with a trailing dot.
pub open spec fn with_final_dot(h: Seq<char>) -> Seq<char> {
    if h.len() > 0 && h.last() == '.' {
        h
    } else {
        h.push('.')
    }
}

/// The port SMTP servers listen on.
pub const SMTP_PORT: u16 = 25;

/// The number of addresses tried of a relay host.
pub const RELAY_MAX_MULTI_HOMED: usize = 10;

impl<'x> NextHop<'x> {
    /// The host name: an MX host without its trailing dot, or the relay's
    /// address.
    pub fn hostname(&self) -> (r: &str)
        ensures
            r@ == (match *self {
                NextHop::MX { host, .. } => without_final_dot(host@),
                NextHop::Relay(h) => h.address@,
            }),
    {
        match self {
            NextHop::MX { host, .. } => {
                let n = host.unicode_len();
                if n > 0 && host.get_char(n - 1) == '.' {
                    let r = host.substring_char(0, n - 1);
                    assert(r@ =~= host@.drop_last());
                    r
                } else {
                    host
                }
            },
            NextHop::Relay(h) => h.address.as_str(),
        }
    }

    /// The fully qualified host name: an MX host with a trailing dot, or
    /// the relay's address.
    pub fn fqdn_hostname(&self) -> (r: String)
        ensures
            r@ == (match *self {
                NextHop::MX { host, .. } => with_final_dot(host@),
                NextHop::Relay(h) => h.address@,
            }),
    {
        match self {
            NextHop::MX { host, .. } => {
                let n = host.unicode_len();
                let mut t = String::from_str(host);
                if !(n > 0 && host.get_char(n - 1) == '.') {
                    crate::text::push_char(&mut t, '.');
                }
                t
            },
            NextHop::Relay(h) => h.address.clone(),
        }
    }

    /// How many addresses of the host are tried.
    pub fn max_multi_homed(&self) -> (r: usize)
        ensures
            r == (match *self {
                NextHop::MX { config, .. } => config.max_multi_homed,
                NextHop::Relay(_) => RELAY_MAX_MULTI_HOMED,
            }),
    {
        match self {
            NextHop::MX { config, .. } => config.max_multi_homed,
            NextHop::Relay(_) => RELAY_MAX_MULTI_HOMED,
        }
    }

    /// How the host's addresses are looked up: a relay's IPv4 first.
    pub fn ip_lookup_strategy(&self) -> (r: IpLookupStrategy)
        ensures
            r == (match *self {
                NextHop::MX { config, .. } => config.ip_lookup_strategy,
                NextHop::Relay(_) => IpLookupStrategy::Ipv4thenIpv6,
            }),
    {
        match self {
            NextHop::MX { config, .. } => config.ip_lookup_strategy,
            NextHop::Relay(_) => IpLookupStrategy::Ipv4thenIpv6,
        }
    }

    /// The port to connect to: SMTP's for an MX host, the relay's own.
    pub fn port(&self) -> (r: u16)
        ensures
            r == (match *self {
                NextHop::MX { .. } => SMTP_PORT,
                NextHop::Relay(h) => h.port,
            }),
    {
        match self {
            NextHop::MX { .. } => SMTP_PORT,
            NextHop::Relay(h) => h.port,
        }
    }

    /// The credentials to authenticate with: a relay's, where it has them.
    pub fn credentials(&self) -> (r: Option<&Credentials>)
        ensures
            r == (match *self {
                NextHop::MX { .. } => None,
                NextHop::Relay(h) => match h.auth {
                    Some(c) => Some(&c),
                    None => None,
                },
            }),
    {
        match self {
            NextHop::MX { .. } => None,
            NextHop::Relay(h) => h.auth.as_ref(),
        }
    }

    /// Whether invalid certificates are accepted: only where a relay says so.
    pub fn allow_invalid_certs(&self) -> (r: bool)
        ensures
            r == (match *self {
                NextHop::MX { .. } => false,
                NextHop::Relay(h) => h.tls_allow_invalid_certs,
            }),
    {
        match self {
            NextHop::MX { .. } => false,
            NextHop::Relay(h) => h.tls_allow_invalid_certs,
        }
    }

    /// Whether TLS starts on connect: only where a relay says so.
    pub fn implicit_tls(&self) -> (r: bool)
        ensures
            r == (match *self {
                NextHop::MX { .. } => false,
                NextHop::Relay(h) => h.tls_implicit,
            }),
    {
        match self {
            NextHop::MX { .. } => false,
            NextHop::Relay(h) => h.tls_implicit,
        }
    }

    /// Whether the host speaks SMTP (else LMTP): every MX host does.
    pub fn is_smtp(&self) -> (r: bool)
        ensures
            r == (match *self {
                NextHop::MX { .. } => true,
                NextHop::Relay(h) => h.is_smtp,
            }),
    {
        match self {
            NextHop::MX { .. } => true,
            NextHop::Relay(h) => h.is_smtp,
        }
    }
}

} // verus!
