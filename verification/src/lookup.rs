//! What the address lookups of a host come to: which address families a
//! strategy asks for, how the IPv4 and IPv6 answers combine, and what a
//! delivery attempt makes of the outcome.

use vstd::prelude::*;
use crate::dane::DnssecStatus;
use crate::queue::{DeliveryStatus, Error, ErrorDetails, Status};
use crate::text::push_str;
use rand::Rng;

verus! {

/// An IP address: IPv4 or IPv6, as its bits.
#[derive(Clone, Copy, Debug, PartialEq, Eq, Structural)]
pub enum IpAddress {
    V4(u32),
    V6(u128),
}

/// Whether an address is a loopback address: `127.0.0.0/8` or `::1`.
pub open spec fn is_loopback(ip: IpAddress) -> bool {
    match ip {
        IpAddress::V4(x) => x / 0x100_0000 == 127,
        IpAddress::V6(x) => x == 1,
    }
}

/// Whether an address is a loopback address.
pub fn ip_is_loopback(ip: IpAddress) -> (r: bool)
    ensures
        r == is_loopback(ip),
{
    match ip {
        IpAddress::V4(x) => x / 0x100_0000 == 127,
        IpAddress::V6(x) => x == 1,
    }
}

/// Which address families to look up, and in which order.
#[derive(Clone, Copy, Debug, PartialEq, Eq, Structural)]
pub enum IpLookupStrategy {
    Ipv4Only,
    Ipv6Only,
    Ipv4thenIpv6,
    Ipv6thenIpv4,
}

/// Whether a strategy looks up IPv4 addresses.
pub open spec fn wants_ipv4(s: IpLookupStrategy) -> bool {
    s != IpLookupStrategy::Ipv6Only
}

/// Whether a strategy looks up IPv6 addresses.
pub open spec fn wants_ipv6(s: IpLookupStrategy) -> bool {
    s != IpLookupStrategy::Ipv4Only
}

/// The families a strategy looks up: IPv4, IPv6, and whether IPv4
/// addresses come first where both are.
pub fn lookup_families(s: IpLookupStrategy) -> (r: (bool, bool, bool))
    ensures
        r == (wants_ipv4(s), wants_ipv6(s), s == IpLookupStrategy::Ipv4thenIpv6),
{
    match s {
        IpLookupStrategy::Ipv4Only => (true, false, false),
        IpLookupStrategy::Ipv6Only => (false, true, false),
        IpLookupStrategy::Ipv4thenIpv6 => (true, true, true),
        IpLookupStrategy::Ipv6thenIpv4 => (true, true, false),
    }
}

/// IPv4 bits as addresses.
pub open spec fn v4_addrs(s: Seq<u32>) -> Seq<IpAddress> {
    s.map_values(|x: u32| IpAddress::V4(x))
}

/// IPv6 bits as addresses.
pub open spec fn v6_addrs(s: Seq<u128>) -> Seq<IpAddress> {
    s.map_values(|x: u128| IpAddress::V6(x))
}

/// The first `max` of a list, or all of it where it is shorter.
pub open spec fn take_at_most<T>(s: Seq<T>, max: nat) -> Seq<T> {
    if s.len() <= max {
        s
    } else {
        s.take(max as int)
    }
}

/// The addresses of a host from the answers of its IPv4 and IPv6 lookups,
/// at most `max`: a failed IPv4 lookup counts as no address where IPv6 is
/// looked up too, a failed IPv6 lookup as none where IPv4 found some; any
/// other failure is the outcome. Answers of a family the strategy does
/// not ask for are ignored.
pub open spec fn combined_ips<E>(s: IpLookupStrategy, v4: Result<Seq<u32>, E>, v6: Result<Seq<u128>, E>, max: nat) -> Result<Seq<IpAddress>, E> {
    let v4r: Result<Seq<u32>, E> = if !wants_ipv4(s) {
        Ok(Seq::empty())
    } else {
        match v4 {
            Ok(a) => Ok(a),
            Err(e) => if wants_ipv6(s) { Ok(Seq::empty()) } else { Err(e) },
        }
    };
    match v4r {
        Err(e) => Err(e),
        Ok(a4) => if wants_ipv6(s) {
            let v6r: Result<Seq<u128>, E> = match v6 {
                Ok(a) => Ok(a),
                Err(e) => if a4.len() > 0 { Ok(Seq::empty()) } else { Err(e) },
            };
            match v6r {
                Err(e) => Err(e),
                Ok(a6) => Ok(take_at_most(
                    if s == IpLookupStrategy::Ipv4thenIpv6 {
                        v4_addrs(a4) + v6_addrs(a6)
                    } else {
                        v6_addrs(a6) + v4_addrs(a4)
                    },
                    max,
                )),
            }
        } else {
            Ok(take_at_most(v4_addrs(a4), max))
        },
    }
}

/// Appends IPv4 addresses while fewer than `max` are held.
fn push_v4(out: &mut Vec<IpAddress>, a: &Vec<u32>, max: usize)
    requires
        old(out)@.len() <= max,
    ensures
        final(out)@ == take_at_most(old(out)@ + v4_addrs(a@), max as nat),
{
    let ghost start = old(out)@;
    let mut i: usize = 0;
    while i < a.len() && out.len() < max
        invariant
            i <= a@.len(),
            start.len() <= max,
            out@.len() <= max,
            out@ == start + v4_addrs(a@).take(i as int),
        decreases a.len() - i,
    {
        out.push(IpAddress::V4(a[i]));
        assert(v4_addrs(a@).take(i + 1) =~= v4_addrs(a@).take(i as int).push(IpAddress::V4(a@[i as int])));
        i = i + 1;
    }
    if i == a.len() {
        assert(v4_addrs(a@).take(i as int) =~= v4_addrs(a@));
    }
    if i < a.len() {
        assert((start + v4_addrs(a@)).take(max as int) =~= out@);
    }
}

/// Appends IPv6 addresses while fewer than `max` are held.
fn push_v6(out: &mut Vec<IpAddress>, a: &Vec<u128>, max: usize)
    requires
        old(out)@.len() <= max,
    ensures
        final(out)@ == take_at_most(old(out)@ + v6_addrs(a@), max as nat),
{
    let ghost start = old(out)@;
    let mut i: usize = 0;
    while i < a.len() && out.len() < max
        invariant
            i <= a@.len(),
            start.len() <= max,
            out@.len() <= max,
            out@ == start + v6_addrs(a@).take(i as int),
        decreases a.len() - i,
    {
        out.push(IpAddress::V6(a[i]));
        assert(v6_addrs(a@).take(i + 1) =~= v6_addrs(a@).take(i as int).push(IpAddress::V6(a@[i as int])));
        i = i + 1;
    }
    if i == a.len() {
        assert(v6_addrs(a@).take(i as int) =~= v6_addrs(a@));
    }
    if i < a.len() {
        assert((start + v6_addrs(a@)).take(max as int) =~= out@);
    }
}

/// A prefix of `s + t` at most `max` long, taken in two steps.
proof fn lemma_take_at_most_concat<T>(s: Seq<T>, t: Seq<T>, max: nat)
    ensures
        take_at_most(take_at_most(s, max) + t, max) == take_at_most(s + t, max),
{
    if s.len() > max {
        assert(take_at_most(s, max) + t =~= s.take(max as int) + t);
        assert((s.take(max as int) + t).take(max as int) =~= (s + t).take(max as int));
    } else {
        assert(take_at_most(s, max) == s);
    }
}

/// A list outcome by its contents.
pub open spec fn seq_result<T, E>(r: Result<Vec<T>, E>) -> Result<Seq<T>, E> {
    match r {
        Ok(v) => Ok(v@),
        Err(e) => Err(e),
    }
}

/// The addresses of a host from the answers of its lookups: see
/// [`combined_ips`].
pub fn combine_ip_lookup<E>(s: IpLookupStrategy, v4: Result<Vec<u32>, E>, v6: Result<Vec<u128>, E>, max_results: usize) -> (r: Result<Vec<IpAddress>, E>)
    ensures
        match (r, combined_ips(s, seq_result(v4), seq_result(v6), max_results as nat)) {
            (Ok(a), Ok(b)) => a@ == b,
            (Err(e), Err(f)) => e == f,
            _ => false,
        },
{
    let (has_ipv4, has_ipv6, v4_first) = lookup_families(s);
    let a4: Vec<u32> = if has_ipv4 {
        match v4 {
            Ok(a) => a,
            Err(e) => {
                if has_ipv6 {
                    Vec::new()
                } else {
                    return Err(e);
                }
            },
        }
    } else {
        Vec::new()
    };
    let mut out: Vec<IpAddress> = Vec::new();
    if has_ipv6 {
        let a6: Vec<u128> = match v6 {
            Ok(a) => a,
            Err(e) => {
                if a4.len() > 0 {
                    Vec::new()
                } else {
                    return Err(e);
                }
            },
        };
        if v4_first {
            push_v4(&mut out, &a4, max_results);
            let ghost mid = out@;
            push_v6(&mut out, &a6, max_results);
            proof {
                lemma_take_at_most_concat(v4_addrs(a4@), v6_addrs(a6@), max_results as nat);
                assert(Seq::<IpAddress>::empty() + v4_addrs(a4@) =~= v4_addrs(a4@));
            }
        } else {
            push_v6(&mut out, &a6, max_results);
            push_v4(&mut out, &a4, max_results);
            proof {
                lemma_take_at_most_concat(v6_addrs(a6@), v4_addrs(a4@), max_results as nat);
                assert(Seq::<IpAddress>::empty() + v6_addrs(a6@) =~= v6_addrs(a6@));
            }
        }
    } else {
        push_v4(&mut out, &a4, max_results);
        assert(Seq::<IpAddress>::empty() + v4_addrs(a4@) =~= v4_addrs(a4@));
    }
    Ok(out)
}


/// Why an address lookup failed: no such record, or another error, with
/// its text.
pub enum LookupError {
    NotFound,
    Failed(String),
}

/// The addresses found for a host and how secure the answer was.
pub struct IpLookupResult {
    pub remote_ips: Vec<IpAddress>,
    pub dnssec_status: DnssecStatus,
}

/// The text that `format!("{:?}", ..)` gives for a text: quoted, with
/// special characters escaped.
pub uninterp spec fn debug_text(s: Seq<char>) -> Seq<char>;

/// Formats a text with `{:?}` (`str`'s `Debug`). The contract claims only
/// that the result is a function of the text, named `debug_text`.
#[verifier::external_body]
fn debug_quoted(s: &str) -> (r: String)
    ensures
        r@ == debug_text(s@),
{
    format!("{:?}", s)
}

/// The addresses that are not loopback addresses, in order.
pub open spec fn without_loopback(s: Seq<IpAddress>) -> Seq<IpAddress>
    decreases s.len(),
{
    if s.len() == 0 {
        Seq::empty()
    } else if is_loopback(s.last()) {
        without_loopback(s.drop_last())
    } else {
        without_loopback(s.drop_last()).push(s.last())
    }
}

/// `d` is a failure of `entity`: a DNS error (`dns`) or else a connection
/// error, with the text `text`.
pub open spec fn detail_is(d: ErrorDetails, entity: Seq<char>, dns: bool, text: Seq<char>) -> bool {
    &&& d.entity@ == entity
    &&& match d.details {
        Error::DnsError(t) => dns && t@ == text,
        Error::ConnectionError(t) => !dns && t@ == text,
        _ => false,
    }
}

/// `r` is a failure, permanent or temporary, as `detail_is` describes.
pub open spec fn failure_is(r: Result<IpLookupResult, DeliveryStatus>, permanent: bool, entity: Seq<char>, dns: bool, text: Seq<char>) -> bool {
    match r {
        Err(Status::PermanentFailure(d)) => permanent && detail_is(d, entity, dns, text),
        Err(Status::TemporaryFailure(d)) => !permanent && detail_is(d, entity, dns, text),
        _ => false,
    }
}

/// What a delivery attempt makes of the address lookup of a host: a host
/// without a record fails permanently (with no MX record where it stands
/// for a domain without MX records), another lookup error fails
/// temporarily, as does a host without addresses; loopback addresses are
/// dropped, and a host with only those fails permanently.
pub open spec fn resolved_as(
    r: Result<IpLookupResult, DeliveryStatus>,
    hostname: Seq<char>,
    is_implicit: bool,
    lookup: Result<(Seq<IpAddress>, DnssecStatus), LookupError>,
    mx: Seq<char>,
) -> bool {
    match lookup {
        Err(LookupError::NotFound) => if is_implicit {
            failure_is(r, true, hostname, true, "no MX record found."@)
        } else {
            failure_is(r, true, hostname, false, "record not found for MX"@)
        },
        Err(LookupError::Failed(e)) => failure_is(r, false, hostname, false, "lookup error: "@ + e@),
        Ok((ips, status)) => if ips.len() == 0 {
            failure_is(r, false, hostname, true, "No IP addresses found for "@ + debug_text(mx) + "."@)
        } else if without_loopback(ips).len() == 0 {
            failure_is(r, true, hostname, false, "host resolves loopback address"@)
        } else {
            match r {
                Ok(res) => res.remote_ips@ == without_loopback(ips) && res.dnssec_status == status,
                Err(_) => false,
            }
        },
    }
}

/// The addresses without the loopback ones.
fn drop_loopback(ips: &Vec<IpAddress>) -> (r: Vec<IpAddress>)
    ensures
        r@ == without_loopback(ips@),
{
    let mut out: Vec<IpAddress> = Vec::new();
    let mut i: usize = 0;
    while i < ips.len()
        invariant
            i <= ips@.len(),
            out@ == without_loopback(ips@.take(i as int)),
        decreases ips.len() - i,
    {
        assert(ips@.take(i + 1).drop_last() =~= ips@.take(i as int));
        if !ip_is_loopback(ips[i]) {
            out.push(ips[i]);
        }
        i = i + 1;
    }
    assert(ips@.take(ips@.len() as int) =~= ips@);
    out
}

/// The text `a` followed by `b` and `c`.
fn join3(a: &str, b: &str, c: &str) -> (r: String)
    ensures
        r@ == a@ + b@ + c@,
{
    let mut t = String::new();
    push_str(&mut t, a);
    push_str(&mut t, b);
    push_str(&mut t, c);
    assert(t@ =~= a@ + b@ + c@);
    t
}

/// What a delivery attempt makes of the address lookup of `hostname`
/// (`is_implicit` where it stands for a domain without MX records); `mx`
/// is the MX host the envelope names, for the message of a host without
/// addresses. See [`resolved_as`].
pub fn resolve_host_outcome(
    hostname: &str,
    is_implicit: bool,
    lookup: Result<(Vec<IpAddress>, DnssecStatus), LookupError>,
    mx: &str,
) -> (r: Result<IpLookupResult, DeliveryStatus>)
    ensures
        resolved_as(
            r,
            hostname@,
            is_implicit,
            match lookup {
                Ok((ips, st)) => Ok((ips@, st)),
                Err(e) => Err(e),
            },
            mx@,
        ),
{
    let entity = String::from_str(hostname);
    match lookup {
        Err(LookupError::NotFound) => {
            if is_implicit {
                Err(Status::PermanentFailure(ErrorDetails { entity, details: Error::DnsError(String::from_str("no MX record found.")) }))
            } else {
                Err(Status::PermanentFailure(
                    ErrorDetails { entity, details: Error::ConnectionError(String::from_str("record not found for MX")) },
                ))
            }
        },
        Err(LookupError::Failed(e)) => {
            let t = join3("lookup error: ", e.as_str(), "");
            proof {
                reveal_strlit("");
            }
            assert(t@ =~= "lookup error: "@ + e@);
            Err(Status::TemporaryFailure(ErrorDetails { entity, details: Error::ConnectionError(t) }))
        },
        Ok((ips, status)) => {
            if ips.len() == 0 {
                let q = debug_quoted(mx);
                let t = join3("No IP addresses found for ", q.as_str(), ".");
                Err(Status::TemporaryFailure(ErrorDetails { entity, details: Error::DnsError(t) }))
            } else {
                let kept = drop_loopback(&ips);
                if kept.len() == 0 {
                    Err(Status::PermanentFailure(
                        ErrorDetails { entity, details: Error::ConnectionError(String::from_str("host resolves loopback address")) },
                    ))
                } else {
                    Ok(IpLookupResult { remote_ips: kept, dnssec_status: status })
                }
            }
        },
    }
}


/// A local address to connect from, and the host name to greet with.
pub struct IpAndHost {
    pub ip: IpAddress,
    pub host: Option<String>,
}

/// The local addresses a connection may come from.
pub struct ConnectionStrategy {
    pub source_ipv4: Vec<IpAndHost>,
    pub source_ipv6: Vec<IpAndHost>,
}

/// A position below `n` drawn with `rand::Rng::random_range` from the
/// thread's random generator. The contract claims only that it is below
/// `n`.
#[verifier::external_body]
fn random_index(n: usize) -> (r: usize)
    requires
        n > 0,
    ensures
        r < n,
{
    rand::rng().random_range(0..n)
}

impl ConnectionStrategy {
    /// The local addresses of a family.
    pub open spec fn sources(&self, is_v4: bool) -> Seq<IpAndHost> {
        if is_v4 {
            self.source_ipv4@
        } else {
            self.source_ipv6@
        }
    }

    /// The local address to connect from, of the family asked for: the
    /// only one configured, one drawn at random among several, or none.
    pub fn source_ip(&self, is_v4: bool) -> (r: Option<&IpAndHost>)
        ensures
            match r {
                None => self.sources(is_v4).len() == 0,
                Some(a) => (self.sources(is_v4).len() == 1 ==> *a == self.sources(is_v4)[0])
                    && exists|k: int| 0 <= k < self.sources(is_v4).len() && #[trigger] self.sources(is_v4)[k] == *a,
            },
    {
        let ips = if is_v4 { &self.source_ipv4 } else { &self.source_ipv6 };
        if ips.len() == 1 {
            let a = &ips[0];
            assert(self.sources(is_v4)[0] == *a);
            Some(a)
        } else if ips.len() > 1 {
            let k = random_index(ips.len());
            let a = &ips[k];
            assert(self.sources(is_v4)[k as int] == *a);
            Some(a)
        } else {
            None
        }
    }
}


/// An answer record of an address lookup: whether its proof is secure, and
/// its address where it is an `A` or `AAAA` record.
pub struct AddressAnswer {
    pub secure: bool,
    pub addr: Option<IpAddress>,
}

/// The outcome of looking up one record type with DNSSEC.
pub enum RecordLookup {
    Answers(Vec<AddressAnswer>),
    NotFound,
    Failed(String),
}

/// The IPv4 addresses among answers, in order.
pub open spec fn answers_v4(a: Seq<AddressAnswer>) -> Seq<IpAddress>
    decreases a.len(),
{
    if a.len() == 0 {
        Seq::empty()
    } else {
        let p = answers_v4(a.drop_last());
        match a.last().addr {
            Some(IpAddress::V4(x)) => p.push(IpAddress::V4(x)),
            _ => p,
        }
    }
}

/// The IPv6 addresses among answers, in order.
pub open spec fn answers_v6(a: Seq<AddressAnswer>) -> Seq<IpAddress>
    decreases a.len(),
{
    if a.len() == 0 {
        Seq::empty()
    } else {
        let p = answers_v6(a.drop_last());
        match a.last().addr {
            Some(IpAddress::V6(x)) => p.push(IpAddress::V6(x)),
            _ => p,
        }
    }
}

/// Whether every answer's proof is secure.
pub open spec fn answers_secure(a: Seq<AddressAnswer>) -> bool {
    forall|i: int| 0 <= i < a.len() ==> (#[trigger] a[i]).secure
}

/// The answers of a lookup, or none.
pub open spec fn answers_of(l: RecordLookup) -> Seq<AddressAnswer> {
    match l {
        RecordLookup::Answers(a) => a@,
        _ => Seq::empty(),
    }
}

/// The addresses of a host from its DNSSEC lookups: the `A` lookup (where
/// the strategy asks for IPv4) and then the `AAAA` lookup (where it asks
/// for IPv6). A lookup that fails otherwise than for a missing record is
/// the outcome; no address at all means no record. IPv4 addresses come
/// first except for the strategies that prefer IPv6, at most `max`; the
/// answer is secure when every record's proof is.
pub open spec fn dnssec_ips_of(
    s: IpLookupStrategy,
    v4: RecordLookup,
    v6: RecordLookup,
    max: nat,
) -> Result<(Seq<IpAddress>, DnssecStatus), LookupError> {
    if wants_ipv4(s) && v4 is Failed {
        Err(LookupError::Failed(v4->Failed_0))
    } else if wants_ipv6(s) && v6 is Failed {
        Err(LookupError::Failed(v6->Failed_0))
    } else {
        let a = (if wants_ipv4(s) { answers_of(v4) } else { Seq::empty() }) + (if wants_ipv6(s) {
            answers_of(v6)
        } else {
            Seq::empty()
        });
        let ip4 = answers_v4(a);
        let ip6 = answers_v6(a);
        if ip4.len() == 0 && ip6.len() == 0 {
            Err(LookupError::NotFound)
        } else {
            let v4_first = s == IpLookupStrategy::Ipv4Only || s == IpLookupStrategy::Ipv4thenIpv6;
            Ok((
                take_at_most(if v4_first { ip4 + ip6 } else { ip6 + ip4 }, max),
                if answers_secure(a) { DnssecStatus::Secure } else { DnssecStatus::Insecure },
            ))
        }
    }
}

/// Splits answers into their IPv4 and IPv6 addresses and whether all are
/// secure, appending to what is held.
fn collect_answers(a: &Vec<AddressAnswer>, ip4: &mut Vec<IpAddress>, ip6: &mut Vec<IpAddress>, secure: &mut bool, Ghost(prev): Ghost<Seq<AddressAnswer>>)
    requires
        old(ip4)@ == answers_v4(prev),
        old(ip6)@ == answers_v6(prev),
        *old(secure) == answers_secure(prev),
    ensures
        final(ip4)@ == answers_v4(prev + a@),
        final(ip6)@ == answers_v6(prev + a@),
        *final(secure) == answers_secure(prev + a@),
{
    let mut i: usize = 0;
    while i < a.len()
        invariant
            i <= a@.len(),
            ip4@ == answers_v4(prev + a@.take(i as int)),
            ip6@ == answers_v6(prev + a@.take(i as int)),
            *secure == answers_secure(prev + a@.take(i as int)),
        decreases a.len() - i,
    {
        let ghost cur = prev + a@.take(i as int);
        let ghost nxt = prev + a@.take(i + 1);
        assert(nxt.drop_last() =~= cur);
        assert(nxt.last() == a@[i as int]);
        if !a[i].secure {
            *secure = false;
            assert(!nxt[nxt.len() - 1].secure);
        } else {
            assert forall|j: int| 0 <= j < nxt.len() implies (#[trigger] nxt[j]).secure == (if j < cur.len() {
                cur[j].secure
            } else {
                true
            }) by {
                if j < cur.len() {
                    assert(nxt[j] == cur[j]);
                }
            }
        }
        match a[i].addr {
            Some(IpAddress::V4(x)) => ip4.push(IpAddress::V4(x)),
            Some(IpAddress::V6(x)) => ip6.push(IpAddress::V6(x)),
            None => {},
        }
        i = i + 1;
    }
    assert(a@.take(a@.len() as int) =~= a@);
}

/// The addresses of a host from its DNSSEC lookups: see [`dnssec_ips_of`].
pub fn dnssec_ip_outcome(
    s: IpLookupStrategy,
    v4: RecordLookup,
    v6: RecordLookup,
    max_results: usize,
) -> (r: Result<(Vec<IpAddress>, DnssecStatus), LookupError>)
    ensures
        match (r, dnssec_ips_of(s, v4, v6, max_results as nat)) {
            (Ok((ips, st)), Ok((want, wst))) => ips@ == want && st == wst,
            (Err(LookupError::NotFound), Err(LookupError::NotFound)) => true,
            (Err(LookupError::Failed(e)), Err(LookupError::Failed(f))) => e == f,
            _ => false,
        },
{
    let (has_ipv4, has_ipv6, _) = lookup_families(s);
    let v4_first = match s {
        IpLookupStrategy::Ipv4Only | IpLookupStrategy::Ipv4thenIpv6 => true,
        _ => false,
    };
    let l4 = if has_ipv4 { v4 } else { RecordLookup::Answers(Vec::new()) };
    let l6 = if has_ipv6 { v6 } else { RecordLookup::Answers(Vec::new()) };
    let ghost g4 = l4;
    let ghost g6 = l6;
    let mut ip4: Vec<IpAddress> = Vec::new();
    let mut ip6: Vec<IpAddress> = Vec::new();
    let mut secure = true;
    assert(answers_v4(Seq::<AddressAnswer>::empty()) =~= Seq::<IpAddress>::empty());
    match l4 {
        RecordLookup::Failed(e) => return Err(LookupError::Failed(e)),
        RecordLookup::Answers(a) => collect_answers(&a, &mut ip4, &mut ip6, &mut secure, Ghost(Seq::empty())),
        RecordLookup::NotFound => {},
    }
    let ghost first = if has_ipv4 { answers_of(g4) } else { Seq::<AddressAnswer>::empty() };
    assert(Seq::<AddressAnswer>::empty() + first =~= first);
    match l6 {
        RecordLookup::Failed(e) => return Err(LookupError::Failed(e)),
        RecordLookup::Answers(a) => collect_answers(&a, &mut ip4, &mut ip6, &mut secure, Ghost(first)),
        RecordLookup::NotFound => {
            assert(first + Seq::<AddressAnswer>::empty() =~= first);
        },
    }
    if ip4.len() == 0 && ip6.len() == 0 {
        return Err(LookupError::NotFound);
    }
    let status = if secure { DnssecStatus::Secure } else { DnssecStatus::Insecure };
    let mut out: Vec<IpAddress> = Vec::new();
    if v4_first {
        push_addrs(&mut out, &ip4, max_results);
        push_addrs(&mut out, &ip6, max_results);
        proof {
            lemma_take_at_most_concat(ip4@, ip6@, max_results as nat);
            assert(Seq::<IpAddress>::empty() + ip4@ =~= ip4@);
        }
    } else {
        push_addrs(&mut out, &ip6, max_results);
        push_addrs(&mut out, &ip4, max_results);
        proof {
            lemma_take_at_most_concat(ip6@, ip4@, max_results as nat);
            assert(Seq::<IpAddress>::empty() + ip6@ =~= ip6@);
        }
    }
    Ok((out, status))
}

/// Appends addresses while fewer than `max` are held.
fn push_addrs(out: &mut Vec<IpAddress>, a: &Vec<IpAddress>, max: usize)
    requires
        old(out)@.len() <= max,
    ensures
        final(out)@ == take_at_most(old(out)@ + a@, max as nat),
{
    let ghost start = old(out)@;
    let mut i: usize = 0;
    while i < a.len() && out.len() < max
        invariant
            i <= a@.len(),
            start.len() <= max,
            out@.len() <= max,
            out@ == start + a@.take(i as int),
        decreases a.len() - i,
    {
        out.push(a[i]);
        assert(a@.take(i + 1) =~= a@.take(i as int).push(a@[i as int]));
        i = i + 1;
    }
    if i == a.len() {
        assert(a@.take(i as int) =~= a@);
    }
    if i < a.len() {
        assert((start + a@).take(max as int) =~= out@);
    }
}

} // verus!
