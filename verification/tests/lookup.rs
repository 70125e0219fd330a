use stalwart::dane::DnssecStatus;
use stalwart::lookup::{
    combine_ip_lookup, dnssec_ip_outcome, ip_is_loopback, AddressAnswer, RecordLookup, lookup_families, resolve_host_outcome, ConnectionStrategy, IpAddress,
    IpAndHost, IpLookupStrategy, LookupError,
};
use stalwart::queue::{Error, Status};

const A: u32 = 0xC000_0201; // 192.0.2.1
const B: u32 = 0xC000_0202; // 192.0.2.2
const LOOP4: u32 = 0x7F00_0001; // 127.0.0.1
const C: u128 = 0x2001_0db8_0000_0000_0000_0000_0000_0001;

#[test]
fn loopback_addresses() {
    assert!(ip_is_loopback(IpAddress::V4(LOOP4)));
    assert!(ip_is_loopback(IpAddress::V4(0x7FFF_FFFF)));
    assert!(!ip_is_loopback(IpAddress::V4(A)));
    assert!(ip_is_loopback(IpAddress::V6(1)));
    assert!(!ip_is_loopback(IpAddress::V6(C)));
}

#[test]
fn strategy_families() {
    assert_eq!(lookup_families(IpLookupStrategy::Ipv4Only), (true, false, false));
    assert_eq!(lookup_families(IpLookupStrategy::Ipv6Only), (false, true, false));
    assert_eq!(lookup_families(IpLookupStrategy::Ipv4thenIpv6), (true, true, true));
    assert_eq!(lookup_families(IpLookupStrategy::Ipv6thenIpv4), (true, true, false));
}

#[test]
fn combined_lookups_keep_family_order_and_limit() {
    let r: Result<_, &str> = combine_ip_lookup(IpLookupStrategy::Ipv4thenIpv6, Ok(vec![A, B]), Ok(vec![C]), 3);
    assert_eq!(r.unwrap(), vec![IpAddress::V4(A), IpAddress::V4(B), IpAddress::V6(C)]);
    let r: Result<_, &str> = combine_ip_lookup(IpLookupStrategy::Ipv6thenIpv4, Ok(vec![A, B]), Ok(vec![C]), 2);
    assert_eq!(r.unwrap(), vec![IpAddress::V6(C), IpAddress::V4(A)]);
    let r: Result<_, &str> = combine_ip_lookup(IpLookupStrategy::Ipv4Only, Ok(vec![A, B]), Ok(vec![C]), 1);
    assert_eq!(r.unwrap(), vec![IpAddress::V4(A)]);
    let r: Result<_, &str> = combine_ip_lookup(IpLookupStrategy::Ipv6Only, Ok(vec![A]), Ok(vec![C]), 5);
    assert_eq!(r.unwrap(), vec![IpAddress::V6(C)]);
}

#[test]
fn combined_lookups_tolerate_one_failure() {
    let r = combine_ip_lookup(IpLookupStrategy::Ipv4thenIpv6, Err("v4"), Ok(vec![C]), 5);
    assert_eq!(r.unwrap(), vec![IpAddress::V6(C)]);
    let r = combine_ip_lookup(IpLookupStrategy::Ipv4thenIpv6, Ok(vec![A]), Err("v6"), 5);
    assert_eq!(r.unwrap(), vec![IpAddress::V4(A)]);
    let r = combine_ip_lookup(IpLookupStrategy::Ipv4thenIpv6, Err("v4"), Err("v6"), 5);
    assert_eq!(r.unwrap_err(), "v6");
    let r = combine_ip_lookup(IpLookupStrategy::Ipv4Only, Err("v4"), Ok(vec![C]), 5);
    assert_eq!(r.unwrap_err(), "v4");
    let r = combine_ip_lookup(IpLookupStrategy::Ipv6Only, Ok(vec![A]), Err("v6"), 5);
    assert_eq!(r.unwrap_err(), "v6");
}

fn details(r: &Result<stalwart::lookup::IpLookupResult, stalwart::queue::DeliveryStatus>) -> (bool, String, String) {
    match r {
        Err(Status::PermanentFailure(d)) | Err(Status::TemporaryFailure(d)) => {
            let permanent = matches!(r, Err(Status::PermanentFailure(_)));
            let text = match &d.details {
                Error::DnsError(t) => format!("dns:{t}"),
                Error::ConnectionError(t) => format!("conn:{t}"),
                _ => String::new(),
            };
            (permanent, d.entity.clone(), text)
        }
        _ => panic!("not a failure"),
    }
}

#[test]
fn host_lookup_failures() {
    let r = resolve_host_outcome("example.org", true, Err(LookupError::NotFound), "example.org");
    assert_eq!(details(&r), (true, "example.org".to_string(), "dns:no MX record found.".to_string()));
    let r = resolve_host_outcome("mx.example.org", false, Err(LookupError::NotFound), "mx.example.org");
    assert_eq!(details(&r), (true, "mx.example.org".to_string(), "conn:record not found for MX".to_string()));
    let r = resolve_host_outcome("mx.example.org", false, Err(LookupError::Failed("timed out".to_string())), "");
    assert_eq!(details(&r), (false, "mx.example.org".to_string(), "conn:lookup error: timed out".to_string()));
    let r = resolve_host_outcome("mx.example.org", false, Ok((vec![], DnssecStatus::Insecure)), "mx.example.org");
    assert_eq!(
        details(&r),
        (false, "mx.example.org".to_string(), "dns:No IP addresses found for \"mx.example.org\".".to_string())
    );
    let r = resolve_host_outcome("mx.example.org", false, Ok((vec![IpAddress::V4(LOOP4), IpAddress::V6(1)], DnssecStatus::Secure)), "");
    assert_eq!(details(&r), (true, "mx.example.org".to_string(), "conn:host resolves loopback address".to_string()));
}

#[test]
fn host_lookup_drops_loopback() {
    let r = resolve_host_outcome(
        "mx.example.org",
        false,
        Ok((vec![IpAddress::V4(LOOP4), IpAddress::V4(A), IpAddress::V6(C)], DnssecStatus::Secure)),
        "",
    )
    .ok()
    .unwrap();
    assert_eq!(r.remote_ips, vec![IpAddress::V4(A), IpAddress::V6(C)]);
    assert!(matches!(r.dnssec_status, DnssecStatus::Secure));
}

#[test]
fn source_address_choice() {
    let one = |ip: u32| IpAndHost { ip: IpAddress::V4(ip), host: None };
    let s = ConnectionStrategy { source_ipv4: vec![one(A)], source_ipv6: vec![] };
    assert_eq!(s.source_ip(true).unwrap().ip, IpAddress::V4(A));
    assert!(s.source_ip(false).is_none());
    let s = ConnectionStrategy { source_ipv4: vec![one(A), one(B)], source_ipv6: vec![] };
    let ip = s.source_ip(true).unwrap().ip;
    assert!(ip == IpAddress::V4(A) || ip == IpAddress::V4(B));
}

fn ans(secure: bool, addr: Option<IpAddress>) -> AddressAnswer {
    AddressAnswer { secure, addr }
}

#[test]
fn dnssec_lookups_combine_and_rate_security() {
    let v4 = RecordLookup::Answers(vec![ans(true, Some(IpAddress::V4(A))), ans(true, None)]);
    let v6 = RecordLookup::Answers(vec![ans(true, Some(IpAddress::V6(C)))]);
    let (ips, st) = dnssec_ip_outcome(IpLookupStrategy::Ipv6thenIpv4, v4, v6, 5).ok().unwrap();
    assert_eq!(ips, vec![IpAddress::V6(C), IpAddress::V4(A)]);
    assert!(matches!(st, DnssecStatus::Secure));
    let v4 = RecordLookup::Answers(vec![ans(true, Some(IpAddress::V4(A))), ans(false, Some(IpAddress::V4(B)))]);
    let (ips, st) = dnssec_ip_outcome(IpLookupStrategy::Ipv4Only, v4, RecordLookup::Failed("ignored".to_string()), 1).ok().unwrap();
    assert_eq!(ips, vec![IpAddress::V4(A)]);
    assert!(matches!(st, DnssecStatus::Insecure));
    let r = dnssec_ip_outcome(IpLookupStrategy::Ipv4thenIpv6, RecordLookup::NotFound, RecordLookup::NotFound, 5);
    assert!(matches!(r, Err(LookupError::NotFound)));
    let r = dnssec_ip_outcome(IpLookupStrategy::Ipv4thenIpv6, RecordLookup::Failed("servfail".to_string()), RecordLookup::NotFound, 5);
    assert!(matches!(r, Err(LookupError::Failed(e)) if e == "servfail"));
}
