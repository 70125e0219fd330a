use stalwart::dane::Mx;
use stalwart::lookup::IpLookupStrategy;
use stalwart::next_hop::{to_remote_hosts, to_remote_hosts_ordered, MxConfig, NextHop, NextHopMx, RelayHost};

fn mx(preference: u16, hosts: &[&str]) -> Mx {
    Mx { preference, exchanges: hosts.iter().map(|h| h.to_string()).collect() }
}

fn names(v: &[NextHopMx]) -> Vec<&str> {
    v.iter().map(|h| h.host.as_str()).collect()
}

#[test]
fn no_mx_means_the_domain_itself() {
    let r = to_remote_hosts(&vec![], "example.org", 5).unwrap();
    assert_eq!(names(&r), vec!["example.org"]);
    assert!(r[0].is_implicit);
}

#[test]
fn null_mx_means_no_host() {
    assert!(to_remote_hosts(&vec![mx(0, &["."])], "example.org", 5).is_none());
    let r = to_remote_hosts(&vec![mx(10, &["."])], "example.org", 5).unwrap();
    assert_eq!(names(&r), vec!["."]);
}

#[test]
fn hosts_follow_preference_and_given_order() {
    let mxs = vec![mx(10, &["a.example", "b.example"]), mx(20, &["c.example"])];
    let orders = vec![vec![1, 0], vec![]];
    let r = to_remote_hosts_ordered(&mxs, "example", 0, &orders).unwrap();
    assert_eq!(names(&r), vec!["b.example", "a.example", "c.example"]);
    assert!(r.iter().all(|h| !h.is_implicit));
}

#[test]
fn hosts_stop_at_the_limit() {
    let mxs = vec![mx(10, &["a.example", "b.example", "c.example"]), mx(20, &["d.example"]), mx(0, &["."])];
    let orders = vec![vec![2, 0, 1], vec![], vec![]];
    let r = to_remote_hosts_ordered(&mxs, "example", 2, &orders).unwrap();
    assert_eq!(names(&r), vec!["c.example", "a.example"]);
    let r = to_remote_hosts_ordered(&mxs, "example", 4, &orders).unwrap();
    assert_eq!(names(&r), vec!["c.example", "a.example", "b.example", "d.example"]);
    assert!(to_remote_hosts_ordered(&mxs, "example", 5, &orders).is_none());
}

#[test]
fn random_order_keeps_every_host() {
    let mxs = vec![mx(10, &["a.example", "b.example", "c.example"]), mx(20, &["d.example"])];
    let r = to_remote_hosts(&mxs, "example", 0).unwrap();
    let mut first: Vec<&str> = names(&r)[..3].to_vec();
    first.sort();
    assert_eq!(first, vec!["a.example", "b.example", "c.example"]);
    assert_eq!(r[3].host, "d.example");
}

#[test]
fn next_hop_properties() {
    let config = MxConfig { max_mx: 5, max_multi_homed: 2, ip_lookup_strategy: IpLookupStrategy::Ipv6thenIpv4 };
    let mx = NextHop::MX { is_implicit: false, host: "mx.example.org.", config: &config };
    assert_eq!(mx.hostname(), "mx.example.org");
    assert_eq!(mx.fqdn_hostname(), "mx.example.org.");
    assert_eq!(mx.max_multi_homed(), 2);
    assert_eq!(mx.ip_lookup_strategy(), IpLookupStrategy::Ipv6thenIpv4);
    assert_eq!(mx.port(), 25);
    assert!(mx.credentials().is_none());
    assert!(!mx.allow_invalid_certs() && !mx.implicit_tls() && mx.is_smtp());
    let bare = NextHop::MX { is_implicit: true, host: "example.org", config: &config };
    assert_eq!(bare.hostname(), "example.org");
    assert_eq!(bare.fqdn_hostname(), "example.org.");
    let relay = RelayHost {
        address: "relay.example.net".to_string(),
        port: 587,
        auth: None,
        tls_allow_invalid_certs: true,
        tls_implicit: true,
        is_smtp: false,
    };
    let r = NextHop::Relay(&relay);
    assert_eq!(r.hostname(), "relay.example.net");
    assert_eq!(r.fqdn_hostname(), "relay.example.net");
    assert_eq!(r.max_multi_homed(), 10);
    assert_eq!(r.ip_lookup_strategy(), IpLookupStrategy::Ipv4thenIpv6);
    assert_eq!(r.port(), 587);
    assert!(r.allow_invalid_certs() && r.implicit_tls() && !r.is_smtp());
}
