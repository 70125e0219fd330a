use stalwart::delivery::{route_attempt_start, route_attempt_step, AttemptAction, AttemptEvent};
use stalwart::queue::{Error, ErrorDetails, Status};

fn fail(entity: &str) -> stalwart::queue::DeliveryStatus {
    Status::TemporaryFailure(ErrorDetails { entity: entity.to_string(), details: Error::ConnectionError("refused".to_string()) })
}

fn entity(a: &AttemptAction) -> Option<String> {
    match a {
        AttemptAction::Finish(Status::TemporaryFailure(d)) => Some(d.entity.clone()),
        _ => None,
    }
}

#[test]
fn route_attempt_walks_hosts_and_addresses() {
    let (a, act) = route_attempt_start(2);
    assert!(matches!(act, AttemptAction::Resolve { host: 0 }));
    let (a, act) = route_attempt_step(a, AttemptEvent::Resolved { ips: 2 });
    assert!(matches!(act, AttemptAction::Connect { host: 0, ip: 0 }));
    let (a, act) = route_attempt_step(a, AttemptEvent::IpFailed(fail("mx1 ip0")));
    assert!(matches!(act, AttemptAction::Connect { host: 0, ip: 1 }));
    let (a, act) = route_attempt_step(a, AttemptEvent::IpFailed(fail("mx1 ip1")));
    assert!(matches!(act, AttemptAction::Resolve { host: 1 }));
    let (a, act) = route_attempt_step(a, AttemptEvent::HostFailed(fail("mx2")));
    assert_eq!(entity(&act), Some("mx2".to_string()));
    assert_eq!(a.host, 2);
}

#[test]
fn route_attempt_ends_when_delivered_or_without_hosts() {
    let (_, act) = route_attempt_start(0);
    assert!(matches!(act, AttemptAction::Finish(Status::Scheduled)));
    let (a, _) = route_attempt_start(1);
    let (a, _) = route_attempt_step(a, AttemptEvent::Resolved { ips: 1 });
    let (_, act) = route_attempt_step(a, AttemptEvent::Delivered);
    assert!(matches!(act, AttemptAction::Delivered));
    let (a, _) = route_attempt_start(1);
    let (_, act) = route_attempt_step(a, AttemptEvent::Resolved { ips: 0 });
    assert!(matches!(act, AttemptAction::Finish(Status::Scheduled)));
}
