use flannel_ng::addr::{Ipv4Addr, Ipv4Network};
use flannel_ng::error::FlannelError;
use flannel_ng::etcd::events::{EventType, LeaseWatchEvent, LeaseWatchResult};
use flannel_ng::etcd::registry::{EtcdConfig, EtcdSubnetRegistry};
use flannel_ng::lease::Lease;
use flannel_ng::subnet::manager::{SubnetManager, SUBNET_TTL};
use flannel_ng::subnet::renewal::{
    has_margin, wait_before_renewal, watch_lease, LeaseRenewal, RETRY_NANOS,
};
use flannel_ng::subnet::watcher::LeaseWatcher;
use flannel_ng::time::SystemTime;

const HOUR: i128 = 3_600_000_000_000;

fn lease(subnet: &str) -> Lease {
    let mut lease = Lease::default_at(SystemTime { nanos: 0 });
    lease.enable_ipv4 = true;
    lease.subnet = Ipv4Network::parse(subnet).unwrap();
    lease
}

fn lease_at(subnet: &str, host: u8) -> Lease {
    let mut lease = lease(subnet);
    lease.attrs.public_ip = Ipv4Addr::new(198, 19, 249, host);
    lease
}

fn put(lease: Lease) -> LeaseWatchEvent {
    LeaseWatchEvent { lease, event_type: EventType::Put }
}

fn delete(lease: Lease) -> LeaseWatchEvent {
    LeaseWatchEvent { lease, event_type: EventType::Delete }
}

#[test]
fn test_lease() {
    let my_lease = lease("172.18.1.0/24");
    let mut lw = LeaseWatcher { own_lease: &my_lease, leases: vec![lease("172.18.5.0/24")] };

    let snapshot = vec![lease("172.18.1.0/24"), lease("172.18.2.0/24"), lease("172.18.3.0/24")];

    let events = lw.reset(&snapshot);
    for e in &events {
        println!("{:?} -> {:?}", e.event_type, e.lease.subnet);
    }
    println!(">>>>>>>");
    println!(">>>>>>>{:#?}", lw);
    assert_eq!(
        events,
        vec![
            put(lease("172.18.2.0/24")),
            put(lease("172.18.3.0/24")),
            delete(lease("172.18.5.0/24")),
        ]
    );
    assert_eq!(lw.leases, snapshot);
}

#[test]
fn a_snapshot_without_news_is_not_reported() {
    let own = lease("172.18.1.0/24");
    let mut lw = LeaseWatcher { own_lease: &own, leases: vec![lease_at("172.18.2.0/24", 1)] };
    // A known subnet is not reported again, though its host changed.
    assert!(lw.reset(&[lease_at("172.18.2.0/24", 2)]).is_empty());
    assert_eq!(lw.leases, vec![lease_at("172.18.2.0/24", 2)]);
}

#[test]
fn a_second_snapshot_reports_the_own_lease_as_removed() {
    let own = lease("172.18.1.0/24");
    let mut lw = LeaseWatcher { own_lease: &own, leases: vec![] };
    let snapshot = [lease("172.18.1.0/24"), lease("172.18.2.0/24")];
    assert_eq!(lw.reset(&snapshot), vec![put(lease("172.18.2.0/24"))]);
    assert_eq!(lw.reset(&snapshot), vec![delete(lease("172.18.1.0/24"))]);
}

#[test]
fn news_come_before_losses_in_their_order() {
    let own = lease("172.18.1.0/24");
    let mut lw = LeaseWatcher {
        own_lease: &own,
        leases: vec![lease("172.18.9.0/24"), lease("172.18.2.0/24"), lease("172.18.8.0/24")],
    };
    let events = lw.reset(&[
        lease("172.18.4.0/24"),
        lease("172.18.2.0/24"),
        lease("172.18.1.0/24"),
        lease("172.18.3.0/24"),
    ]);
    assert_eq!(
        events,
        vec![
            put(lease("172.18.4.0/24")),
            put(lease("172.18.3.0/24")),
            delete(lease("172.18.9.0/24")),
            delete(lease("172.18.8.0/24")),
        ]
    );
}

#[test]
fn updates_are_reported_and_noted() {
    let own = lease("172.18.1.0/24");
    let mut lw = LeaseWatcher { own_lease: &own, leases: vec![lease_at("172.18.2.0/24", 2)] };
    let events = vec![
        put(lease_at("172.18.1.0/24", 1)),
        put(lease_at("172.18.2.0/24", 9)),
        put(lease_at("172.18.3.0/24", 3)),
        delete(lease("172.18.2.0/24")),
        delete(lease("172.18.7.0/24")),
        delete(lease("172.18.1.0/24")),
    ];
    assert_eq!(
        lw.update(&events),
        vec![
            put(lease_at("172.18.2.0/24", 9)),
            put(lease_at("172.18.3.0/24", 3)),
            // A removed lease is reported as it was known.
            delete(lease_at("172.18.2.0/24", 9)),
            delete(lease("172.18.7.0/24")),
        ]
    );
    assert_eq!(lw.leases, vec![lease_at("172.18.3.0/24", 3)]);
}

#[test]
fn leases_are_added_and_removed() {
    let own = lease("172.18.1.0/24");
    let mut lw = LeaseWatcher { own_lease: &own, leases: vec![] };
    assert_eq!(lw.add(&lease_at("172.18.2.0/24", 2)), put(lease_at("172.18.2.0/24", 2)));
    assert_eq!(lw.add(&lease_at("172.18.2.0/24", 3)), put(lease_at("172.18.2.0/24", 3)));
    assert_eq!(lw.leases.len(), 1);
    assert_eq!(lw.remove(&lease("172.18.2.0/24")), delete(lease_at("172.18.2.0/24", 3)));
    assert!(lw.leases.is_empty());
}

#[test]
fn events_come_before_a_snapshot() {
    let own = lease("172.18.1.0/24");
    let mut lw = LeaseWatcher { own_lease: &own, leases: vec![] };
    let both = LeaseWatchResult {
        snapshot: vec![lease("172.18.8.0/24")],
        events: vec![put(lease("172.18.2.0/24"))],
        cursor: 1,
    };
    assert_eq!(lw.apply(&both), vec![put(lease("172.18.2.0/24"))]);
    assert_eq!(lw.leases, vec![lease("172.18.2.0/24")]);
    let snapshot = LeaseWatchResult {
        snapshot: vec![lease("172.18.8.0/24")],
        ..LeaseWatchResult::default()
    };
    assert_eq!(
        lw.apply(&snapshot),
        vec![put(lease("172.18.8.0/24")), delete(lease("172.18.2.0/24"))]
    );
    assert!(lw.apply(&LeaseWatchResult::default()).is_empty());
    assert_eq!(lw.leases, vec![lease("172.18.8.0/24")]);
}

#[test]
fn only_batches_with_events_of_others_are_passed_on() {
    let own = lease("172.18.1.0/24");
    let mut lw = LeaseWatcher { own_lease: &own, leases: vec![] };
    let of = |snapshot: Vec<Lease>, events: Vec<LeaseWatchEvent>| LeaseWatchResult {
        snapshot,
        events,
        cursor: 1,
    };
    let first = of(vec![lease("172.18.1.0/24"), lease("172.18.2.0/24")], vec![]);
    assert_eq!(lw.report(&first), Some(vec![put(lease("172.18.2.0/24"))]));
    assert_eq!(lw.report(&of(vec![], vec![put(lease_at("172.18.1.0/24", 1))])), None);
    assert_eq!(lw.report(&of(vec![], vec![delete(lease("172.18.1.0/24"))])), None);
    assert_eq!(lw.report(&LeaseWatchResult::default()), None);
    assert_eq!(
        lw.report(&of(vec![], vec![put(lease("172.18.3.0/24"))])),
        Some(vec![put(lease("172.18.3.0/24"))])
    );
    assert_eq!(lw.leases.len(), 3);
}

#[test]
fn renewal_comes_before_the_end() {
    let now = SystemTime { nanos: 0 };
    let end = SystemTime { nanos: 24 * HOUR };
    assert!(has_margin(end, now, 60));
    assert_eq!(wait_before_renewal(end, now, 60), Ok((23 * HOUR) as u128));
    assert_eq!(wait_before_renewal(end, now, 0), Ok((24 * HOUR) as u128));
    assert!(!has_margin(end, now, 24 * 60 + 1));
    assert!(has_margin(end, now, 24 * 60));
    // An expired lease is an error, whatever the margin.
    assert!(has_margin(now, end, 60));
    assert_eq!(wait_before_renewal(now, end, 60), Err(FlannelError::LeaseExpired));
    assert!(has_margin(
        SystemTime { nanos: i128::MAX },
        SystemTime { nanos: i128::MIN },
        u32::MAX
    ));
}

#[test]
fn a_lease_is_renewed() {
    let mut own = lease("172.18.1.0/24");
    own.expiration = SystemTime { nanos: 24 * HOUR };
    let mut renewal = LeaseRenewal::start(own, 60, SystemTime { nanos: 0 }).unwrap();
    assert_eq!(renewal.wait, (23 * HOUR) as u128);
    renewal.renew_failed();
    assert_eq!(renewal.wait, RETRY_NANOS);
    assert_eq!(RETRY_NANOS, 3_000_000_000);
    let end = SystemTime { nanos: 47 * HOUR };
    assert_eq!(renewal.renewed(end, SystemTime { nanos: 23 * HOUR }), Ok(()));
    assert_eq!(renewal.lease.expiration, end);
    assert_eq!(renewal.wait, (23 * HOUR) as u128);
    assert_eq!(
        renewal.renewed(SystemTime { nanos: 1 }, SystemTime { nanos: 2 }),
        Err(FlannelError::LeaseExpired)
    );
}

#[test]
fn the_registry_changes_the_lease() {
    let mut own = lease("172.18.1.0/24");
    own.expiration = SystemTime { nanos: 24 * HOUR };
    let mut renewal = LeaseRenewal::start(own, 0, SystemTime { nanos: 0 }).unwrap();
    let mut other = lease_at("172.18.1.0/24", 4);
    other.expiration = SystemTime { nanos: 5 * HOUR };
    assert_eq!(renewal.watched(put(other.clone()), SystemTime { nanos: HOUR }), Ok(()));
    assert_eq!(renewal.lease, other);
    assert_eq!(renewal.wait, (4 * HOUR) as u128);
    assert_eq!(
        renewal.watched(delete(lease("172.18.1.0/24")), SystemTime { nanos: HOUR }),
        Err(FlannelError::LeaseDeleted)
    );
    assert_eq!(renewal.lease, other);
    assert_eq!(
        renewal.watched(put(other), SystemTime { nanos: 6 * HOUR }),
        Err(FlannelError::LeaseExpired)
    );
    let expired = lease("172.18.1.0/24");
    assert_eq!(
        LeaseRenewal::start(expired, 0, SystemTime { nanos: 1 }).err(),
        Some(FlannelError::LeaseExpired)
    );
}

#[test]
fn the_request_to_renew() {
    let sm = SubnetManager::new(
        EtcdSubnetRegistry::new(EtcdConfig::from_args("a:1,b:2", "/coreos.com/network")),
        None,
        60,
    );
    let write = sm.renew_lease(&lease("172.18.1.0/24"));
    assert_eq!(write.key, "/coreos.com/network/subnets/172.18.1.0-24");
    assert_eq!(write.ttl, SUBNET_TTL);
    assert_eq!(write.ttl, 24 * 60 * 60);
    assert!(!write.if_absent);
}

#[test]
fn a_watch_starts_with_the_lease_as_it_stands() {
    let sn = Ipv4Network::parse("172.18.1.0/24").unwrap();
    assert_eq!(
        watch_lease(sn, Some((lease("172.18.1.0/24"), 42))),
        Ok((put(lease("172.18.1.0/24")), 42))
    );
    let missing = watch_lease(sn, None);
    assert_eq!(missing, Err(FlannelError::SubnetNotFound(sn)));
    assert_eq!(
        FlannelError::SubnetNotFound(sn).message(),
        "subnet 172.18.1.0/24 not found"
    );
}
