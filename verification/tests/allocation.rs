use flannel_ng::addr::{Ipv4Addr, Ipv4Network};
use flannel_ng::error::FlannelError;
use flannel_ng::etcd::registry::{EtcdConfig, EtcdSubnetRegistry};
use flannel_ng::lease::{Lease, LeaseAttrs};
use flannel_ng::subnet::allocation::{granted_lease, LeaseChoice};
use flannel_ng::subnet::config::Config;
use flannel_ng::subnet::manager::SubnetManager;
use flannel_ng::time::SystemTime;

fn manager() -> SubnetManager {
    SubnetManager::new(EtcdSubnetRegistry::new(EtcdConfig::default()), None, 60)
}

fn net(text: &str) -> Ipv4Network {
    Ipv4Network::parse(text).unwrap()
}

fn lease(subnet: &str, host: [u8; 4]) -> Lease {
    let mut lease = Lease::default_at(SystemTime { nanos: 0 });
    lease.enable_ipv4 = true;
    lease.subnet = net(subnet);
    lease.attrs.public_ip = Ipv4Addr::from_octets(host);
    lease
}

fn range(network: &str, len: u8, min: [u8; 4], max: [u8; 4]) -> Config {
    Config {
        enable_ipv4: true,
        enable_ipv6: false,
        network: Some(net(network)),
        ipv6_network: None,
        subnet_min: Some(Ipv4Addr::from_octets(min)),
        subnet_max: Some(Ipv4Addr::from_octets(max)),
        ipv6_subnet_min: None,
        ipv6_subnet_max: None,
        subnet_len: len,
        ipv6_subnet_len: 0,
        backend_type: None,
        backend: None,
    }
}

fn attrs(host: [u8; 4]) -> LeaseAttrs {
    let mut attrs = LeaseAttrs::default();
    attrs.public_ip = Ipv4Addr::from_octets(host);
    attrs
}

#[test]
fn free_subnets_are_listed_in_order() {
    let leases = vec![lease("10.0.2.0/24", [1, 1, 1, 1]), lease("10.0.4.128/25", [1, 1, 1, 2])];
    let ips = SubnetManager::available_subnets(
        Ipv4Addr::new(10, 0, 1, 0),
        Ipv4Addr::new(10, 0, 5, 0),
        24,
        &leases,
    );
    assert_eq!(
        ips,
        Some(vec![
            Ipv4Addr::new(10, 0, 1, 0),
            Ipv4Addr::new(10, 0, 3, 0),
            Ipv4Addr::new(10, 0, 5, 0),
        ])
    );
}

#[test]
fn at_most_a_hundred_subnets_are_listed() {
    let ips = SubnetManager::available_subnets(
        Ipv4Addr::new(10, 0, 0, 0),
        Ipv4Addr::new(10, 255, 255, 0),
        24,
        &[],
    )
    .unwrap();
    assert_eq!(ips.len(), 100);
    assert_eq!(ips[99], Ipv4Addr::new(10, 0, 99, 0));
}

#[test]
fn a_search_behind_the_last_address_is_given_up() {
    assert_eq!(
        SubnetManager::available_subnets(
            Ipv4Addr::new(255, 255, 254, 0),
            Ipv4Addr::new(255, 255, 255, 0),
            24,
            &[],
        ),
        None
    );
}

#[test]
fn a_candidate_is_picked_by_its_position() {
    let ips = [Ipv4Addr::new(10, 0, 1, 0), Ipv4Addr::new(10, 0, 2, 0)];
    assert_eq!(SubnetManager::pick_subnet(&ips, 1, 24), Ok(net("10.0.2.0/24")));
    assert_eq!(
        SubnetManager::pick_subnet(&[], 0, 24),
        Err(FlannelError::NoAvailableSubnets)
    );
    assert_eq!(SubnetManager::pick_subnet(&ips, 0, 33), Err(FlannelError::InvalidPrefix));
}

#[test]
fn an_allocated_subnet_is_free_and_in_the_range() {
    let config = range("10.0.0.0/16", 24, [10, 0, 1, 0], [10, 0, 4, 0]);
    let leases = vec![lease("10.0.1.0/24", [1, 1, 1, 1]), lease("10.0.3.0/24", [1, 1, 1, 2])];
    let mut seen = vec![];
    for _ in 0..200 {
        let sn = manager().allocate_subnet(&config, &leases).unwrap();
        assert!(sn == net("10.0.2.0/24") || sn == net("10.0.4.0/24"));
        assert!(leases.iter().all(|it| !sn.overlaps(it.subnet)));
        assert!(config.network.unwrap().contains(sn.ip()));
        if !seen.contains(&sn) {
            seen.push(sn);
        }
    }
    assert_eq!(seen.len(), 2);
}

#[test]
fn a_full_range_has_no_subnet() {
    let config = range("10.0.0.0/16", 24, [10, 0, 1, 0], [10, 0, 2, 0]);
    let leases = vec![lease("10.0.0.0/22", [1, 1, 1, 1])];
    assert_eq!(
        manager().allocate_subnet(&config, &leases),
        Err(FlannelError::NoAvailableSubnets)
    );
    let empty = range("10.0.0.0/16", 24, [10, 0, 2, 0], [10, 0, 1, 0]);
    assert_eq!(
        manager().allocate_subnet(&empty, &[]),
        Err(FlannelError::NoAvailableSubnets)
    );
    let long = range("10.0.0.0/16", 33, [10, 0, 1, 0], [10, 0, 2, 0]);
    assert_eq!(manager().allocate_subnet(&long, &[]), Err(FlannelError::InvalidPrefix));
}

#[test]
fn a_held_lease_is_reused() {
    let config = range("10.0.0.0/16", 24, [10, 0, 1, 0], [10, 0, 4, 0]);
    let host = [192, 168, 0, 7];
    let leases = vec![lease("10.0.1.0/24", [1, 1, 1, 1]), lease("10.0.2.0/24", host)];
    assert!(SubnetManager::acquirable(&config, &leases, Ipv4Addr::from_octets(host)));
    assert_eq!(
        manager().acquire_lease(&config, &leases, &attrs(host)),
        Ok(LeaseChoice::Reuse(lease("10.0.2.0/24", host)))
    );
    assert_eq!(
        manager().try_acquire_lease(&config, &leases, Ipv4Addr::from_octets(host)),
        Ok(LeaseChoice::Reuse(lease("10.0.2.0/24", host)))
    );
}

#[test]
fn a_lease_outside_the_range_is_not_reused() {
    let config = range("10.0.0.0/16", 24, [10, 0, 1, 0], [10, 0, 1, 0]);
    let host = [192, 168, 0, 7];
    for subnet in ["10.0.9.0/24", "10.0.0.0/24", "10.0.9.0/25"] {
        let leases = vec![lease(subnet, host)];
        assert_eq!(
            manager().acquire_lease(&config, &leases, &attrs(host)),
            Ok(LeaseChoice::Create(net("10.0.1.0/24")))
        );
    }
    // Only the first lease of a host counts.
    let leases = vec![lease("10.0.9.0/24", host), lease("10.0.1.0/24", host)];
    assert_eq!(
        SubnetManager::find_held_lease(&config, &leases, Ipv4Addr::from_octets(host)),
        None
    );
}

#[test]
fn a_granted_lease_is_found_again() {
    let config = range("10.0.0.0/16", 24, [10, 0, 1, 0], [10, 0, 9, 0]);
    let host = [192, 168, 0, 7];
    let mut leases = vec![lease("10.0.1.0/24", [1, 1, 1, 1])];
    let sn = match manager().acquire_lease(&config, &leases, &attrs(host)) {
        Ok(LeaseChoice::Create(sn)) => sn,
        other => panic!("{:?}", other),
    };
    let granted = granted_lease(sn, &attrs(host), SystemTime { nanos: 5 });
    assert_eq!(granted.expiration.nanos, 5);
    assert!(granted.enable_ipv4 && !granted.enable_ipv6);
    leases.insert(0, granted.clone());
    assert_eq!(
        manager().acquire_lease(&config, &leases, &attrs(host)),
        Ok(LeaseChoice::Reuse(granted))
    );
}

#[test]
fn a_choice_is_written_with_what_the_host_tells_now() {
    let sm = SubnetManager::new(
        EtcdSubnetRegistry::new(EtcdConfig::from_args("a:1", "/coreos.com/network")),
        None,
        60,
    );
    let mut now = attrs([192, 168, 0, 7]);
    now.backend_type = Some("host-gw".to_string());
    let held = lease("10.0.2.0/24", [192, 168, 0, 7]);
    assert_ne!(held.attrs, now);

    let reuse = LeaseChoice::Reuse(held.clone());
    let (write, told) = sm.write_of(&reuse, &now);
    assert_eq!(write.key, "/coreos.com/network/subnets/10.0.2.0-24");
    assert_eq!(write.ttl, 86_400);
    assert!(!write.if_absent);
    assert_eq!(told, now);
    // The host goes on with the lease as it was listed.
    assert_eq!(SubnetManager::acquired_lease(reuse, &now, SystemTime { nanos: 5 }), held);

    let create = LeaseChoice::Create(net("10.0.3.0/24"));
    let (write, told) = sm.write_of(&create, &now);
    assert_eq!(write.key, "/coreos.com/network/subnets/10.0.3.0-24");
    assert_eq!(write.ttl, 86_400);
    assert!(write.if_absent);
    assert_eq!(told, now);
    let created = SubnetManager::acquired_lease(create, &now, SystemTime { nanos: 5 });
    assert_eq!(created, granted_lease(net("10.0.3.0/24"), &now, SystemTime { nanos: 5 }));
    assert_eq!(created.attrs, now);
    assert_eq!(created.expiration.nanos, 5);
}

#[test]
fn a_range_that_cannot_be_searched_is_told_apart() {
    let host = Ipv4Addr::new(1, 1, 1, 1);
    let config = range("255.255.0.0/16", 24, [255, 255, 254, 0], [255, 255, 255, 0]);
    assert!(!SubnetManager::acquirable(&config, &[], host));
    let mut open = range("10.0.0.0/8", 24, [10, 0, 0, 0], [10, 1, 0, 0]);
    assert!(SubnetManager::acquirable(&open, &[], host));
    open.subnet_max = None;
    assert!(!SubnetManager::acquirable(&open, &[], host));
}

#[test]
fn leases_stay_apart() {
    let config = range("10.0.0.0/16", 24, [10, 0, 1, 0], [10, 0, 9, 0]);
    let mut leases: Vec<Lease> = vec![];
    for i in 0..9u8 {
        let sn = manager().allocate_subnet(&config, &leases).unwrap();
        assert_eq!(sn.network(), sn.ip());
        for other in &leases {
            assert!(!sn.overlaps(other.subnet));
        }
        leases.push(granted_lease(sn, &attrs([192, 168, 0, i]), SystemTime { nanos: 0 }));
    }
    assert_eq!(
        manager().allocate_subnet(&config, &leases),
        Err(FlannelError::NoAvailableSubnets)
    );
}
