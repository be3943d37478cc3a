use flannel_ng::addr::{IpAddr, IpNetwork, Ipv4Addr, Ipv4Network};
use flannel_ng::backend::common::{ExternalInterface, Interface, Network};
use flannel_ng::backend::hostgw::backend::HostGw;
use flannel_ng::backend::hostgw::router_network::{RouteAction, RouterNetwork};
use flannel_ng::backend::manager::{BackendManager, SelectedBackend};
use flannel_ng::error::FlannelError;
use flannel_ng::etcd::events::{EventType, LeaseWatchEvent};
use flannel_ng::etcd::registry::{EtcdConfig, EtcdSubnetRegistry};
use flannel_ng::lease::Lease;
use flannel_ng::netlink::{Route, RTNH_F_ONLINK};
use flannel_ng::subnet::manager::SubnetManager;
use flannel_ng::time::SystemTime;

fn manager() -> SubnetManager {
    SubnetManager::new(EtcdSubnetRegistry::new(EtcdConfig::default()), None, 60)
}

fn ext_iface(public: Option<Ipv4Addr>) -> ExternalInterface {
    ExternalInterface {
        iface: Interface { index: 2, mtu: 1500, name: "eth0".to_string() },
        iface_addr: Ipv4Addr::new(198, 19, 249, 136),
        iface_v6_addr: None,
        ext_addr: public,
        ext_v6_addr: None,
    }
}

fn own() -> Option<Ipv4Addr> {
    Some(Ipv4Addr::new(198, 19, 249, 136))
}

fn lease(subnet: &str, host: u8, backend: Option<&str>) -> Lease {
    let mut lease = Lease::default_at(SystemTime { nanos: 0 });
    lease.enable_ipv4 = true;
    lease.subnet = Ipv4Network::parse(subnet).unwrap();
    lease.attrs.public_ip = Ipv4Addr::new(198, 19, 249, host);
    lease.attrs.backend_type = backend.map(|it| it.to_string());
    lease
}

fn network() -> RouterNetwork {
    HostGw::new(manager(), ext_iface(own()))
        .unwrap()
        .register_network(lease("172.17.43.0/24", 136, Some("host-gw")))
}

fn route(subnet: &str, host: u8) -> Route {
    Route {
        dst: Some(IpNetwork::V4(Ipv4Network::parse(subnet).unwrap())),
        gw: Some(IpAddr::V4(Ipv4Addr::new(198, 19, 249, host))),
        link_index: 2,
        flags: RTNH_F_ONLINK,
        scope: 0,
    }
}

fn event(subnet: &str, host: u8, backend: Option<&str>, event_type: EventType) -> LeaseWatchEvent {
    LeaseWatchEvent { lease: lease(subnet, host, backend), event_type }
}

#[test]
fn the_public_address_has_to_be_the_interfaces_own() {
    assert!(HostGw::new(manager(), ext_iface(own())).is_ok());
    for public in [None, Some(Ipv4Addr::new(1, 2, 3, 4))] {
        assert_eq!(
            HostGw::new(manager(), ext_iface(public)).err(),
            Some(FlannelError::PublicIpDiffers)
        );
    }
}

#[test]
fn a_router_network_is_registered() {
    let attrs = HostGw::new(manager(), ext_iface(own())).unwrap().lease_attrs();
    assert_eq!(attrs.backend_type.as_deref(), Some("host-gw"));
    assert_eq!(Some(attrs.public_ip), own());
    let n = network();
    assert_eq!(n.mtu(), 1500);
    assert_eq!(n.link_index, 2);
    assert_eq!(n.backend_type, "host-gw");
    assert!(n.routes.is_empty());
    assert_eq!(*n.lease(), lease("172.17.43.0/24", 136, Some("host-gw")));
    assert_eq!(n.get_route(&lease("172.17.5.0/24", 111, None)), route("172.17.5.0/24", 111));
}

#[test]
fn events_of_other_backends_are_ignored() {
    let mut n = network();
    n.route_add(route("172.17.5.0/24", 111));
    for backend in [None, Some("vxlan"), Some("Host-GW")] {
        for event_type in [EventType::Put, EventType::Delete] {
            assert_eq!(
                n.handle_event(&event("172.17.5.0/24", 111, backend, event_type)),
                RouteAction::Ignore
            );
        }
    }
    assert_eq!(n.routes.len(), 1);
}

#[test]
fn routes_are_added_and_deleted() {
    let mut n = network();
    let put = event("172.17.5.0/24", 111, Some("host-gw"), EventType::Put);
    assert_eq!(n.handle_event(&put), RouteAction::Add(route("172.17.5.0/24", 111)));
    n.route_add(route("172.17.5.0/24", 111));
    n.route_add(route("172.17.6.0/24", 112));
    let delete = event("172.17.5.0/24", 111, Some("host-gw"), EventType::Delete);
    assert_eq!(n.handle_event(&delete), RouteAction::Delete(route("172.17.5.0/24", 111)));
    assert_eq!(n.routes, vec![route("172.17.6.0/24", 112)]);
}

#[test]
fn stale_routes_give_way() {
    let wanted = route("172.17.5.0/24", 111);
    let stale = route("172.17.5.0/24", 99);
    assert_eq!(RouterNetwork::stale_route(&[stale], &wanted), Some(stale));
    assert_eq!(RouterNetwork::stale_route(&[wanted, stale], &wanted), None);
    assert_eq!(RouterNetwork::stale_route(&[], &wanted), None);
    assert!(RouterNetwork::must_add(&[], &wanted));
    assert!(RouterNetwork::must_add(&[stale, wanted], &wanted));
    assert!(!RouterNetwork::must_add(&[wanted], &wanted));
    let mut n = network();
    n.route_add(stale);
    n.route_add(wanted);
    n.route_deleted(&stale);
    assert_eq!(n.routes, vec![wanted]);
}

#[test]
fn backends_are_chosen_by_name() {
    for name in ["vxlan", "VXLAN", "VxLan"] {
        let chosen = BackendManager::new(manager(), ext_iface(own())).get_backend(name);
        assert!(matches!(chosen, Ok(SelectedBackend::Vxlan(_))));
    }
    for name in ["udp", "UDP"] {
        match BackendManager::new(manager(), ext_iface(own())).get_backend(name) {
            Ok(SelectedBackend::Udp(udp)) => assert_eq!(udp.ext_iface, ext_iface(own())),
            other => panic!("{:?}", other),
        }
    }
    for name in ["host-gw", "Host-GW", "HOST-GW"] {
        match BackendManager::new(manager(), ext_iface(own())).get_backend(name) {
            Ok(SelectedBackend::HostGw(hostgw)) => {
                assert_eq!(hostgw.ext_iface, ext_iface(own()));
                assert_eq!(hostgw.subnet_manager.subnet_lease_renew_margin, 60);
            }
            other => panic!("{:?}", other),
        }
        for public in [None, Some(Ipv4Addr::new(1, 2, 3, 4))] {
            let chosen = BackendManager::new(manager(), ext_iface(public)).get_backend(name);
            assert_eq!(chosen.err(), Some(FlannelError::PublicIpDiffers));
        }
    }
    // The other backends take any public address.
    let chosen = BackendManager::new(manager(), ext_iface(None)).get_backend("udp");
    assert!(matches!(chosen, Ok(SelectedBackend::Udp(_))));
    for name in ["hostgw", "host_gw", "", "udp "] {
        let chosen = BackendManager::new(manager(), ext_iface(own())).get_backend(name);
        assert_eq!(chosen.err(), Some(FlannelError::BackendNotDefined));
    }
}
