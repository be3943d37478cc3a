use flannel_ng::addr::{IpNetwork, Ipv4Addr, Ipv4Network};
use flannel_ng::backend::common::{ExternalInterface, Interface, Network};
use flannel_ng::backend::udp::codec::{decrement_ttl, IpSlice};
use flannel_ng::backend::udp::network::{
    configure_tun, get_port_from_config, port_or_default, UdpBackend, UdpNetwork,
};
use flannel_ng::backend::udp::routes::{
    apply_events, find_route, receive_udp_packet, send_udp_packet, RouteEntry,
};
use flannel_ng::error::FlannelError;
use flannel_ng::etcd::events::{EventType, LeaseWatchEvent};
use flannel_ng::etcd::registry::{EtcdConfig, EtcdSubnetRegistry};
use flannel_ng::lease::Lease;
use flannel_ng::subnet::config::Config;
use flannel_ng::subnet::manager::SubnetManager;
use flannel_ng::subnet::watcher::LeaseWatcher;
use flannel_ng::time::SystemTime;

fn packet() -> [u8; 84] {
    [
        0x45, 0x00, 0x00, 0x54, 0x52, 0x83, 0x40, 0x00, 0x3f, 0x01, 0x61, 0x01, 0xac, 0x11,
        0x2b, 0x00, 0xac, 0x11, 0x05, 0x02, 0x08, 0x00, 0x48, 0xef, 0x63, 0x8a, 0x14, 0x83,
        0x17, 0x25, 0x5c, 0x65, 0x00, 0x00, 0x00, 0x00, 0xf6, 0xa5, 0x0e, 0x00, 0x00, 0x00,
        0x00, 0x00, 0x10, 0x11, 0x12, 0x13, 0x14, 0x15, 0x16, 0x17, 0x18, 0x19, 0x1a, 0x1b,
        0x1c, 0x1d, 0x1e, 0x1f, 0x20, 0x21, 0x22, 0x23, 0x24, 0x25, 0x26, 0x27, 0x28, 0x29,
        0x2a, 0x2b, 0x2c, 0x2d, 0x2e, 0x2f, 0x30, 0x31, 0x32, 0x33, 0x34, 0x35, 0x36, 0x37,
    ]
}

fn net(text: &str) -> Ipv4Network {
    Ipv4Network::parse(text).unwrap()
}

fn lease(subnet: &str, host: u8) -> Lease {
    let mut lease = Lease::default_at(SystemTime { nanos: 0 });
    lease.enable_ipv4 = true;
    lease.subnet = net(subnet);
    lease.attrs.public_ip = Ipv4Addr::new(198, 19, 249, host);
    lease
}

fn put(subnet: &str, host: u8) -> LeaseWatchEvent {
    LeaseWatchEvent { lease: lease(subnet, host), event_type: EventType::Put }
}

fn delete(subnet: &str) -> LeaseWatchEvent {
    LeaseWatchEvent { lease: lease(subnet, 0), event_type: EventType::Delete }
}

fn entry(dst: &str, host: u8) -> RouteEntry {
    RouteEntry { dst: net(dst), next_hop: Ipv4Addr::new(198, 19, 249, host) }
}

fn ext_iface() -> ExternalInterface {
    ExternalInterface {
        iface: Interface { index: 2, mtu: 1500, name: "eth0".to_string() },
        iface_addr: Ipv4Addr::new(198, 19, 249, 136),
        iface_v6_addr: None,
        ext_addr: Some(Ipv4Addr::new(198, 19, 249, 136)),
        ext_v6_addr: None,
    }
}

fn manager() -> SubnetManager {
    SubnetManager::new(EtcdSubnetRegistry::new(EtcdConfig::default()), None, 60)
}

fn config(network: Option<&str>, backend: Option<&str>) -> Config {
    Config {
        enable_ipv4: true,
        enable_ipv6: false,
        network: network.map(net),
        ipv6_network: None,
        subnet_min: None,
        subnet_max: None,
        ipv6_subnet_min: None,
        ipv6_subnet_max: None,
        subnet_len: 24,
        ipv6_subnet_len: 0,
        backend_type: None,
        backend: backend.map(|it| serde_json::from_str(it).unwrap()),
    }
}

#[test]
fn test_ip_v4_packet() {
    let mut packet_bytes: [u8; 84] = packet();

    let mut ip_slice = IpSlice { slice: &mut packet_bytes };

    let version = ip_slice.version();
    println!("version: {}", version);
    assert_eq!(version, 4);
    let ttl = ip_slice.ttl();
    println!("ttl: {}", ttl);
    assert_eq!(ttl, 0x3f);
    let ttl_mut = ip_slice.ttl_mut();
    *ttl_mut = 255;
    let ttl = ip_slice.ttl();
    println!("ttl: {}", ttl);
    assert_eq!(ttl, 255);
    let dst_addr = Ipv4Addr::from_octets(ip_slice.destination());
    println!("dst_addr: {}", dst_addr.to_text());
    assert_eq!(dst_addr, Ipv4Addr::new(172, 17, 5, 2));
}

#[test]
fn test_init() {
    let mut l = Lease::default_at(SystemTime { nanos: 0 });
    l.enable_ipv4 = true;
    l.enable_ipv6 = false;
    l.subnet = Ipv4Network::parse("172.17.43.1/24").unwrap();
    let net = Ipv4Network::parse("172.17.0.0/16").unwrap();
    let tun_net = Ipv4Network::new(l.subnet.ip(), net.prefix()).unwrap();
    assert_eq!(tun_net.to_text(), "172.17.43.1/16");
}

#[test]
fn short_packets_are_refused() {
    let mut short = [0x45u8; 19];
    assert_eq!(IpSlice::new(&mut short).err(), Some(FlannelError::PacketTooShort));
    assert_eq!(
        FlannelError::PacketTooShort.message(),
        "ip slice length should be at least 20 bytes"
    );
    let mut just = [0x45u8; 20];
    assert!(IpSlice::new(&mut just).is_ok());
}

#[test]
fn a_hop_changes_the_time_to_live_only() {
    let mut bytes = packet();
    decrement_ttl(&mut IpSlice { slice: &mut bytes });
    let mut expected = packet();
    expected[8] = 0x3e;
    assert_eq!(bytes, expected);
    bytes[8] = 0;
    let before = bytes;
    decrement_ttl(&mut IpSlice { slice: &mut bytes });
    assert_eq!(bytes, before);
}

#[test]
fn routes_are_found_by_their_subnet() {
    let routes = [entry("172.17.43.0/24", 136), entry("172.17.5.0/24", 111)];
    let found = find_route(&routes, Ipv4Addr::new(172, 17, 5, 2)).unwrap();
    assert_eq!(found.next_hop, Ipv4Addr::new(198, 19, 249, 111));
    assert_eq!(found.dst, net("172.17.5.0/24"));
    assert!(find_route(&routes, Ipv4Addr::new(172, 17, 6, 2)).is_none());
    // A destination with host bits leads nowhere.
    assert!(find_route(&[entry("172.17.5.1/24", 1)], Ipv4Addr::new(172, 17, 5, 1)).is_none());
    // The first one is taken.
    let both = [entry("172.17.0.0/16", 1), entry("172.17.5.0/24", 2)];
    assert_eq!(
        find_route(&both, Ipv4Addr::new(172, 17, 5, 2)).unwrap().next_hop,
        Ipv4Addr::new(198, 19, 249, 1)
    );
}

#[test]
fn entries_are_the_same_by_their_destination() {
    assert!(entry("172.17.5.0/24", 1) == entry("172.17.5.0/24", 2));
    assert!(entry("172.17.5.0/24", 1) != entry("172.17.6.0/24", 1));
}

#[test]
fn routes_follow_events() {
    let mut routes = vec![];
    apply_events(&mut routes, &[put("172.17.5.0/24", 1), put("172.17.6.0/24", 2)]);
    assert_eq!(routes, vec![entry("172.17.5.0/24", 1), entry("172.17.6.0/24", 2)]);
    apply_events(&mut routes, &[put("172.17.5.0/24", 9)]);
    assert_eq!(routes.len(), 3);
    assert_eq!(routes[0].next_hop, Ipv4Addr::new(198, 19, 249, 9));
    assert_eq!(routes[2].next_hop, Ipv4Addr::new(198, 19, 249, 9));
    assert_eq!(routes[1].next_hop, Ipv4Addr::new(198, 19, 249, 2));
    apply_events(&mut routes, &[delete("172.17.5.0/24")]);
    assert_eq!(routes, vec![entry("172.17.6.0/24", 2)]);
    apply_events(&mut routes, &[]);
    assert_eq!(routes.len(), 1);
}

#[test]
fn packets_go_to_the_host_that_holds_their_destination() {
    let own = lease("172.17.43.0/24", 136);
    let mut watcher = LeaseWatcher { own_lease: &own, leases: vec![] };
    let mut routes = vec![];
    let first = watcher.reset(&[
        lease("172.17.43.0/24", 136),
        lease("172.17.5.0/24", 111),
        lease("172.17.6.0/24", 112),
    ]);
    apply_events(&mut routes, &first);
    let hop = |routes: &[RouteEntry], c: u8| {
        find_route(routes, Ipv4Addr::new(172, 17, c, 2)).map(|it| it.next_hop)
    };
    assert_eq!(hop(&routes, 5), Some(Ipv4Addr::new(198, 19, 249, 111)));
    assert_eq!(hop(&routes, 6), Some(Ipv4Addr::new(198, 19, 249, 112)));
    assert_eq!(hop(&routes, 43), None);
    let news = watcher.update(&[
        put("172.17.5.0/24", 200),
        delete("172.17.6.0/24"),
        put("172.17.7.0/24", 113),
        put("172.17.43.0/24", 99),
    ]);
    apply_events(&mut routes, &news);
    assert_eq!(hop(&routes, 5), Some(Ipv4Addr::new(198, 19, 249, 200)));
    assert_eq!(hop(&routes, 6), None);
    assert_eq!(hop(&routes, 7), Some(Ipv4Addr::new(198, 19, 249, 113)));
    assert_eq!(hop(&routes, 43), None);
}

#[test]
fn packets_of_the_tunnel() {
    let routes = [entry("172.17.5.0/24", 111)];
    let mut bytes = packet();
    assert_eq!(
        send_udp_packet(&mut bytes, &routes),
        Ok(Some("198.19.249.111:8285".to_string()))
    );
    assert_eq!(bytes[8], 0x3e);
    let mut unrouted = packet();
    assert_eq!(send_udp_packet(&mut unrouted, &[]), Ok(None));
    assert_eq!(unrouted, packet());
    let mut v6 = packet();
    v6[0] = 0x60;
    assert_eq!(send_udp_packet(&mut v6, &routes), Ok(None));
    assert_eq!(v6[8], 0x3f);
    assert_eq!(
        send_udp_packet(&mut [0x45u8; 19], &routes),
        Err(FlannelError::PacketTooShort)
    );
}

#[test]
fn packets_of_other_hosts() {
    let mut bytes = packet();
    assert_eq!(receive_udp_packet(&mut bytes), Ok(()));
    assert_eq!(bytes[8], 0x3e);
    assert_eq!(receive_udp_packet(&mut [0u8; 3]), Err(FlannelError::PacketTooShort));
}

#[test]
fn the_port_of_a_configuration() {
    for (backend, port) in [
        (None, 8285),
        (Some("{\"Type\": \"udp\", \"Port\": 7890}"), 7890),
        (Some("{\"Port\": 65537}"), 1),
        (Some("{\"Port\": \"7890\"}"), 8285),
        (Some("{\"Port\": -1}"), 8285),
        (Some("{}"), 8285),
        (Some("7"), 8285),
    ] {
        assert_eq!(get_port_from_config(&config(None, backend)), port);
    }
    assert_eq!(port_or_default(None), 8285);
    assert_eq!(port_or_default(Some(65536 + 9)), 9);
}

#[test]
fn a_network_is_registered() {
    let backend = UdpBackend::new(manager(), ext_iface());
    let attrs = backend.lease_attrs();
    assert_eq!(attrs.public_ip, Ipv4Addr::new(198, 19, 249, 136));
    assert_eq!(attrs.backend_type, None);
    let n = backend
        .register_network(
            &config(Some("172.17.0.0/16"), Some("{\"Port\": 7890}")),
            lease("172.17.43.0/24", 136),
        )
        .unwrap();
    assert_eq!(n.tun_net, net("172.17.43.0/16"));
    assert_eq!(n.port, 7890);
    assert_eq!(n.mtu(), 1472);
    assert_eq!(*n.lease(), lease("172.17.43.0/24", 136));
    assert_eq!(n.bind_addr(), "198.19.249.136:7890");
    assert_eq!(
        UdpBackend::new(manager(), ext_iface())
            .register_network(&config(None, None), lease("172.17.43.0/24", 136))
            .err(),
        Some(FlannelError::NoFlannelNetwork)
    );
    let direct =
        UdpNetwork::new(manager(), ext_iface(), 1, net("10.0.0.1/8"), lease("10.0.0.0/24", 1));
    assert_eq!(direct.tun_net, net("10.0.0.1/8"));
}

#[test]
fn a_tunnel_is_set_up() {
    let plan = configure_tun(7, net("172.17.43.1/16"));
    assert_eq!(plan.local, net("172.17.43.1/32"));
    assert_eq!(plan.route.dst, Some(IpNetwork::V4(net("172.17.0.0/16"))));
    assert_eq!(plan.route.link_index, 7);
    assert_eq!(plan.route.gw, None);
    assert_eq!(plan.route.flags, 0);
    assert_eq!(plan.route.scope, 0);
}
