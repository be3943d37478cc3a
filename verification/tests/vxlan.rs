use flannel_ng::addr::{IpAddr, IpNetwork, Ipv4Addr, Ipv4Network};
use flannel_ng::backend::common::{ExternalInterface, Interface, Network};
use flannel_ng::backend::vxlan::backend::{Vxlan, VxlanConfig};
use flannel_ng::backend::vxlan::device::{
    ensure_vxlan_link, existing_vxlan_link, link_with_mac, vxlan_links_incompat, ExistingLink,
    LinkAddReply, LinkStep, Neighbor, VxlanDevice, VxlanDeviceAttrs,
};
use flannel_ng::backend::vxlan::network::{VxlanLeaseAttrs, VxlanNetwork};
use flannel_ng::error::FlannelError;
use flannel_ng::etcd::events::{EventType, LeaseWatchEvent};
use flannel_ng::etcd::registry::{EtcdConfig, EtcdSubnetRegistry};
use flannel_ng::ip::iface::ensure_v4_addr_on_link;
use flannel_ng::lease::Lease;
use flannel_ng::mac::{new_hardware_addr, MacAddr6};
use flannel_ng::netlink::{Link, LinkKind};
use flannel_ng::subnet::config::Config;
use flannel_ng::subnet::manager::SubnetManager;
use flannel_ng::time::SystemTime;

fn manager() -> SubnetManager {
    SubnetManager::new(EtcdSubnetRegistry::new(EtcdConfig::default()), None, 60)
}

fn ext_iface() -> ExternalInterface {
    ExternalInterface {
        iface: Interface { index: 2, mtu: 1500, name: "eth0".to_string() },
        iface_addr: Ipv4Addr::new(198, 19, 249, 136),
        iface_v6_addr: None,
        ext_addr: None,
        ext_v6_addr: None,
    }
}

fn attrs(vni: u32) -> VxlanDeviceAttrs {
    VxlanDeviceAttrs {
        vni,
        name: "vxlan1".to_string(),
        mtu: 1500,
        vtep_index: 2,
        vtep_addr: IpAddr::V4(Ipv4Addr::new(198, 19, 249, 136)),
        vtep_port: 0,
        gbp: false,
    }
}

fn mac() -> MacAddr6 {
    MacAddr6 { octets: [0x26, 0x7a, 0x56, 0x57, 0xd5, 0x60] }
}

fn device() -> VxlanDevice {
    let mut link = link_with_mac(attrs(1), mac());
    link.link_attrs.index = 9;
    VxlanDevice { link, direct_routing: false }
}

fn lease(subnet: &str, host: u8, backend: Option<&str>, data: Option<&str>) -> Lease {
    let mut lease = Lease::default_at(SystemTime { nanos: 0 });
    lease.enable_ipv4 = true;
    lease.subnet = Ipv4Network::parse(subnet).unwrap();
    lease.attrs.public_ip = Ipv4Addr::new(198, 19, 249, host);
    lease.attrs.backend_type = backend.map(|it| it.to_string());
    lease.attrs.backend_data = data.map(|it| it.to_string());
    lease
}

fn network() -> VxlanNetwork {
    Vxlan::new(manager(), ext_iface()).register_network(
        lease("172.17.43.0/24", 136, Some("vxlan"), None),
        device(),
        1450,
    )
}

fn config(network: Option<&str>, backend: Option<&str>) -> Config {
    Config {
        enable_ipv4: true,
        enable_ipv6: false,
        network: network.map(|it| Ipv4Network::parse(it).unwrap()),
        ipv6_network: None,
        subnet_min: None,
        subnet_max: None,
        ipv6_subnet_min: None,
        ipv6_subnet_max: None,
        subnet_len: 24,
        ipv6_subnet_len: 0,
        backend_type: None,
        backend: backend.map(|it| serde_json::from_str(it).unwrap()),
    }
}

fn vxlan_part(link: &mut Link) -> &mut flannel_ng::netlink::VxlanLink {
    match &mut link.link_kind {
        LinkKind::Vxlan(v) => v,
        LinkKind::Other(_) => unreachable!(),
    }
}

#[test]
fn test_add_fdb() {
    println!(">>>>>>>>>>>>>>>>....");
    let mut dev = VxlanDevice::new(attrs(1), false).unwrap();
    dev.link.link_attrs.index = 9;
    println!("dev: {:?}", dev);
    assert_eq!(dev.link.link_attrs.mtu, 1450);
    assert_eq!(dev.link.link_attrs.name, "vxlan1");

    let plan = ensure_v4_addr_on_link(
        Ipv4Network::parse("172.17.4.0/24").unwrap(),
        Ipv4Network::parse("172.17.0.0/16").unwrap(),
        &[],
    );
    assert!(plan.add);
    let mac = MacAddr6::parse("26:7a:56:57:d5:60").unwrap();
    println!("mac: {:?}", mac);

    let n = dev.add_fdb(Neighbor { ip: Ipv4Addr::new(198, 19, 249, 136), mac });
    assert_eq!(n.link_index, 9);
    assert_eq!(n.family, 7);
    assert_eq!(n.state, 0x80);
    assert_eq!(n.flags, 2);
    assert_eq!(n.type_, 0);
    assert_eq!(n.ip, IpAddr::V4(Ipv4Addr::new(198, 19, 249, 136)));
    assert_eq!(n.hardware_addr.octets, [0x26, 0x7a, 0x56, 0x57, 0xd5, 0x60]);
}

#[test]
fn neighbours_are_resolved() {
    let n = device().add_arp(Neighbor { ip: Ipv4Addr::new(172, 17, 5, 0), mac: mac() });
    assert_eq!(n.link_index, 9);
    assert_eq!(n.family, 0);
    assert_eq!(n.state, 0x80);
    assert_eq!(n.flags, 0);
    assert_eq!(n.type_, 1);
    assert_eq!(n.ip, IpAddr::V4(Ipv4Addr::new(172, 17, 5, 0)));
    assert_eq!(n.hardware_addr, mac());
}

#[test]
fn hardware_addresses_are_read_and_written() {
    assert_eq!(mac().to_text(), "26:7A:56:57:D5:60");
    assert_eq!(MacAddr6::parse("26:7A:56:57:D5:60"), Ok(mac()));
    assert_eq!(MacAddr6::parse("26:7a:56:57:d5:60"), Ok(mac()));
    for text in ["", "26:7a:56:57:d5", "26:7a:56:57:d5:60:00", "zz:7a:56:57:d5:60"] {
        assert_eq!(MacAddr6::parse(text), Err(FlannelError::InvalidMac));
    }
    for byte in 0..=255u8 {
        let m = MacAddr6 { octets: [byte, 0, 255, byte, 16, byte] };
        assert_eq!(MacAddr6::parse(&m.to_text()), Ok(m));
    }
}

#[test]
fn new_hardware_addresses_are_local_and_of_one_host() {
    let mut seen = vec![];
    for _ in 0..50 {
        let m = new_hardware_addr().unwrap();
        assert_eq!(m.octets[0] % 4, 2);
        seen.push(m.to_text());
    }
    seen.dedup();
    assert!(seen.len() > 1);
    for first in 0..=255u8 {
        let m = MacAddr6::local_unicast([first, 1, 2, 3, 4, 5]);
        assert_eq!(m.octets[0], (first & 0xfe) | 0x02);
        assert_eq!(m.octets[1..], [1, 2, 3, 4, 5]);
    }
}

#[test]
fn the_link_of_a_device() {
    let mut link = link_with_mac(attrs(7), mac());
    assert_eq!(link.link_attrs.hardware_addr, Some(mac()));
    assert_eq!(link.link_attrs.mtu, 1450);
    let v = vxlan_part(&mut link);
    assert_eq!(v.vxlan_id, 7);
    assert_eq!(v.vtep_dev_index, 2);
    assert_eq!(v.src_addr, Some(IpAddr::V4(Ipv4Addr::new(198, 19, 249, 136))));
    assert_eq!(v.group, None);
    assert_eq!(v.port, 0);
}

#[test]
fn compatible_links() {
    let link = || link_with_mac(attrs(1), mac());
    assert!(vxlan_links_incompat(&link(), &link()));
    let other = Link {
        link_attrs: link().link_attrs,
        link_kind: LinkKind::Other("bridge".to_string()),
    };
    assert!(!vxlan_links_incompat(&link(), &other));
    assert!(!vxlan_links_incompat(&other, &other));
    assert!(!vxlan_links_incompat(&link(), &link_with_mac(attrs(2), mac())));

    let mut l = link();
    vxlan_part(&mut l).vtep_dev_index = 3;
    assert!(!vxlan_links_incompat(&link(), &l));
    vxlan_part(&mut l).vtep_dev_index = 0;
    assert!(vxlan_links_incompat(&link(), &l));
    assert!(vxlan_links_incompat(&l, &link()));

    let mut l = link();
    vxlan_part(&mut l).src_addr = Some(IpAddr::V4(Ipv4Addr::new(1, 1, 1, 1)));
    assert!(!vxlan_links_incompat(&link(), &l));
    vxlan_part(&mut l).src_addr = None;
    assert!(vxlan_links_incompat(&link(), &l));

    let mut l = link();
    let mut m = link();
    vxlan_part(&mut l).group = Some(IpAddr::V4(Ipv4Addr::new(224, 0, 0, 1)));
    assert!(vxlan_links_incompat(&m, &l));
    vxlan_part(&mut m).group = Some(IpAddr::V4(Ipv4Addr::new(224, 0, 0, 2)));
    assert!(!vxlan_links_incompat(&m, &l));

    let mut l = link();
    vxlan_part(&mut l).l2miss = true;
    assert!(!vxlan_links_incompat(&link(), &l));

    let mut l = link();
    let mut m = link();
    vxlan_part(&mut l).port = 8472;
    assert!(vxlan_links_incompat(&m, &l));
    vxlan_part(&mut m).port = 4789;
    assert!(!vxlan_links_incompat(&m, &l));

    let mut l = link();
    vxlan_part(&mut l).gbp = true;
    assert!(!vxlan_links_incompat(&link(), &l));
}

#[test]
fn a_link_is_made_sure_of() {
    assert_eq!(ensure_vxlan_link(LinkAddReply::Added), LinkStep::LookUp);
    assert_eq!(ensure_vxlan_link(LinkAddReply::AlreadyExists), LinkStep::Compare);
    assert_eq!(ensure_vxlan_link(LinkAddReply::SystemError), LinkStep::LookUp);
    assert_eq!(ensure_vxlan_link(LinkAddReply::OtherError), LinkStep::Fail);
    let wanted = link_with_mac(attrs(1), mac());
    let mut same = link_with_mac(attrs(1), mac());
    same.link_attrs.index = 4;
    let mut other = link_with_mac(attrs(2), mac());
    other.link_attrs.index = 5;
    match existing_vxlan_link(&wanted, Some(same)) {
        Ok(ExistingLink::Keep(link)) => assert_eq!(link.link_attrs.index, 4),
        r => panic!("{:?}", r),
    }
    assert_eq!(existing_vxlan_link(&wanted, Some(other)), Ok(ExistingLink::Replace(5)));
    assert_eq!(existing_vxlan_link(&wanted, None), Err(FlannelError::LinkNotFound));
}

#[test]
fn what_a_configuration_leaves_open() {
    let open = VxlanConfig {
        vxlan_type: "vxlan".to_string(),
        vni: 0,
        port: 0,
        gbp: true,
        direct_routing: false,
        mtu: None,
    };
    let filled = open.with_defaults(1500);
    assert_eq!(filled.vni, 1);
    assert_eq!(filled.port, 8472);
    assert_eq!(filled.mtu, Some(1500));
    assert!(filled.gbp);
    let given = VxlanConfig { vni: 9, port: 4789, mtu: Some(1400), ..filled };
    let kept = given.with_defaults(1500);
    assert_eq!((kept.vni, kept.port, kept.mtu), (9, 4789, Some(1400)));
    let attrs = Vxlan::new(manager(), ext_iface()).device_attrs(&kept);
    assert_eq!(attrs.name, "flannel.9");
    assert_eq!(attrs.vni, 9);
    assert_eq!(attrs.mtu, 1400);
    assert_eq!(attrs.vtep_index, 2);
    assert_eq!(attrs.vtep_addr, IpAddr::V4(Ipv4Addr::new(198, 19, 249, 136)));
    assert_eq!(attrs.vtep_port, 4789);
    assert!(attrs.gbp);
}

#[test]
fn a_device_is_planned_from_a_configuration_as_it_was_read() {
    let read = VxlanConfig {
        vxlan_type: "vxlan".to_string(),
        vni: 0,
        port: 0,
        gbp: true,
        direct_routing: true,
        mtu: None,
    };
    let (attrs, direct_routing) = Vxlan::new(manager(), ext_iface()).plan_device(read);
    assert_eq!(attrs.vni, 1);
    assert_eq!(attrs.name, "flannel.1");
    assert_eq!(attrs.mtu, 1500);
    assert_eq!(attrs.vtep_port, 8472);
    assert_eq!(attrs.vtep_index, 2);
    assert_eq!(attrs.vtep_addr, IpAddr::V4(Ipv4Addr::new(198, 19, 249, 136)));
    assert!(attrs.gbp);
    assert!(direct_routing);
}

#[test]
fn the_backends_part_of_a_configuration() {
    assert_eq!(
        Vxlan::backend_of(&config(None, Some("{\"VNI\": 3}"))).unwrap().to_string(),
        "{\"VNI\":3}"
    );
    assert_eq!(
        Vxlan::backend_of(&config(None, None)).err(),
        Some(FlannelError::BackendNotDefined)
    );
}

#[test]
fn what_a_vxlan_host_tells_the_others() {
    let backend = Vxlan::new(manager(), ext_iface());
    let told = Vxlan::vxlan_lease_attrs(1, mac());
    assert_eq!(told.vni, 1);
    assert_eq!(told.vtep_mac, "26:7A:56:57:D5:60");
    let attrs = backend.lease_attrs("{}".to_string());
    assert_eq!(attrs.public_ip, Ipv4Addr::new(198, 19, 249, 136));
    assert_eq!(attrs.backend_type.as_deref(), Some("vxlan"));
    assert_eq!(attrs.backend_data.as_deref(), Some("{}"));
}

#[test]
fn the_address_of_the_link() {
    let held = lease("172.17.43.1/24", 136, None, None);
    assert_eq!(
        Vxlan::link_addr(&config(Some("172.17.0.0/16"), None), &held),
        Ok((
            Ipv4Network::parse("172.17.43.1/32").unwrap(),
            Ipv4Network::parse("172.17.0.0/16").unwrap(),
        ))
    );
    assert_eq!(
        Vxlan::link_addr(&config(None, None), &held),
        Err(FlannelError::NoFlannelNetwork)
    );
}

#[test]
fn a_vxlan_network() {
    let n = network();
    assert_eq!(n.mtu(), 1500);
    assert_eq!(n.mtu, 1450);
    assert_eq!(n.lease().subnet.to_text(), "172.17.43.0/24");
    let same = VxlanNetwork::new(
        manager(),
        ext_iface(),
        device(),
        lease("172.17.43.0/24", 136, Some("vxlan"), None),
        1450,
    );
    assert_eq!(same.mtu, 1450);
    assert_eq!(same.device.link, n.device.link);
}

#[test]
fn only_vxlan_leases_with_data_are_read() {
    let data = |backend: Option<&str>, data: Option<&str>| {
        let attrs = lease("172.17.5.0/24", 1, backend, data).attrs;
        VxlanNetwork::backend_data_of(&attrs).cloned()
    };
    assert_eq!(data(Some("vxlan"), Some("{}")), Some("{}".to_string()));
    assert_eq!(data(Some("vxlan"), None), None);
    assert_eq!(data(Some("VXLAN"), Some("{}")), None);
    assert_eq!(data(None, Some("{}")), None);
}

#[test]
fn the_kernel_is_told_of_other_hosts() {
    let event = |event_type: EventType| LeaseWatchEvent {
        lease: lease("172.17.5.0/24", 111, Some("vxlan"), Some("{}")),
        event_type,
    };
    let told = VxlanLeaseAttrs { vni: 1, vtep_mac: mac().to_text() };
    let u = network().handle_event(&event(EventType::Put), &told).unwrap().unwrap();
    assert_eq!(u.arp.ip, IpAddr::V4(Ipv4Addr::new(172, 17, 5, 0)));
    assert_eq!(u.arp.hardware_addr, mac());
    assert_eq!(u.fdb.ip, IpAddr::V4(Ipv4Addr::new(198, 19, 249, 111)));
    assert_eq!(u.fdb.hardware_addr, mac());
    assert_eq!(
        u.route.dst,
        Some(IpNetwork::V4(Ipv4Network::parse("172.17.5.0/24").unwrap()))
    );
    assert_eq!(u.route.gw, Some(IpAddr::V4(Ipv4Addr::new(172, 17, 5, 0))));
    assert_eq!(u.route.link_index, 9);
    assert_eq!(u.route.flags, 4);
    assert_eq!(u.route.scope, 0);
    assert_eq!(network().handle_event(&event(EventType::Delete), &told), Ok(None));
    assert_eq!(network().peer_of(&event(EventType::Put), mac()), Some(u));
    let bad = VxlanLeaseAttrs { vni: 1, vtep_mac: "here".to_string() };
    assert_eq!(
        network().handle_event(&event(EventType::Delete), &bad),
        Err(FlannelError::InvalidMac)
    );
}
