use flannel_ng::addr::{
    is_aligned, size_of_block, Add, IpNetwork, Ipv4Addr, Ipv4Network, Ipv4NetworkIterator,
    Ipv6Addr, Ipv6Network, Sub,
};
use flannel_ng::error::FlannelError;

fn net(text: &str) -> Ipv4Network {
    Ipv4Network::parse(text).unwrap()
}

#[test]
fn test_next_network() {
    let n: Ipv4Network = Ipv4Network::parse("172.17.0.0/16").unwrap();
    let next_network = n.next_network();
    println!("next_network: {:?}", next_network);
    assert_eq!(next_network, Some(net("172.18.0.0/16")));
}

#[test]
fn a_single_address_has_no_successor() {
    assert_eq!(net("10.0.0.1/32").next_network(), None);
    assert_eq!(net("10.0.0.4/30").next_network(), Some(net("10.0.0.8/30")));
    // Host bits stay.
    assert_eq!(net("10.0.0.5/30").next_network(), Some(net("10.0.0.9/30")));
}

#[test]
fn successor_does_not_overlap() {
    let n = net("172.17.43.0/24");
    let next = n.next_network().unwrap();
    assert!(!n.overlaps(next));
    assert!(!n.contains(next.ip()));
    assert!(n.contains(next.ip().sub(1)));
}

#[test]
fn addresses_move() {
    let a = Ipv4Addr::new(172, 17, 255, 255);
    assert_eq!(a.add(1), Ipv4Addr::new(172, 18, 0, 0));
    assert_eq!(a.add(1).sub(1), a);
    assert_eq!(Ipv4Addr::new(0, 0, 0, 0).add(u32::MAX), Ipv4Addr::new(255, 255, 255, 255));
}

#[test]
fn octets_make_an_address() {
    assert_eq!(Ipv4Addr::from_octets([0xac, 0x11, 0x05, 0x02]), Ipv4Addr::new(172, 17, 5, 2));
    assert_eq!(Ipv4Addr::new(172, 17, 5, 2).bits, 0xac11_0502);
}

#[test]
fn address_classes_agree_with_std() {
    let samples = [
        0u32, 1, 0x00ff_ffff, 0x7eff_ffff, 0x7f00_0000, 0x7f00_0001, 0x7fff_ffff, 0x8000_0000,
        0xa9fd_ffff, 0xa9fe_0000, 0xa9fe_ffff, 0xa9ff_0000, 0xdfff_ffff, 0xe000_0000, 0xefff_ffff,
        0xf000_0000, 0xffff_fffe, 0xffff_ffff, 0x0a00_0001, 0xc0a8_0101,
    ];
    for bits in samples {
        let ours = Ipv4Addr { bits };
        let std = ipnetwork::Ipv4Network::new(bits.into(), 32).unwrap().ip();
        assert_eq!(ours.is_unspecified(), std.is_unspecified());
        assert_eq!(ours.is_broadcast(), std.is_broadcast());
        assert_eq!(ours.is_loopback(), std.is_loopback());
        assert_eq!(ours.is_multicast(), std.is_multicast());
        assert_eq!(ours.is_link_local(), std.is_link_local());
        assert_eq!(ours.to_text(), std.to_string());
    }
}

#[test]
fn networks_are_read_and_written() {
    let n = net("172.17.43.1/24");
    assert_eq!(n.ip(), Ipv4Addr::new(172, 17, 43, 1));
    assert_eq!(n.prefix(), 24);
    assert_eq!(n.to_text(), "172.17.43.1/24");
    for text in ["0.0.0.0/0", "255.255.255.255/32", "10.9.8.7/6", "100.200.30.4/31"] {
        assert_eq!(net(text).to_text(), text);
    }
    // Without a prefix length, a single address.
    assert_eq!(net("10.0.0.1"), Ipv4Network::host(Ipv4Addr::new(10, 0, 0, 1)));
}

#[test]
fn bad_networks_are_refused() {
    for text in ["", "10.0.0.0/33", "10.0.0/8", "10.0.0.256/8", "ten/8", "10.0.0.0/x"] {
        assert_eq!(Ipv4Network::parse(text), Err(FlannelError::InvalidNetwork));
    }
    for text in ["", "abcd::/129", "10.0.0.0/8", "abcg::/64"] {
        assert_eq!(Ipv6Network::parse(text), Err(FlannelError::InvalidNetwork));
    }
    assert_eq!(
        Ipv4Network::new(Ipv4Addr { bits: 0 }, 33),
        Err(FlannelError::InvalidPrefix)
    );
    assert_eq!(
        Ipv6Network::new(Ipv6Addr { bits: 0 }, 129),
        Err(FlannelError::InvalidPrefix)
    );
    assert!(Ipv4Network::new(Ipv4Addr { bits: 0 }, 32).is_ok());
    assert!(Ipv6Network::new(Ipv6Addr { bits: 0 }, 128).is_ok());
}

#[test]
fn ipv6_networks_are_read() {
    let n = Ipv6Network::parse("abcd:ef01:2345:6789:abcd:ef01:2345:6789/64").unwrap();
    assert_eq!(n.ip(), Ipv6Addr { bits: 0xabcd_ef01_2345_6789_abcd_ef01_2345_6789 });
    assert_eq!(n.prefix(), 64);
    assert_eq!(n, Ipv6Network::new(n.ip(), 64).unwrap());
    assert_ne!(IpNetwork::V6(n), IpNetwork::V4(Ipv4Network::everything()));
}

#[test]
fn lowest_address_of_a_network() {
    assert_eq!(net("172.17.43.1/16").network(), Ipv4Addr::new(172, 17, 0, 0));
    assert_eq!(net("172.17.43.9/30").network(), Ipv4Addr::new(172, 17, 43, 8));
    assert_eq!(net("172.17.43.9/32").network(), Ipv4Addr::new(172, 17, 43, 9));
    assert_eq!(net("172.17.43.9/0").network(), Ipv4Addr::new(0, 0, 0, 0));
}

#[test]
fn a_network_holds_a_range() {
    let n = net("172.17.43.77/24");
    assert!(n.contains(Ipv4Addr::new(172, 17, 43, 0)));
    assert!(n.contains(Ipv4Addr::new(172, 17, 43, 255)));
    assert!(!n.contains(Ipv4Addr::new(172, 17, 42, 255)));
    assert!(!n.contains(Ipv4Addr::new(172, 17, 44, 0)));
    assert!(Ipv4Network::everything().contains(Ipv4Addr::new(255, 255, 255, 255)));
}

#[test]
fn overlap_is_a_common_address() {
    assert!(net("10.0.0.0/8").overlaps(net("10.1.2.3/32")));
    assert!(net("10.1.2.3/32").overlaps(net("10.0.0.0/8")));
    assert!(net("10.1.2.9/24").overlaps(net("10.1.2.200/25")));
    assert!(!net("10.1.2.0/25").overlaps(net("10.1.2.128/25")));
    assert!(!net("10.1.2.0/24").overlaps(net("10.1.3.0/24")));
    assert!(net("0.0.0.0/0").overlaps(net("10.1.3.0/24")));
}

#[test]
fn blocks_and_alignment() {
    assert_eq!(size_of_block(24), 256);
    assert_eq!(size_of_block(32), 1);
    assert_eq!(size_of_block(1), 0x8000_0000);
    assert!(is_aligned(Ipv4Addr::new(10, 0, 1, 0), 24));
    assert!(!is_aligned(Ipv4Addr::new(10, 0, 1, 1), 24));
    assert!(!is_aligned(Ipv4Addr::new(10, 0, 0, 128), 24));
    assert!(is_aligned(Ipv4Addr::new(10, 0, 0, 128), 25));
    assert!(is_aligned(Ipv4Addr::new(10, 0, 0, 129), 32));
}
