use flannel_ng::addr::{Ipv4Addr, Ipv4Network};
use flannel_ng::error::FlannelError;
use flannel_ng::etcd::registry::{EtcdConfig, EtcdSubnetRegistry};
use flannel_ng::subnet::config::Config;
use flannel_ng::subnet::manager::{backend_type_or_default, parse_backend_type, SubnetManager};

fn manager() -> SubnetManager {
    SubnetManager::new(
        EtcdSubnetRegistry::new(EtcdConfig::from_args(
            "198.19.249.101:2379",
            "/coreos.com/network/",
        )),
        None,
        0,
    )
}

fn config(network: Option<&str>, len: u8, min: Option<[u8; 4]>, max: Option<[u8; 4]>) -> Config {
    Config {
        enable_ipv4: true,
        enable_ipv6: false,
        network: network.map(|it| Ipv4Network::parse(it).unwrap()),
        ipv6_network: None,
        subnet_min: min.map(Ipv4Addr::from_octets),
        subnet_max: max.map(Ipv4Addr::from_octets),
        ipv6_subnet_min: None,
        ipv6_subnet_max: None,
        subnet_len: len,
        ipv6_subnet_len: 0,
        backend_type: None,
        backend: None,
    }
}

fn check(mut config: Config) -> (Result<(), FlannelError>, Config) {
    assert!(SubnetManager::can_check(&config));
    let r = manager().check_network_config(&mut config);
    (r, config)
}

#[test]
fn test_parse_backend_type() {
    let config = r#"{
	"Network": "10.0.0.0/8",
	"SubnetLen": 20,
	"SubnetMin": "10.10.0.0",
	"SubnetMax": "10.99.0.0",
	"Backend": {
		"Type": "vxlan",
		"Port": 7890
	}
}"#;

    let config: serde_json::Value = serde_json::from_str(config).unwrap();
    println!("config: {:?}", config);
    let be_type = parse_backend_type(&config.get("Backend").cloned()).unwrap();
    println!("be_type: {}", be_type);
    assert_eq!(be_type, "vxlan");
}

#[test]
fn backend_type_is_udp_where_none_is_named() {
    assert_eq!(parse_backend_type(&None).unwrap(), "udp");
    for text in ["{}", "[]", "\"vxlan\"", "{\"Type\": 1}", "{\"type\": \"vxlan\"}", "null"] {
        let value: serde_json::Value = serde_json::from_str(text).unwrap();
        assert_eq!(parse_backend_type(&Some(value)).unwrap(), "udp");
    }
    assert_eq!(backend_type_or_default(None), "udp");
    assert_eq!(backend_type_or_default(Some("x".to_string())), "x");
}

#[test]
fn test_subnet_manager() {
    let mut sm = manager();
    sm.prev_subnet = None;
    let mut cfg = config(Some("172.17.0.0/16"), 0, None, None);
    cfg.enable_ipv4 = false;
    cfg.backend = Some(serde_json::from_str("{\"Type\": \"host-gw\"}").unwrap());
    let conf = sm.get_network_config(cfg).unwrap();
    println!("conf: {:?}", conf);
    assert!(conf.enable_ipv4);
    assert_eq!(conf.backend_type.as_deref(), Some("host-gw"));
    assert_eq!(conf.subnet_len, 24);
    assert_eq!(conf.subnet_min, Some(Ipv4Addr::new(172, 17, 1, 0)));
    assert_eq!(conf.subnet_max, Some(Ipv4Addr::new(172, 17, 255, 0)));
}

#[test]
fn what_is_given_is_kept() {
    let (r, c) = check(config(
        Some("10.0.0.0/8"),
        20,
        Some([10, 10, 0, 0]),
        Some([10, 99, 0, 0]),
    ));
    assert_eq!(r, Ok(()));
    assert_eq!(c.subnet_len, 20);
    assert_eq!(c.subnet_min, Some(Ipv4Addr::new(10, 10, 0, 0)));
    assert_eq!(c.subnet_max, Some(Ipv4Addr::new(10, 99, 0, 0)));
}

#[test]
fn lengths_are_filled_in() {
    for (network, len) in [
        ("10.0.0.0/22", 24),
        ("10.0.0.0/23", 25),
        ("10.0.0.0/28", 30),
        ("10.0.0.0/8", 24),
    ] {
        let (r, c) = check(config(Some(network), 0, None, None));
        assert_eq!(r, Ok(()));
        assert_eq!(c.subnet_len, len);
    }
}

#[test]
fn bad_configurations_are_refused() {
    let cases = [
        (config(None, 0, None, None), FlannelError::MissingNetwork),
        (config(Some("10.0.0.0/8"), 31, None, None), FlannelError::SubnetLenTooLong),
        (config(Some("10.0.0.0/16"), 17, None, None), FlannelError::TooFewSubnets),
        (config(Some("10.0.0.0/29"), 0, None, None), FlannelError::NetworkTooSmall),
        (
            config(Some("10.0.0.0/16"), 24, Some([10, 1, 0, 0]), None),
            FlannelError::SubnetMinOutOfRange,
        ),
        (
            config(Some("10.0.0.0/16"), 24, None, Some([10, 1, 0, 0])),
            FlannelError::SubnetMaxOutOfRange,
        ),
        (
            config(Some("10.0.0.0/16"), 24, Some([10, 0, 0, 1]), None),
            FlannelError::SubnetMinUnaligned,
        ),
        (
            config(Some("10.0.0.0/16"), 24, None, Some([10, 0, 9, 128])),
            FlannelError::SubnetMaxUnaligned,
        ),
    ];
    for (c, e) in cases {
        assert_eq!(check(c).0, Err(e));
    }
    // The length is filled in before the range is judged.
    let (_, c) = check(config(Some("10.0.0.0/16"), 0, Some([10, 1, 0, 0]), None));
    assert_eq!(c.subnet_len, 24);
    assert_eq!(c.subnet_max, None);
}

#[test]
fn ipv4_can_be_off() {
    let mut c = config(None, 31, None, None);
    c.enable_ipv4 = false;
    let (r, c) = check(c);
    assert_eq!(r, Ok(()));
    assert_eq!(c.subnet_len, 31);
}

#[test]
fn ranges_beyond_the_last_address_cannot_be_checked() {
    assert!(!SubnetManager::can_check(&config(Some("255.255.0.0/16"), 0, None, None)));
    assert!(SubnetManager::can_check(&config(
        Some("255.255.0.0/16"),
        0,
        None,
        Some([255, 255, 255, 0])
    )));
    assert!(!SubnetManager::can_check(&config(Some("0.0.0.0/0"), 0, None, None)));
    let mut v6 = config(Some("10.0.0.0/8"), 0, None, None);
    v6.enable_ipv6 = true;
    assert!(!SubnetManager::can_check(&v6));
    v6.subnet_len = 31;
    assert!(SubnetManager::can_check(&v6));
}

#[test]
fn checking_twice_changes_nothing() {
    let (_, mut c) = check(config(Some("172.17.0.0/16"), 0, None, None));
    assert!(SubnetManager::can_check(&c));
    let before = (c.subnet_len, c.subnet_min, c.subnet_max);
    assert_eq!(manager().check_network_config(&mut c), Ok(()));
    assert_eq!((c.subnet_len, c.subnet_min, c.subnet_max), before);
}

#[test]
fn the_network_of_a_configuration() {
    assert_eq!(
        config(Some("10.0.0.0/8"), 0, None, None).get_flannel_network(),
        Ipv4Network::new(Ipv4Addr::new(10, 0, 0, 0), 8)
    );
    assert_eq!(
        config(None, 0, None, None).get_flannel_network(),
        Err(FlannelError::NoFlannelNetwork)
    );
}
