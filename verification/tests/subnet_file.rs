use flannel_ng::addr::{Ipv4Addr, Ipv4Network};
use flannel_ng::error::FlannelError;
use flannel_ng::subnet::config::Config;
use flannel_ng::subnet::env::{previous_subnet, read_from_subnet_env, recover_subnet, SubnetEnv};
use flannel_ng::subnet::manager::SubnetManager;

fn config(enable_ipv4: bool) -> Config {
    Config {
        enable_ipv4,
        enable_ipv6: false,
        network: Some(Ipv4Network::parse("172.17.0.0/16").unwrap()),
        ipv6_network: None,
        subnet_min: None,
        subnet_max: None,
        ipv6_subnet_min: None,
        ipv6_subnet_max: None,
        subnet_len: 24,
        ipv6_subnet_len: 0,
        backend_type: None,
        backend: None,
    }
}

#[test]
fn the_subnet_file() {
    let sn = Ipv4Network::parse("172.17.43.0/24").unwrap();
    let text = SubnetManager::write_subnet_file(&config(true), true, sn, 1472);
    assert_eq!(
        text,
        "FLANNEL_NETWORK=172.17.0.0/16\nFLANNEL_SUBNET=172.17.43.1/24\nFLANNEL_MTU=1472\nFLANNEL_IPMASQ=true\n"
    );
    assert_eq!(SubnetManager::write_subnet_file(&config(false), true, sn, 1472), "");
    assert_eq!(SubnetManager::temporary_name("subnet.env"), ".subnet.env");
}

#[test]
fn the_subnet_file_is_read_back() {
    let sn = Ipv4Network::parse("172.17.43.0/24").unwrap();
    let text = SubnetManager::write_subnet_file(&config(true), false, sn, 1472);
    let env = read_from_subnet_env(&text);
    assert_eq!(env.get("FLANNEL_NETWORK"), Some("172.17.0.0/16"));
    assert_eq!(env.get("FLANNEL_SUBNET"), Some("172.17.43.1/24"));
    assert_eq!(env.get("FLANNEL_MTU"), Some("1472"));
    assert_eq!(env.get("FLANNEL_IPMASQ"), Some("false"));
    assert_eq!(env.get("FLANNEL_IPV6"), None);
    assert_eq!(
        recover_subnet(&text),
        Ok(Some(Ipv4Network::new(Ipv4Addr::new(172, 17, 43, 1), 24).unwrap()))
    );
}

#[test]
fn files_of_other_programs() {
    let env = read_from_subnet_env("\n A=1 \r\nnothing\n\n=x\nA=2=3\nB\t=4\n");
    assert_eq!(env.get("A"), Some("2=3"));
    assert_eq!(env.get(""), Some("x"));
    assert_eq!(env.get("B\t"), Some("4"));
    assert_eq!(env.get("nothing"), None);
    assert_eq!(read_from_subnet_env("").get("A"), None);
}

#[test]
fn a_file_without_a_subnet() {
    assert_eq!(recover_subnet(""), Ok(None));
    assert_eq!(recover_subnet("FLANNEL_MTU=1450\n"), Ok(None));
    assert_eq!(
        recover_subnet("FLANNEL_SUBNET=here\n"),
        Err(FlannelError::InvalidNetwork)
    );
}

#[test]
fn later_values_hide_earlier_ones() {
    let mut env = SubnetEnv::new();
    env.insert("FLANNEL_SUBNET".to_string(), "x".to_string());
    env.insert("FLANNEL_SUBNET".to_string(), "10.0.0.1/24".to_string());
    assert_eq!(previous_subnet(&env), Ok(Some(Ipv4Network::parse("10.0.0.1/24").unwrap())));
}
