use flannel_ng::addr::{Ipv4Addr, Ipv4Network, Ipv6Addr};
use flannel_ng::error::FlannelError;
use flannel_ng::etcd::events::{EventType, LeaseWatchEvent};
use flannel_ng::etcd::key::{
    config_key, extract_ip_and_subnet, networks_from_groups, subnet_key, subnets_key,
};
use flannel_ng::etcd::registry::{
    kv_to_ip_lease, make_lease, put_event, read_lease, step_for, EtcdConfig, EtcdSubnetRegistry,
    KeyValue, SubnetRecord, TxnOutcome, WatchAction, WatchStep, WriteEnd,
};
use flannel_ng::lease::{Lease, LeaseAttrs};
use flannel_ng::time::SystemTime;

const NOW: SystemTime = SystemTime { nanos: 1_000 };

fn net(text: &str) -> Ipv4Network {
    Ipv4Network::parse(text).unwrap()
}

fn attrs(host: u8) -> LeaseAttrs {
    let mut attrs = LeaseAttrs::default();
    attrs.public_ip = Ipv4Addr::new(198, 19, 249, host);
    attrs
}

fn kv(key: &str, host: u8) -> KeyValue {
    KeyValue { key: Some(key.to_string()), attrs: Some(attrs(host)) }
}

fn registry() -> EtcdSubnetRegistry {
    EtcdSubnetRegistry::new(EtcdConfig::from_args("198.19.249.101:2379", "/coreos.com/network/"))
}

fn lease(subnet: &str, host: u8, secs: i128) -> Lease {
    let mut lease = Lease::default_at(SystemTime { nanos: 1_000 + secs * 1_000_000_000 });
    lease.enable_ipv4 = true;
    lease.subnet = net(subnet);
    lease.attrs = attrs(host);
    lease
}

#[test]
fn test_extract_ip_and_subnet() {
    let (ip, ipv6) = extract_ip_and_subnet("coreos.com/network/subnets/172.17.43.0-24").unwrap();
    println!("ip: {:?}, ipv6: {:?}", ip, ipv6);
    assert_eq!(ip, net("172.17.43.0/24"));
    assert_eq!(ipv6, None);
    let (ip, ipv6) = extract_ip_and_subnet(
        "coreos.com/network/subnets/172.17.43.0-24&abcd:ef01:2345:6789:abcd:ef01:2345:6789-64",
    )
    .unwrap();
    println!("ip: {:?}, ipv6: {:?}", ip, ipv6);
    assert_eq!(ip, net("172.17.43.0/24"));
    let v6 = ipv6.unwrap();
    assert_eq!(v6.ip(), Ipv6Addr { bits: 0xabcd_ef01_2345_6789_abcd_ef01_2345_6789 });
    assert_eq!(v6.prefix(), 64);
}

#[test]
fn keys_that_name_no_subnet() {
    for key in ["", "config", "a/172.17.43.0", "a/172.17.43.0-24x", "a/172.17.43.0-24/"] {
        assert_eq!(extract_ip_and_subnet(key), Err(FlannelError::InvalidSubnetKey));
    }
    for key in ["a/172.17.43.999-24", "a/172.17.43.0-99", "a/172.17.43.0-24&:::-64"] {
        assert_eq!(extract_ip_and_subnet(key), Err(FlannelError::InvalidNetwork));
    }
}

#[test]
fn groups_of_a_match() {
    let group = |text: &str| Some(text.to_string());
    assert_eq!(
        networks_from_groups(&vec![group("x"), group("10.1.0.0"), group("16"), None, None]),
        Ok((net("10.1.0.0/16"), None))
    );
    assert_eq!(
        networks_from_groups(&vec![group("x"), group("10.1.0.0"), group("16")]),
        Err(FlannelError::InvalidSubnetKey)
    );
    assert_eq!(
        networks_from_groups(&vec![group("x"), None, group("16"), None, None]),
        Err(FlannelError::InvalidSubnetKey)
    );
    assert_eq!(
        networks_from_groups(&vec![
            group("x"),
            group("10.1.0.0"),
            group("16"),
            group(""),
            group("64"),
        ]),
        Ok((net("10.1.0.0/16"), None))
    );
}

#[test]
fn keys_are_read_back() {
    assert_eq!(config_key("/coreos.com/network"), "/coreos.com/network/config");
    assert_eq!(subnets_key("/coreos.com/network/"), "/coreos.com/network/subnets");
    let sn = net("172.17.43.0/24");
    assert_eq!(
        subnet_key("/coreos.com/network", sn),
        "/coreos.com/network/subnets/172.17.43.0-24"
    );
    for prefix in ["/coreos.com/network", "", "1.2.3.4-5", "9.9/8.8-7/", "x\n1.1.1.1-1"] {
        for sn in [sn, net("0.0.0.0/0"), net("255.255.255.255/32"), net("1.2.3.4/5")] {
            assert_eq!(extract_ip_and_subnet(&subnet_key(prefix, sn)), Ok((sn, None)));
        }
    }
}

#[test]
fn endpoints_are_split_at_commas() {
    let cfg = EtcdConfig::from_args("http://a:2379,http://b:2379", "/p");
    assert_eq!(cfg.endpoints, vec!["http://a:2379", "http://b:2379"]);
    assert_eq!(cfg.prefix, "/p");
    assert_eq!(cfg.username, "");
    assert!(EtcdConfig::default().endpoints.is_empty());
    assert_eq!(cfg.clone().endpoints, cfg.endpoints);
}

#[test]
fn test_get_network_config() {
    let etcd_subnet_registry = registry();
    assert_eq!(etcd_subnet_registry.config_key(), "/coreos.com/network/config");
    assert_eq!(etcd_subnet_registry.subnets_key(), "/coreos.com/network/subnets");
    let config = EtcdSubnetRegistry::get_network_config(Some("{}".to_string()));
    println!("{}", config);
    assert_eq!(config, "{}");
    assert_eq!(EtcdSubnetRegistry::get_network_config(None), "");
    let (leases, revision) = EtcdSubnetRegistry::get_subnets(&[], Some(9));
    println!("{:?}", leases);
    println!("{:?}", revision);
    assert!(leases.is_empty());
    assert_eq!(revision, 0);
}

#[test]
fn a_value_makes_a_lease() {
    let sn = net("172.17.43.0/24");
    let stored = kv(&registry().subnet_key(sn), 7);
    assert_eq!(kv_to_ip_lease(&stored, 60, NOW), Ok(lease("172.17.43.0/24", 7, 60)));
    assert_eq!(read_lease(&stored, 60, NOW), Some(Ok(lease("172.17.43.0/24", 7, 60))));
    // A negative time to live is a very long one.
    assert_eq!(read_lease(&stored, -1, NOW), None);
    let v6 = kv("s/172.17.43.0-24&abcd::-64", 7);
    let both = kv_to_ip_lease(&v6, 0, NOW).unwrap();
    assert!(both.enable_ipv6);
    assert_eq!(both.ipv6_subnet.unwrap().prefix(), 64);
    let no_attrs = KeyValue { key: Some(registry().subnet_key(sn)), attrs: None };
    assert_eq!(kv_to_ip_lease(&no_attrs, 60, NOW), Err(FlannelError::InvalidAttrs));
    let no_key = KeyValue { key: None, attrs: Some(attrs(7)) };
    assert_eq!(kv_to_ip_lease(&no_key, 60, NOW), Err(FlannelError::InvalidKey));
    assert_eq!(no_key.extract(), Err(FlannelError::InvalidKey));
    assert_eq!(
        make_lease(sn, None, &None, 60, NOW),
        Err(FlannelError::InvalidAttrs)
    );
}

#[test]
fn one_subnet_is_read() {
    let found = Some(kv("s/172.17.43.0-24", 7));
    assert_eq!(
        EtcdSubnetRegistry::get_subnet(&found, 60, NOW, Some(5)),
        Ok(Some((lease("172.17.43.0/24", 7, 60), 5)))
    );
    assert_eq!(
        EtcdSubnetRegistry::read_subnet(&found, 60, NOW, None),
        Some(Ok(Some((lease("172.17.43.0/24", 7, 60), 0))))
    );
    assert_eq!(EtcdSubnetRegistry::read_subnet(&found, -5, NOW, None), None);
    assert_eq!(EtcdSubnetRegistry::get_subnet(&None, 60, NOW, Some(5)), Ok(None));
    assert_eq!(
        EtcdSubnetRegistry::get_subnet(&Some(kv("nothing", 7)), 60, NOW, Some(5)),
        Err(FlannelError::InvalidSubnetKey)
    );
}

#[test]
fn test_leases_watch_reset() {
    let records = vec![
        SubnetRecord { kv: kv("s/172.17.43.0-24", 1), ttl: Some(60), now: NOW },
        SubnetRecord { kv: kv("s/172.17.44.0-24", 2), ttl: None, now: NOW },
        SubnetRecord { kv: kv("s/172.17.45.0-24", 3), ttl: Some(61), now: NOW },
    ];
    let (leases, index) = EtcdSubnetRegistry::read_subnets(&records, Some(9)).unwrap();
    let result = EtcdSubnetRegistry::leases_watch_reset(leases, index);
    println!("{:#?}", result);
    assert_eq!(
        result.snapshot,
        vec![lease("172.17.43.0/24", 1, 60), lease("172.17.45.0/24", 3, 61)]
    );
    assert!(result.events.is_empty());
    assert_eq!(result.cursor, 9);
    assert_eq!(EtcdSubnetRegistry::read_subnets(&records, None).unwrap().1, 0);
}

#[test]
fn records_that_are_no_leases() {
    let bad = vec![SubnetRecord { kv: kv("nothing", 1), ttl: Some(60), now: NOW }];
    assert!(EtcdSubnetRegistry::read_subnets(&bad, Some(9)).is_none());
    let unknown = vec![SubnetRecord { kv: kv("nothing", 1), ttl: None, now: NOW }];
    assert_eq!(EtcdSubnetRegistry::read_subnets(&unknown, Some(9)), Some((vec![], 9)));
}

#[test]
fn watch_events_are_understood() {
    let put = EtcdSubnetRegistry::parse_subnet_watch_resp(
        &Some(kv("s/172.17.43.0-24", 1)),
        EventType::Put,
        NOW,
    );
    match put {
        Ok(WatchStep::AskTtl(sn, asked)) => {
            assert_eq!(sn, net("172.17.43.0/24"));
            assert_eq!(asked, attrs(1));
        }
        other => panic!("{:?}", other),
    }
    let delete = EtcdSubnetRegistry::parse_subnet_watch_resp(
        &Some(KeyValue { key: Some("s/172.17.43.0-24".to_string()), attrs: None }),
        EventType::Delete,
        NOW,
    );
    match delete {
        Ok(WatchStep::Report(e)) => {
            assert_eq!(e.event_type, EventType::Delete);
            assert_eq!(e.lease.subnet, net("172.17.43.0/24"));
            assert!(e.lease.enable_ipv4);
            assert_eq!(e.lease.attrs, LeaseAttrs::default());
            assert_eq!(e.lease.expiration, NOW);
        }
        other => panic!("{:?}", other),
    }
    assert_eq!(
        EtcdSubnetRegistry::parse_subnet_watch_resp(&None, EventType::Put, NOW).err(),
        Some(FlannelError::InvalidKv)
    );
    assert_eq!(
        step_for(Ok((net("10.0.0.0/8"), None)), &None, EventType::Put, NOW).err(),
        Some(FlannelError::InvalidAttrs)
    );
    assert_eq!(
        step_for(Err(FlannelError::InvalidKey), &None, EventType::Delete, NOW).err(),
        Some(FlannelError::InvalidKey)
    );
}

#[test]
fn written_leases_are_reported_unless_expired() {
    let e = put_event(net("172.17.43.0/24"), attrs(1), 60, NOW).unwrap();
    assert_eq!(e.event_type, EventType::Put);
    assert_eq!(e.lease, lease("172.17.43.0/24", 1, 60));
    assert_eq!(put_event(net("172.17.43.0/24"), attrs(1), -1, NOW), None);
    assert!(put_event(net("172.17.43.0/24"), attrs(1), 0, NOW).is_some());
}

#[test]
fn test_watch_subnets() {
    let event = |host: u8| LeaseWatchEvent {
        lease: lease("172.17.43.0/24", host, 60),
        event_type: EventType::Put,
    };
    let request = registry().watch_subnets_request(3);
    assert_eq!(request.key, "/coreos.com/network/subnets");
    assert_eq!(request.since, 3);
    let result = EtcdSubnetRegistry::watch_subnets(
        false,
        vec![Some(event(1)), None, Some(event(2))],
        Some(8),
    );
    println!("{:#?}", result);
    match result {
        WatchAction::Send(sent) => {
            assert_eq!(sent.len(), 2);
            assert_eq!(sent[0].events, vec![event(1)]);
            assert_eq!(sent[1].events, vec![event(2)]);
            assert!(sent[0].snapshot.is_empty());
            assert_eq!(sent[1].cursor, 8);
        }
        other => panic!("{:?}", other),
    }
    assert_eq!(EtcdSubnetRegistry::watch_subnets(true, vec![], Some(8)), WatchAction::Stop);
    assert_eq!(
        EtcdSubnetRegistry::watch_subnets(false, vec![None], Some(8)),
        WatchAction::Wait
    );
}

#[test]
fn one_subnet_is_watched() {
    let event = LeaseWatchEvent {
        lease: lease("172.17.43.0/24", 1, 60),
        event_type: EventType::Delete,
    };
    let request = registry().watch_subnet_request(net("172.17.43.0/24"), 3);
    assert_eq!(request.key, "/coreos.com/network/subnets/172.17.43.0-24");
    assert_eq!(request.since, 3);
    assert_eq!(EtcdSubnetRegistry::watch_subnet(true, vec![]), WatchAction::Wait);
    assert_eq!(EtcdSubnetRegistry::watch_subnet(false, vec![None]), WatchAction::Wait);
    match EtcdSubnetRegistry::watch_subnet(false, vec![None, Some(event)]) {
        WatchAction::Send(sent) => assert_eq!(sent.len(), 1),
        other => panic!("{:?}", other),
    }
}

#[test]
fn subnets_are_written() {
    let sn = net("172.17.43.0/24");
    let create = registry().create_request(sn, 86_400);
    assert_eq!(create.key, "/coreos.com/network/subnets/172.17.43.0-24");
    assert_eq!(create.ttl, 86_400);
    assert!(create.if_absent);
    let update = registry().update_request(sn, 60);
    assert_eq!(update.key, create.key);
    assert_eq!(update.ttl, 60);
    assert!(!update.if_absent);
    let end = SystemTime { nanos: 1_000 + 60_000_000_000 };
    assert_eq!(EtcdSubnetRegistry::create_subnet(TxnOutcome::Succeeded, 60, NOW), Ok(end));
    assert_eq!(
        EtcdSubnetRegistry::create_subnet(TxnOutcome::Refused, 60, NOW),
        Err(FlannelError::TxnRefused)
    );
    assert_eq!(
        EtcdSubnetRegistry::create_subnet(TxnOutcome::Failed, 60, NOW),
        Err(FlannelError::RegistryFailed)
    );
    assert_eq!(EtcdSubnetRegistry::update_subnet(true, 60, NOW), Ok(end));
    assert_eq!(
        EtcdSubnetRegistry::update_subnet(false, 60, NOW),
        Err(FlannelError::RegistryFailed)
    );
}

#[test]
fn a_lease_is_revoked_where_the_write_did_not_happen() {
    let end = SystemTime { nanos: 1_000 + 60_000_000_000 };
    let created = |outcome: TxnOutcome| EtcdSubnetRegistry::create_end(outcome, 60, NOW);
    assert_eq!(created(TxnOutcome::Succeeded), WriteEnd::Done(end));
    assert_eq!(created(TxnOutcome::Refused), WriteEnd::Revoke(FlannelError::TxnRefused));
    assert_eq!(created(TxnOutcome::Failed), WriteEnd::Revoke(FlannelError::RegistryFailed));
    assert_eq!(EtcdSubnetRegistry::update_end(true, 60, NOW), WriteEnd::Done(end));
    assert_eq!(
        EtcdSubnetRegistry::update_end(false, 60, NOW),
        WriteEnd::Revoke(FlannelError::RegistryFailed)
    );
    assert_eq!(WriteEnd::Done(end).result(), Ok(end));
    assert_eq!(
        WriteEnd::Revoke(FlannelError::TxnRefused).result(),
        Err(FlannelError::TxnRefused)
    );
}

#[test]
fn the_clock_has_a_range() {
    let last = SystemTime { nanos: 9_223_372_036_854_775_807_999_999_999 };
    assert!(last.has_room(0));
    assert!(!last.has_room(1));
    assert!(!NOW.has_room(i64::MIN));
    assert!(NOW.has_room(86_400));
    assert!(!SystemTime { nanos: i128::MAX }.has_room(0));
    assert_eq!(NOW.expiry(2).nanos, 2_000_001_000);
}
