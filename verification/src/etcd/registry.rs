//! The registry: what is read from its keys and values, and what is reported of its watches.
use vstd::prelude::*;

use crate::addr::{Ipv4Network, Ipv6Network};
use crate::error::FlannelError;
use crate::etcd::events::{delete, put, EventType, LeaseWatchEvent, LeaseWatchResult};
use crate::etcd::key::{
    config_key, config_key_text, extract_ip_and_subnet, networks_of_key, subnet_key,
    subnet_key_text, subnets_key, subnets_key_text,
};
use crate::lease::{Lease, LeaseAttrs};
use crate::text::{split, split_text, views};
use crate::time::{ttl_secs, SystemTime};

verus! {

/// How the registry is reached.
#[derive(Debug)]
pub struct EtcdConfig {
    pub endpoints: Vec<String>,
    pub keyfile: String,
    pub certfile: String,
    pub ca_file: String,
    pub prefix: String,
    pub username: String,
    pub password: String,
}

impl Clone for EtcdConfig {
    fn clone(&self) -> (r: Self)
        ensures
            r.endpoints@ == self.endpoints@,
            r.keyfile == self.keyfile,
            r.certfile == self.certfile,
            r.ca_file == self.ca_file,
            r.prefix == self.prefix,
            r.username == self.username,
            r.password == self.password,
    {
        let endpoints = self.endpoints.clone();
        assert(endpoints@ =~= self.endpoints@);
        EtcdConfig {
            endpoints,
            keyfile: self.keyfile.clone(),
            certfile: self.certfile.clone(),
            ca_file: self.ca_file.clone(),
            prefix: self.prefix.clone(),
            username: self.username.clone(),
            password: self.password.clone(),
        }
    }
}

impl Default for EtcdConfig {
    fn default() -> (r: Self)
        ensures
            r.endpoints@ == Seq::<String>::empty(),
            r.keyfile@ == Seq::<char>::empty(),
            r.certfile@ == Seq::<char>::empty(),
            r.ca_file@ == Seq::<char>::empty(),
            r.prefix@ == Seq::<char>::empty(),
            r.username@ == Seq::<char>::empty(),
            r.password@ == Seq::<char>::empty(),
    {
        EtcdConfig {
            endpoints: Vec::new(),
            keyfile: String::new(),
            certfile: String::new(),
            ca_file: String::new(),
            prefix: String::new(),
            username: String::new(),
            password: String::new(),
        }
    }
}

impl EtcdConfig {
    /// The registry at a comma-delimited list of endpoints.
    pub fn from_args(endpoints: &str, prefix: &str) -> (r: Self)
        ensures
            views(r.endpoints@) == split(endpoints@, ','),
            r.prefix@ == prefix@,
            r.keyfile@ == Seq::<char>::empty(),
            r.certfile@ == Seq::<char>::empty(),
            r.ca_file@ == Seq::<char>::empty(),
            r.username@ == Seq::<char>::empty(),
            r.password@ == Seq::<char>::empty(),
    {
        EtcdConfig {
            endpoints: split_text(endpoints, ','),
            prefix: prefix.to_owned(),
            keyfile: String::new(),
            certfile: String::new(),
            ca_file: String::new(),
            username: String::new(),
            password: String::new(),
        }
    }
}

/// The registry of the leases, under the prefix of its configuration.
#[derive(Debug)]
pub struct EtcdSubnetRegistry {
    pub etcd_cfg: EtcdConfig,
}

/// A request to write what a host tells the others under the key of its subnet, for as long as a
/// lease of the registry lasts.
#[derive(Debug, PartialEq, Eq)]
pub struct SubnetWrite {
    pub key: String,
    /// How long the lease is to last, in seconds.
    pub ttl: i64,
    /// Whether nothing may stand under the key.
    pub if_absent: bool,
}

/// A request to be told, from a revision on, what happens to the keys that begin with a key.
#[derive(Debug, PartialEq, Eq)]
pub struct WatchRequest {
    pub key: String,
    pub since: i64,
}

/// What to do with a message of a watch.
#[derive(Debug, PartialEq, Eq)]
pub enum WatchAction<T> {
    /// Wait for the next one.
    Wait,
    /// End the watch.
    Stop,
    Send(T),
}

/// A key and its value as the registry returns them.
#[derive(Debug)]
pub struct KeyValue {
    /// The key, where it is UTF-8.
    pub key: Option<String>,
    /// The lease attributes that the value holds, where it does.
    pub attrs: Option<LeaseAttrs>,
}

/// A lease's key and value, with what the registry said of the time it has left.
#[derive(Debug)]
pub struct SubnetRecord {
    pub kv: KeyValue,
    /// The seconds that are left, where the registry could be asked.
    pub ttl: Option<i64>,
    /// When the registry was asked.
    pub now: SystemTime,
}

impl KeyValue {
    /// Whether the key is that of a subnet.
    pub open spec fn stands_under(self, prefix: Seq<char>, sn: Ipv4Network) -> bool {
        self.key is Some && self.key->0@ == subnet_key_text(prefix, sn) && sn.prefix() <= 32
    }

    /// The networks that the key ends in.
    pub open spec fn networks(self) -> Result<(Ipv4Network, Option<Ipv6Network>), FlannelError> {
        match self.key {
            None => Err(FlannelError::InvalidKey),
            Some(key) => networks_of_key(key@),
        }
    }

    /// The networks that the key ends in.
    pub fn extract(&self) -> (r: Result<(Ipv4Network, Option<Ipv6Network>), FlannelError>)
        ensures
            r == self.networks(),
            forall|prefix: Seq<char>, sn: Ipv4Network| #[trigger]
                self.stands_under(prefix, sn) ==> r == Ok::<
                    (Ipv4Network, Option<Ipv6Network>),
                    FlannelError,
                >((sn, None)),
    {
        match &self.key {
            None => Err(FlannelError::InvalidKey),
            Some(key) => extract_ip_and_subnet(key.as_str()),
        }
    }

    /// The lease that the key and the value make.
    pub open spec fn lease(self, ttl: i64, now: SystemTime) -> Result<Lease, FlannelError> {
        match self.networks() {
            Err(e) => Err(e),
            Ok((sn4, sn6)) => lease_of(sn4, sn6, self.attrs, ttl, now),
        }
    }
}

/// A lease of networks, where there are attributes.
pub open spec fn lease_of(
    sn4: Ipv4Network,
    sn6: Option<Ipv6Network>,
    attrs: Option<LeaseAttrs>,
    ttl: i64,
    now: SystemTime,
) -> Result<Lease, FlannelError> {
    match attrs {
        None => Err(FlannelError::InvalidAttrs),
        Some(attrs) => Ok(
            Lease {
                enable_ipv4: true,
                enable_ipv6: sn6 is Some,
                subnet: sn4,
                ipv6_subnet: sn6,
                expiration: now.later(ttl_secs(ttl)),
                attrs,
            },
        ),
    }
}

/// The lease that stands under the key of a subnet.
pub open spec fn stored_lease(
    sn: Ipv4Network,
    attrs: LeaseAttrs,
    ttl: i64,
    now: SystemTime,
) -> Lease {
    Lease {
        enable_ipv4: true,
        enable_ipv6: false,
        subnet: sn,
        ipv6_subnet: None,
        expiration: now.later(ttl_secs(ttl)),
        attrs,
    }
}

/// A lease of networks, where there are attributes.
pub fn make_lease(
    sn4: Ipv4Network,
    sn6: Option<Ipv6Network>,
    attrs: &Option<LeaseAttrs>,
    ttl: i64,
    now: SystemTime,
) -> (r: Result<Lease, FlannelError>)
    requires
        attrs is Some ==> now.ttl_fits(ttl),
    ensures
        r == lease_of(sn4, sn6, *attrs, ttl, now),
{
    match attrs {
        None => Err(FlannelError::InvalidAttrs),
        Some(attrs) => Ok(
            Lease {
                enable_ipv4: true,
                enable_ipv6: sn6.is_some(),
                subnet: sn4,
                ipv6_subnet: sn6,
                expiration: now.expiry(ttl),
                attrs: attrs.clone(),
            },
        ),
    }
}

/// The lease that a key and its value make. What stands under the key of a subnet is read back as
/// a lease of that subnet with the attributes of the value.
pub fn kv_to_ip_lease(kv: &KeyValue, ttl: i64, now: SystemTime) -> (r: Result<Lease, FlannelError>)
    requires
        kv.networks() is Ok && kv.attrs is Some ==> now.ttl_fits(ttl),
    ensures
        r == kv.lease(ttl, now),
        r is Ok && ttl >= 0 ==> r->Ok_0.expiration.nanos - now.nanos == ttl * 1_000_000_000,
        forall|prefix: Seq<char>, sn: Ipv4Network| #[trigger]
            kv.stands_under(prefix, sn) && kv.attrs is Some ==> r == Ok::<Lease, FlannelError>(
                stored_lease(sn, kv.attrs->0, ttl, now),
            ),
{
    match kv.extract() {
        Err(e) => Err(e),
        Ok((sn4, sn6)) => make_lease(sn4, sn6, &kv.attrs, ttl, now),
    }
}

/// The lease that a key and its value make, or nothing where they make one that ends beyond the
/// range of the clock.
pub fn read_lease(kv: &KeyValue, ttl: i64, now: SystemTime) -> (r: Option<
    Result<Lease, FlannelError>,
>)
    ensures
        r is None <==> kv.networks() is Ok && kv.attrs is Some && !now.ttl_fits(ttl),
        r matches Some(lease) ==> lease == kv.lease(ttl, now),
        forall|prefix: Seq<char>, sn: Ipv4Network| #[trigger]
            kv.stands_under(prefix, sn) && kv.attrs is Some && now.ttl_fits(ttl) ==> r == Some(
                Ok::<Lease, FlannelError>(stored_lease(sn, kv.attrs->0, ttl, now)),
            ),
{
    if kv.extract().is_ok() && kv.attrs.is_some() && !now.has_room(ttl) {
        return None;
    }
    Some(kv_to_ip_lease(kv, ttl, now))
}

impl SubnetRecord {
    /// Whether the record is a lease, or the registry could not say how long it lasts.
    pub open spec fn readable(self) -> bool {
        self.ttl matches Some(ttl) ==> self.kv.lease(ttl, self.now) is Ok && self.now.ttl_fits(ttl)
    }
}

/// The leases of the records of which the registry could say how long they last.
pub open spec fn live_leases(records: Seq<SubnetRecord>) -> Seq<Lease>
    decreases records.len(),
{
    if records.len() == 0 {
        Seq::empty()
    } else {
        let before = live_leases(records.drop_last());
        let record = records.last();
        match record.ttl {
            Some(ttl) => before.push(record.kv.lease(ttl, record.now)->Ok_0),
            None => before,
        }
    }
}

/// Whether every record is a lease, or one of which the registry could not say how long it lasts.
pub open spec fn all_readable(records: Seq<SubnetRecord>) -> bool {
    forall|i: int| 0 <= i < records.len() ==> (#[trigger] records[i]).readable()
}

/// Whether every record stands under the key of a subnet, and holds attributes.
pub open spec fn all_stored(
    records: Seq<SubnetRecord>,
    prefix: Seq<char>,
    sns: Seq<Ipv4Network>,
) -> bool {
    records.len() == sns.len() && forall|i: int|
        0 <= i < records.len() ==> (#[trigger] records[i]).kv.stands_under(prefix, sns[i])
            && records[i].kv.attrs is Some
}

/// The leases of the records of which the registry could say how long they last, by their subnets.
pub open spec fn stored_leases(records: Seq<SubnetRecord>, sns: Seq<Ipv4Network>) -> Seq<Lease>
    decreases records.len(),
{
    if records.len() == 0 {
        Seq::empty()
    } else {
        let before = stored_leases(records.drop_last(), sns.drop_last());
        let record = records.last();
        match record.ttl {
            Some(ttl) => before.push(
                stored_lease(sns.last(), record.kv.attrs->0, ttl, record.now),
            ),
            None => before,
        }
    }
}

/// Whether every record ends within the range of the clock.
pub open spec fn all_fit(records: Seq<SubnetRecord>) -> bool {
    forall|i: int|
        0 <= i < records.len() && (#[trigger] records[i]).ttl is Some ==> records[i].now.ttl_fits(
            records[i].ttl->0,
        )
}

/// The revision at which records were read: zero where there are none, or none is given.
pub open spec fn cursor_of(records: Seq<SubnetRecord>, revision: Option<i64>) -> i64 {
    match revision {
        Some(n) => if records.len() == 0 {
            0
        } else {
            n
        },
        None => 0,
    }
}

/// The lease of a subnet, where there is one, with the revision at which it was read.
pub open spec fn subnet_found(
    found: Option<KeyValue>,
    ttl: i64,
    now: SystemTime,
    revision: Option<i64>,
) -> Result<Option<(Lease, i64)>, FlannelError> {
    match found {
        None => Ok(None),
        Some(kv) => match kv.lease(ttl, now) {
            Err(e) => Err(e),
            Ok(lease) => Ok(
                Some(
                    (
                        lease,
                        match revision {
                            Some(n) => n,
                            None => 0,
                        },
                    ),
                ),
            ),
        },
    }
}

/// What a watch event comes to.
#[derive(Debug)]
pub enum WatchStep {
    /// It can be reported.
    Report(LeaseWatchEvent),
    /// The registry is to be asked how long the lease lasts.
    AskTtl(Ipv4Network, LeaseAttrs),
}

/// What a watch event comes to, by its networks.
pub open spec fn watch_step(
    networks: Result<(Ipv4Network, Option<Ipv6Network>), FlannelError>,
    attrs: Option<LeaseAttrs>,
    event_type: EventType,
    now: SystemTime,
) -> Result<WatchStep, FlannelError> {
    match networks {
        Err(e) => Err(e),
        Ok((sn4, _)) => match event_type {
            EventType::Delete => Ok(
                WatchStep::Report(
                    delete(Lease { enable_ipv4: true, subnet: sn4, ..Lease::unassigned(now) }),
                ),
            ),
            EventType::Put => match attrs {
                None => Err(FlannelError::InvalidAttrs),
                Some(attrs) => Ok(WatchStep::AskTtl(sn4, attrs)),
            },
        },
    }
}

/// What a watch event comes to, by its networks.
pub fn step_for(
    networks: Result<(Ipv4Network, Option<Ipv6Network>), FlannelError>,
    attrs: &Option<LeaseAttrs>,
    event_type: EventType,
    now: SystemTime,
) -> (r: Result<WatchStep, FlannelError>)
    ensures
        r == watch_step(networks, *attrs, event_type, now),
{
    let sn4 = match networks {
        Err(e) => return Err(e),
        Ok((sn4, _)) => sn4,
    };
    match event_type {
        EventType::Delete => {
            let mut lease = Lease::default_at(now);
            lease.enable_ipv4 = true;
            lease.subnet = sn4;
            Ok(WatchStep::Report(LeaseWatchEvent { lease, event_type: EventType::Delete }))
        },
        EventType::Put => match attrs {
            None => Err(FlannelError::InvalidAttrs),
            Some(attrs) => Ok(WatchStep::AskTtl(sn4, attrs.clone())),
        },
    }
}

/// The report of a written lease that lasts `ttl` seconds: none where it has expired.
pub fn put_event(subnet: Ipv4Network, attrs: LeaseAttrs, ttl: i64, now: SystemTime) -> (r: Option<
    LeaseWatchEvent,
>)
    requires
        ttl >= 0 ==> now.ttl_fits(ttl),
    ensures
        ttl < 0 ==> r is None,
        ttl >= 0 ==> r == Some(
            put(
                Lease {
                    enable_ipv4: true,
                    subnet,
                    expiration: now.later(ttl as int),
                    attrs,
                    ..Lease::unassigned(now)
                },
            ),
        ),
        ttl >= 0 ==> r is Some && r->0.event_type == EventType::Put && r->0.lease.subnet == subnet
            && r->0.lease.attrs == attrs && r->0.lease.expiration.nanos - now.nanos == ttl
            * 1_000_000_000,
{
    if ttl < 0 {
        return None;
    }
    let mut lease = Lease::default_at(now);
    lease.enable_ipv4 = true;
    lease.subnet = subnet;
    lease.expiration = now.expiry(ttl);
    lease.attrs = attrs;
    Some(LeaseWatchEvent { lease, event_type: EventType::Put })
}

/// The events that are to be reported.
pub open spec fn reported(events: Seq<Option<LeaseWatchEvent>>) -> Seq<LeaseWatchEvent>
    decreases events.len(),
{
    if events.len() == 0 {
        Seq::empty()
    } else {
        let before = reported(events.drop_last());
        match events.last() {
            Some(e) => before.push(e),
            None => before,
        }
    }
}

/// The events that are to be reported, in their order.
fn keep_reported(events: Vec<Option<LeaseWatchEvent>>) -> (r: Vec<LeaseWatchEvent>)
    ensures
        r@ == reported(events@),
{
    let mut out: Vec<LeaseWatchEvent> = Vec::new();
    for e in it: events
        invariant
            it.seq() == events@,
            out@ == reported(events@.take(it.index() as int)),
    {
        proof {
            let i = it.index() as int;
            assert(events@.take(i + 1).drop_last() =~= events@.take(i));
            assert(events@.take(i + 1).last() == events@[i]);
        }
        if let Some(e) = e {
            out.push(e);
        }
    }
    assert(events@.take(events@.len() as int) =~= events@);
    out
}

/// How the registry answered a request to create a subnet.
#[derive(Debug, Clone, Copy, PartialEq, Eq, Structural)]
pub enum TxnOutcome {
    /// The request failed.
    Failed,
    /// The subnet already exists.
    Refused,
    Succeeded,
}

/// What follows a write.
#[derive(Debug, PartialEq, Eq)]
pub enum WriteEnd {
    /// It lasts until then.
    Done(SystemTime),
    /// The lease that was granted for it is to be revoked, and the error passed on.
    Revoke(FlannelError),
}

impl WriteEnd {
    /// How long the write lasts, or why there is none.
    pub fn result(self) -> (r: Result<SystemTime, FlannelError>)
        ensures
            r == match self {
                WriteEnd::Done(expiration) => Ok::<SystemTime, FlannelError>(expiration),
                WriteEnd::Revoke(e) => Err(e),
            },
    {
        match self {
            WriteEnd::Done(expiration) => Ok(expiration),
            WriteEnd::Revoke(e) => Err(e),
        }
    }
}

impl EtcdSubnetRegistry {
    pub fn new(etcd_cfg: EtcdConfig) -> (r: Self)
        ensures
            r.etcd_cfg == etcd_cfg,
    {
        EtcdSubnetRegistry { etcd_cfg }
    }

    /// The key of the configuration.
    pub fn config_key(&self) -> (r: String)
        ensures
            r@ == config_key_text(self.etcd_cfg.prefix@),
    {
        config_key(self.etcd_cfg.prefix.as_str())
    }

    /// The key that the keys of all leases begin with.
    pub fn subnets_key(&self) -> (r: String)
        ensures
            r@ == subnets_key_text(self.etcd_cfg.prefix@),
    {
        subnets_key(self.etcd_cfg.prefix.as_str())
    }

    /// The key of a subnet's lease.
    pub fn subnet_key(&self, sn: Ipv4Network) -> (r: String)
        ensures
            r@ == subnet_key_text(self.etcd_cfg.prefix@, sn),
    {
        subnet_key(self.etcd_cfg.prefix.as_str(), sn)
    }

    /// The configuration as the registry holds it: empty where it holds none.
    pub fn get_network_config(value: Option<String>) -> (r: String)
        ensures
            match value {
                Some(text) => r == text,
                None => r@ == Seq::<char>::empty(),
            },
    {
        match value {
            Some(text) => text,
            None => String::new(),
        }
    }

    /// The lease of a subnet, where there is one, with the revision at which it was read.
    pub fn get_subnet(
        found: &Option<KeyValue>,
        ttl: i64,
        now: SystemTime,
        revision: Option<i64>,
    ) -> (r: Result<Option<(Lease, i64)>, FlannelError>)
        requires
            found is Some && found->0.networks() is Ok && found->0.attrs is Some ==> now.ttl_fits(
                ttl,
            ),
        ensures
            r == subnet_found(*found, ttl, now, revision),
            forall|prefix: Seq<char>, sn: Ipv4Network|
                found is Some && #[trigger] found->0.stands_under(prefix, sn) && found->0.attrs
                    is Some ==> r == Ok::<Option<(Lease, i64)>, FlannelError>(
                    Some(
                        (
                            stored_lease(sn, found->0.attrs->0, ttl, now),
                            match revision {
                                Some(n) => n,
                                None => 0,
                            },
                        ),
                    ),
                ),
    {
        match found {
            None => Ok(None),
            Some(kv) => match kv_to_ip_lease(kv, ttl, now) {
                Err(e) => Err(e),
                Ok(lease) => Ok(
                    Some(
                        (
                            lease,
                            match revision {
                                Some(n) => n,
                                None => 0,
                            },
                        ),
                    ),
                ),
            },
        }
    }

    /// The lease of a subnet as `get_subnet` gives it, or nothing where it would end beyond the
    /// range of the clock.
    pub fn read_subnet(
        found: &Option<KeyValue>,
        ttl: i64,
        now: SystemTime,
        revision: Option<i64>,
    ) -> (r: Option<Result<Option<(Lease, i64)>, FlannelError>>)
        ensures
            r is None <==> found is Some && found->0.networks() is Ok && found->0.attrs is Some
                && !now.ttl_fits(ttl),
            r matches Some(lease) ==> lease == subnet_found(*found, ttl, now, revision),
            forall|prefix: Seq<char>, sn: Ipv4Network|
                found is Some && #[trigger] found->0.stands_under(prefix, sn) && found->0.attrs
                    is Some && now.ttl_fits(ttl) ==> r == Some(
                    Ok::<Option<(Lease, i64)>, FlannelError>(
                        Some(
                            (
                                stored_lease(sn, found->0.attrs->0, ttl, now),
                                match revision {
                                    Some(n) => n,
                                    None => 0,
                                },
                            ),
                        ),
                    ),
                ),
    {
        if let Some(kv) = found {
            if kv.extract().is_ok() && kv.attrs.is_some() && !now.has_room(ttl) {
                return None;
            }
        }
        Some(Self::get_subnet(found, ttl, now, revision))
    }

    /// All leases, with the revision at which they were read. What stands under the keys of
    /// subnets is read back as leases of these subnets.
    pub fn get_subnets(records: &[SubnetRecord], revision: Option<i64>) -> (r: (Vec<Lease>, i64))
        requires
            all_readable(records@),
        ensures
            r.0@ == live_leases(records@),
            r.1 == cursor_of(records@, revision),
            forall|prefix: Seq<char>, sns: Seq<Ipv4Network>| #[trigger]
                all_stored(records@, prefix, sns) ==> r.0@ == stored_leases(records@, sns),
    {
        let n: usize = records.len();
        if n == 0 {
            return (Vec::new(), 0);
        }
        let mut leases: Vec<Lease> = Vec::new();
        let mut i: usize = 0;
        while i < n
            invariant
                n == records@.len(),
                i <= n,
                all_readable(records@),
                leases@ == live_leases(records@.take(i as int)),
                forall|prefix: Seq<char>, sns: Seq<Ipv4Network>| #[trigger]
                    all_stored(records@, prefix, sns) ==> leases@ == stored_leases(
                        records@.take(i as int),
                        sns.take(i as int),
                    ),
            decreases n - i,
        {
            let ghost before = leases@;
            proof {
                assert(records@.take(i + 1).drop_last() =~= records@.take(i as int));
                assert(records@.take(i + 1).last() == records@[i as int]);
                assert(records@[i as int].readable());
            }
            let record = &records[i];
            if let Some(ttl) = record.ttl {
                if let Ok(lease) = kv_to_ip_lease(&record.kv, ttl, record.now) {
                    leases.push(lease);
                }
            }
            proof {
                assert forall|prefix: Seq<char>, sns: Seq<Ipv4Network>| #[trigger]
                    all_stored(records@, prefix, sns) implies leases@ == stored_leases(
                    records@.take(i + 1),
                    sns.take(i + 1),
                ) by {
                    assert(records@[i as int].kv.stands_under(prefix, sns[i as int]));
                    assert(sns.take(i + 1).drop_last() =~= sns.take(i as int));
                    assert(sns.take(i + 1).last() == sns[i as int]);
                    assert(before == stored_leases(records@.take(i as int), sns.take(i as int)));
                }
            }
            i = i + 1;
        }
        proof {
            assert(records@.take(n as int) =~= records@);
            assert forall|prefix: Seq<char>, sns: Seq<Ipv4Network>| #[trigger]
                all_stored(records@, prefix, sns) implies leases@ == stored_leases(
                records@,
                sns,
            ) by {
                assert(sns.take(n as int) =~= sns);
            }
        }
        let cursor = match revision {
            Some(revision) => revision,
            None => 0,
        };
        (leases, cursor)
    }

    /// All leases, with the revision at which they were read: nothing where a record is no lease.
    pub fn read_subnets(records: &[SubnetRecord], revision: Option<i64>) -> (r: Option<
        (Vec<Lease>, i64),
    >)
        ensures
            r is Some <==> all_readable(records@),
            r matches Some((leases, cursor)) ==> leases@ == live_leases(records@) && cursor
                == cursor_of(records@, revision),
            r matches Some((leases, _)) ==> forall|prefix: Seq<char>, sns: Seq<Ipv4Network>|
                #[trigger]
                all_stored(records@, prefix, sns) ==> leases@ == stored_leases(records@, sns),
            forall|prefix: Seq<char>, sns: Seq<Ipv4Network>| #[trigger]
                all_stored(records@, prefix, sns) && all_fit(records@) ==> r is Some,
    {
        let n: usize = records.len();
        let mut i: usize = 0;
        while i < n
            invariant
                n == records@.len(),
                i <= n,
                forall|j: int| 0 <= j < i ==> (#[trigger] records@[j]).readable(),
            decreases n - i,
        {
            let record = &records[i];
            if let Some(ttl) = record.ttl {
                match read_lease(&record.kv, ttl, record.now) {
                    Some(Ok(_)) => {},
                    _ => {
                        proof {
                            assert(!records@[i as int].readable());
                            assert forall|prefix: Seq<char>, sns: Seq<Ipv4Network>| #[trigger]
                                all_stored(records@, prefix, sns) implies !all_fit(records@) by {
                                assert(records@[i as int].kv.stands_under(prefix, sns[i as int]));
                            }
                        }
                        return None;
                    },
                }
            }
            i = i + 1;
        }
        Some(Self::get_subnets(records, revision))
    }

    /// A snapshot of all leases, from which the watch goes on.
    pub fn leases_watch_reset(leases: Vec<Lease>, index: i64) -> (r: LeaseWatchResult)
        ensures
            r.snapshot == leases,
            r.events@ == Seq::<LeaseWatchEvent>::empty(),
            r.cursor == index,
    {
        LeaseWatchResult { snapshot: leases, events: Vec::new(), cursor: index }
    }

    /// The request to watch one subnet.
    pub fn watch_subnet_request(&self, sn: Ipv4Network, since: i64) -> (r: WatchRequest)
        ensures
            r.key@ == subnet_key_text(self.etcd_cfg.prefix@, sn),
            r.since == since,
    {
        WatchRequest { key: self.subnet_key(sn), since }
    }

    /// The request to watch all subnets.
    pub fn watch_subnets_request(&self, since: i64) -> (r: WatchRequest)
        ensures
            r.key@ == subnets_key_text(self.etcd_cfg.prefix@),
            r.since == since,
    {
        WatchRequest { key: self.subnets_key(), since }
    }

    /// What a watch event comes to: a removed lease is reported by its subnet, a written one after
    /// the registry was asked how long it lasts.
    pub fn parse_subnet_watch_resp(
        kv: &Option<KeyValue>,
        event_type: EventType,
        now: SystemTime,
    ) -> (r: Result<WatchStep, FlannelError>)
        ensures
            match kv {
                None => r == Err::<WatchStep, FlannelError>(FlannelError::InvalidKv),
                Some(kv) => r == watch_step(kv.networks(), kv.attrs, event_type, now),
            },
            forall|prefix: Seq<char>, sn: Ipv4Network|
                kv is Some && #[trigger] kv->0.stands_under(prefix, sn) ==> r == watch_step(
                    Ok((sn, None)),
                    kv->0.attrs,
                    event_type,
                    now,
                ),
    {
        match kv {
            None => Err(FlannelError::InvalidKv),
            Some(kv) => step_for(kv.extract(), &kv.attrs, event_type, now),
        }
    }

    /// What to do with a message of a watch on one subnet: the events that are to be reported are
    /// sent. A cancelled message is passed over.
    pub fn watch_subnet(canceled: bool, events: Vec<Option<LeaseWatchEvent>>) -> (r: WatchAction<
        Vec<LeaseWatchEvent>,
    >)
        ensures
            match r {
                WatchAction::Wait => canceled || reported(events@).len() == 0,
                WatchAction::Stop => false,
                WatchAction::Send(sent) => !canceled && sent@ == reported(events@) && sent@.len()
                    > 0,
            },
    {
        if canceled {
            return WatchAction::Wait;
        }
        let sent = keep_reported(events);
        if sent.len() == 0 {
            return WatchAction::Wait;
        }
        WatchAction::Send(sent)
    }

    /// What to do with a message of a watch on all subnets: a result is sent for each event that is
    /// to be reported. A cancelled message ends the watch.
    pub fn watch_subnets(
        canceled: bool,
        events: Vec<Option<LeaseWatchEvent>>,
        revision: Option<i64>,
    ) -> (r: WatchAction<Vec<LeaseWatchResult>>)
        ensures
            match r {
                WatchAction::Stop => canceled,
                WatchAction::Wait => !canceled && reported(events@).len() == 0,
                WatchAction::Send(sent) => !canceled && sent@.len() > 0 && sent@.len() == reported(
                    events@,
                ).len() && forall|i: int|
                    0 <= i < sent@.len() ==> (#[trigger] sent@[i]).events@ == seq![
                        reported(events@)[i],
                    ] && sent@[i].snapshot@ == Seq::<Lease>::empty() && sent@[i].cursor
                        == match revision {
                        Some(n) => n,
                        None => 0,
                    },
            },
    {
        if canceled {
            return WatchAction::Stop;
        }
        let cursor = match revision {
            Some(revision) => revision,
            None => 0,
        };
        let mut out: Vec<LeaseWatchResult> = Vec::new();
        let sent = keep_reported(events);
        if sent.len() == 0 {
            return WatchAction::Wait;
        }
        let ghost all = sent@;
        for e in it: sent
            invariant
                it.seq() == all,
                out@.len() == it.index(),
                forall|i: int|
                    0 <= i < out@.len() ==> (#[trigger] out@[i]).events@ == seq![all[i]]
                        && out@[i].snapshot@ == Seq::<Lease>::empty() && out@[i].cursor == cursor,
        {
            let mut one: Vec<LeaseWatchEvent> = Vec::new();
            one.push(e);
            assert(one@ =~= seq![all[it.index() as int]]);
            out.push(LeaseWatchResult { snapshot: Vec::new(), events: one, cursor });
        }
        WatchAction::Send(out)
    }

    /// The request to lease a subnet that no host holds.
    pub fn create_request(&self, sn: Ipv4Network, subnet_ttl: i64) -> (r: SubnetWrite)
        ensures
            r.key@ == subnet_key_text(self.etcd_cfg.prefix@, sn),
            r.ttl == subnet_ttl,
            r.if_absent,
    {
        SubnetWrite { key: self.subnet_key(sn), ttl: subnet_ttl, if_absent: true }
    }

    /// The request to prolong the lease of a subnet.
    pub fn update_request(&self, sn: Ipv4Network, ttl: i64) -> (r: SubnetWrite)
        ensures
            r.key@ == subnet_key_text(self.etcd_cfg.prefix@, sn),
            r.ttl == ttl,
            !r.if_absent,
    {
        SubnetWrite { key: self.subnet_key(sn), ttl, if_absent: false }
    }

    /// What follows the request to lease a subnet that no host holds, for which a lease of `ttl`
    /// seconds was granted.
    pub fn create_end(outcome: TxnOutcome, ttl: i64, now: SystemTime) -> (r: WriteEnd)
        requires
            outcome == TxnOutcome::Succeeded ==> now.ttl_fits(ttl),
        ensures
            r == match outcome {
                TxnOutcome::Failed => WriteEnd::Revoke(FlannelError::RegistryFailed),
                TxnOutcome::Refused => WriteEnd::Revoke(FlannelError::TxnRefused),
                TxnOutcome::Succeeded => WriteEnd::Done(now.later(ttl_secs(ttl))),
            },
            outcome == TxnOutcome::Succeeded && ttl >= 0 ==> r is Done && r->Done_0.nanos
                - now.nanos == ttl * 1_000_000_000,
    {
        match outcome {
            TxnOutcome::Failed => WriteEnd::Revoke(FlannelError::RegistryFailed),
            TxnOutcome::Refused => WriteEnd::Revoke(FlannelError::TxnRefused),
            TxnOutcome::Succeeded => WriteEnd::Done(now.expiry(ttl)),
        }
    }

    /// What follows the request to prolong the lease of a subnet, for which a lease of `ttl`
    /// seconds was granted.
    pub fn update_end(written: bool, ttl: i64, now: SystemTime) -> (r: WriteEnd)
        requires
            written ==> now.ttl_fits(ttl),
        ensures
            r == if written {
                WriteEnd::Done(now.later(ttl_secs(ttl)))
            } else {
                WriteEnd::Revoke(FlannelError::RegistryFailed)
            },
            written && ttl >= 0 ==> r is Done && r->Done_0.nanos - now.nanos == ttl * 1_000_000_000,
    {
        if written {
            WriteEnd::Done(now.expiry(ttl))
        } else {
            WriteEnd::Revoke(FlannelError::RegistryFailed)
        }
    }

    /// When a created subnet expires that was leased for `ttl` seconds.
    pub fn create_subnet(outcome: TxnOutcome, ttl: i64, now: SystemTime) -> (r: Result<
        SystemTime,
        FlannelError,
    >)
        requires
            outcome == TxnOutcome::Succeeded ==> now.ttl_fits(ttl),
        ensures
            match outcome {
                TxnOutcome::Failed => r == Err::<SystemTime, FlannelError>(
                    FlannelError::RegistryFailed,
                ),
                TxnOutcome::Refused => r == Err::<SystemTime, FlannelError>(
                    FlannelError::TxnRefused,
                ),
                TxnOutcome::Succeeded => r == Ok::<SystemTime, FlannelError>(
                    now.later(ttl_secs(ttl)),
                ),
            },
            outcome == TxnOutcome::Succeeded && ttl >= 0 ==> r is Ok && r->Ok_0.nanos - now.nanos
                == ttl * 1_000_000_000,
    {
        Self::create_end(outcome, ttl, now).result()
    }

    /// When a prolonged subnet expires that was leased for `ttl` seconds.
    pub fn update_subnet(written: bool, ttl: i64, now: SystemTime) -> (r: Result<
        SystemTime,
        FlannelError,
    >)
        requires
            written ==> now.ttl_fits(ttl),
        ensures
            written ==> r == Ok::<SystemTime, FlannelError>(now.later(ttl_secs(ttl))),
            written && ttl >= 0 ==> r is Ok && r->Ok_0.nanos - now.nanos == ttl * 1_000_000_000,
            !written ==> r == Err::<SystemTime, FlannelError>(FlannelError::RegistryFailed),
    {
        Self::update_end(written, ttl, now).result()
    }
}

/// A lease that is read is of the subnets of its key, with the attributes of its value, and ends
/// exactly its time to live after it was asked for.
pub proof fn lease_is_read_as_it_stands(kv: KeyValue, ttl: i64, now: SystemTime)
    requires
        kv.networks() is Ok,
        kv.attrs is Some,
        ttl >= 0,
        now.ttl_fits(ttl),
    ensures
        kv.lease(ttl, now) is Ok,
        ({
            let l = kv.lease(ttl, now)->Ok_0;
            let (sn4, sn6) = kv.networks()->Ok_0;
            &&& l.enable_ipv4 && l.subnet == sn4
            &&& l.ipv6_subnet == sn6 && l.enable_ipv6 == (sn6 is Some)
            &&& l.attrs == kv.attrs->0
            &&& l.expiration.nanos - now.nanos == ttl * 1_000_000_000
        }),
{
}

/// A key that is no text, names no subnet or has no attributes makes no lease.
pub proof fn nothing_is_read_without_subnet_or_attributes(kv: KeyValue, ttl: i64, now: SystemTime)
    ensures
        kv.key is None ==> kv.networks() == Err::<
            (Ipv4Network, Option<Ipv6Network>),
            FlannelError,
        >(FlannelError::InvalidKey),
        kv.key is Some ==> kv.networks() == networks_of_key(kv.key->0@),
        kv.networks() is Err ==> kv.lease(ttl, now) == Err::<Lease, FlannelError>(
            kv.networks()->Err_0,
        ),
        kv.networks() is Ok && kv.attrs is None ==> kv.lease(ttl, now) == Err::<
            Lease,
            FlannelError,
        >(FlannelError::InvalidAttrs),
{
}

/// All leases are those of the records whose time to live is known, in their order.
pub proof fn leases_are_the_records_with_a_time_to_live(records: Seq<SubnetRecord>)
    requires
        all_readable(records),
    ensures
        ({
            let timed = records.filter(|r: SubnetRecord| r.ttl is Some);
            let leases = live_leases(records);
            &&& leases.len() == timed.len()
            &&& forall|i: int|
                0 <= i < leases.len() ==> {
                    let r = timed[i];
                    let l = #[trigger] leases[i];
                    &&& r.kv.networks() is Ok && l.subnet == r.kv.networks()->Ok_0.0
                    &&& l.ipv6_subnet == r.kv.networks()->Ok_0.1
                    &&& r.kv.attrs is Some && l.attrs == r.kv.attrs->0
                    &&& r.ttl->0 >= 0 ==> l.expiration.nanos - r.now.nanos == r.ttl->0
                        * 1_000_000_000
                }
        }),
    decreases records.len(),
{
    reveal(Seq::filter);
    if records.len() > 0 {
        let before = records.drop_last();
        let keep = |r: SubnetRecord| r.ttl is Some;
        let timed0 = before.filter(keep);
        let leases0 = live_leases(before);
        let timed = records.filter(keep);
        let leases = live_leases(records);
        assert forall|i: int| 0 <= i < before.len() implies (#[trigger] before[i]).readable() by {
            assert(records[i].readable());
        }
        assert(records[records.len() - 1].readable());
        leases_are_the_records_with_a_time_to_live(before);
        assert forall|i: int| 0 <= i < leases.len() implies {
            let r = timed[i];
            let l = #[trigger] leases[i];
            &&& r.kv.networks() is Ok && l.subnet == r.kv.networks()->Ok_0.0
            &&& l.ipv6_subnet == r.kv.networks()->Ok_0.1
            &&& r.kv.attrs is Some && l.attrs == r.kv.attrs->0
            &&& r.ttl->0 >= 0 ==> l.expiration.nanos - r.now.nanos == r.ttl->0 * 1_000_000_000
        } by {
            if i < leases0.len() {
                assert(leases[i] == leases0[i] && timed[i] == timed0[i]);
            }
        }
    }
}

/// Records that can be read are those that make a lease which ends at a time, and those of which it
/// is not known how long they last.
pub proof fn records_can_be_read_where_they_make_leases(record: SubnetRecord)
    ensures
        record.ttl is None ==> record.readable(),
        record.ttl is Some ==> (record.readable() <==> record.kv.networks() is Ok && record.kv.attrs
            is Some && record.now.ttl_fits(record.ttl->0)),
{
}

/// Leases are followed from the revision at which they were read, and from zero where there are none
/// or it is not known.
pub proof fn leases_are_followed_from_their_revision(records: Seq<SubnetRecord>, revision: i64)
    ensures
        records.len() > 0 ==> cursor_of(records, Some(revision)) == revision,
        records.len() == 0 ==> cursor_of(records, Some(revision)) == 0,
        cursor_of(records, None) == 0,
{
}

/// The lease of a subnet is found with its revision where the key holds one.
pub proof fn subnet_is_found_with_its_revision(
    kv: KeyValue,
    ttl: i64,
    now: SystemTime,
    revision: Option<i64>,
)
    ensures
        subnet_found(None, ttl, now, revision) == Ok::<Option<(Lease, i64)>, FlannelError>(None),
        kv.lease(ttl, now) is Err ==> subnet_found(Some(kv), ttl, now, revision) == Err::<
            Option<(Lease, i64)>,
            FlannelError,
        >(kv.lease(ttl, now)->Err_0),
        kv.lease(ttl, now) is Ok ==> ({
            let r = subnet_found(Some(kv), ttl, now, revision);
            &&& r is Ok && r->Ok_0 is Some
            &&& (r->Ok_0->0).0 == kv.lease(ttl, now)->Ok_0
            &&& revision is Some ==> (r->Ok_0->0).1 == revision->0
            &&& revision is None ==> (r->Ok_0->0).1 == 0
        }),
{
}

/// A removed lease is reported by its subnet alone; of a written one the registry is asked, with its
/// subnet and attributes. A key that names no subnet, and a written value without attributes, are
/// errors.
pub proof fn watch_events_are_read_by_their_kind(
    sn4: Ipv4Network,
    sn6: Option<Ipv6Network>,
    attrs: Option<LeaseAttrs>,
    now: SystemTime,
    e: FlannelError,
)
    ensures
        ({
            let networks = Ok::<(Ipv4Network, Option<Ipv6Network>), FlannelError>((sn4, sn6));
            let removed = watch_step(networks, attrs, EventType::Delete, now);
            let written = watch_step(networks, attrs, EventType::Put, now);
            &&& removed is Ok && removed->Ok_0 is Report
            &&& removed->Ok_0->Report_0.event_type == EventType::Delete
            &&& removed->Ok_0->Report_0.lease.subnet == sn4
            &&& removed->Ok_0->Report_0.lease.enable_ipv4
            &&& removed->Ok_0->Report_0.lease.attrs == LeaseAttrs::unset()
            &&& removed->Ok_0->Report_0.lease.expiration == now
            &&& attrs is None ==> written == Err::<WatchStep, FlannelError>(
                FlannelError::InvalidAttrs,
            )
            &&& attrs is Some ==> written == Ok::<WatchStep, FlannelError>(
                WatchStep::AskTtl(sn4, attrs->0),
            )
        }),
        watch_step(Err(e), attrs, EventType::Put, now) == Err::<WatchStep, FlannelError>(e),
        watch_step(Err(e), attrs, EventType::Delete, now) == Err::<WatchStep, FlannelError>(e),
{
}

/// The events that are reported are those that there are, in their order and as they are.
pub proof fn events_that_there_are_are_reported(events: Seq<Option<LeaseWatchEvent>>)
    ensures
        ({
            let there = events.filter(|e: Option<LeaseWatchEvent>| e is Some);
            &&& reported(events).len() == there.len()
            &&& forall|i: int|
                0 <= i < there.len() ==> #[trigger] there[i] == Some(reported(events)[i])
        }),
    decreases events.len(),
{
    reveal(Seq::filter);
    if events.len() > 0 {
        let before = events.drop_last();
        let keep = |e: Option<LeaseWatchEvent>| e is Some;
        events_that_there_are_are_reported(before);
        let there0 = before.filter(keep);
        let there = events.filter(keep);
        assert forall|i: int| 0 <= i < there.len() implies #[trigger] there[i] == Some(
            reported(events)[i],
        ) by {
            if i < there0.len() {
                assert(there[i] == there0[i]);
            }
        }
    }
}

}
