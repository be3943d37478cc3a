//! The VXLAN network of the host: how the others' links are reached.
use vstd::prelude::*;

use crate::addr::{IpAddr, IpNetwork};
use crate::backend::common::{ExternalInterface, Network};
use crate::backend::vxlan::device::{Neighbor, VxlanDevice};
use crate::error::FlannelError;
use crate::etcd::events::{EventType, LeaseWatchEvent};
use crate::lease::{Lease, LeaseAttrs};
use crate::mac::{mac_of, mac_text, MacAddr6};
use crate::netlink::{
    Neigh, Route, AF_BRIDGE, NTF_SELF, NUD_PERMANENT, RTNH_F_ONLINK, RTN_UNICAST, RT_SCOPE_UNIVERSE,
};
use crate::subnet::manager::SubnetManager;
use crate::text::same_text;

verus! {

/// The host's part of the network.
#[derive(Debug)]
pub struct VxlanNetwork {
    pub subnet_lease: Lease,
    pub ext_iface: ExternalInterface,
    pub device: VxlanDevice,
    pub subnet_manager: SubnetManager,
    pub mtu: u32,
}

/// What a host needs to reach another's link.
#[derive(Debug, PartialEq, Eq)]
pub struct VxlanLeaseAttrs {
    pub vni: u32,
    pub vtep_mac: String,
}

/// What the kernel is told of another host.
#[derive(Debug, PartialEq, Eq)]
pub struct PeerUpdate {
    /// The other link's hardware address for the first address of its subnet.
    pub arp: Neigh,
    /// The other host's public address for that hardware address.
    pub fdb: Neigh,
    /// The route to the subnet over the link.
    pub route: Route,
}

/// What the kernel is told of a host that holds a lease, by its link's hardware address.
pub open spec fn peer_update(lease: Lease, mac: MacAddr6, link_index: u32) -> PeerUpdate {
    PeerUpdate {
        arp: Neigh {
            link_index,
            family: 0,
            state: NUD_PERMANENT,
            flags: 0,
            type_: RTN_UNICAST,
            ip: IpAddr::V4(lease.subnet.ip()),
            hardware_addr: mac,
        },
        fdb: Neigh {
            link_index,
            family: AF_BRIDGE,
            state: NUD_PERMANENT,
            flags: NTF_SELF,
            type_: 0,
            ip: IpAddr::V4(lease.attrs.public_ip),
            hardware_addr: mac,
        },
        route: Route {
            dst: Some(IpNetwork::V4(lease.subnet)),
            gw: Some(IpAddr::V4(lease.subnet.ip())),
            link_index,
            flags: RTNH_F_ONLINK,
            scope: RT_SCOPE_UNIVERSE,
        },
    }
}

impl Network for VxlanNetwork {
    open spec fn held(&self) -> Lease {
        self.subnet_lease
    }

    /// That of the interface, whatever the link's own is.
    open spec fn longest_packet(&self) -> int {
        self.ext_iface.iface.mtu as int
    }

    fn lease(&self) -> (r: &Lease) {
        &self.subnet_lease
    }

    fn mtu(&self) -> (r: u32) {
        self.ext_iface.iface.mtu
    }
}

impl VxlanNetwork {
    pub fn new(
        subnet_manager: SubnetManager,
        external_interface: ExternalInterface,
        vxlan_device: VxlanDevice,
        lease: Lease,
        mtu: u32,
    ) -> (r: Self)
        ensures
            r == (VxlanNetwork {
                subnet_lease: lease,
                ext_iface: external_interface,
                device: vxlan_device,
                subnet_manager,
                mtu,
            }),
    {
        VxlanNetwork {
            subnet_lease: lease,
            ext_iface: external_interface,
            device: vxlan_device,
            subnet_manager,
            mtu,
        }
    }

    /// The JSON text of the link's attributes, where a lease is of this backend and has one.
    pub fn backend_data_of(attrs: &LeaseAttrs) -> (r: Option<&String>)
        ensures
            (attrs.backend_type matches Some(t) && t@ == "vxlan"@) ==> (match attrs.backend_data {
                Some(data) => r == Some(&data),
                None => r is None,
            }),
            !(attrs.backend_type matches Some(t) && t@ == "vxlan"@) ==> r is None,
    {
        match &attrs.backend_type {
            Some(t) => {
                if !same_text(t.as_str(), "vxlan") {
                    return None;
                }
            },
            None => return None,
        }
        match &attrs.backend_data {
            Some(data) => Some(data),
            None => None,
        }
    }

    /// What the kernel is told of a host by its link's hardware address: nothing of a removed one.
    pub fn peer_of(&self, e: &LeaseWatchEvent, vtep_mac: MacAddr6) -> (r: Option<PeerUpdate>)
        ensures
            match e.event_type {
                EventType::Put => r == Some(
                    peer_update(e.lease, vtep_mac, self.device.link.link_attrs.index),
                ),
                EventType::Delete => r is None,
            },
    {
        match e.event_type {
            EventType::Put => Some(
                PeerUpdate {
                    arp: self.device.add_arp(Neighbor { ip: e.lease.subnet.ip(), mac: vtep_mac }),
                    fdb: self.device.add_fdb(
                        Neighbor { ip: e.lease.attrs.public_ip, mac: vtep_mac },
                    ),
                    route: Route {
                        dst: Some(IpNetwork::V4(e.lease.subnet)),
                        gw: Some(IpAddr::V4(e.lease.subnet.ip())),
                        link_index: self.device.link.link_attrs.index,
                        flags: RTNH_F_ONLINK,
                        scope: RT_SCOPE_UNIVERSE,
                    },
                },
            ),
            EventType::Delete => None,
        }
    }

    /// What the kernel is told of a host by its link's attributes. A hardware address that a host
    /// wrote down is the one that the others use.
    pub fn handle_event(&self, e: &LeaseWatchEvent, vxlan_attrs: &VxlanLeaseAttrs) -> (r: Result<
        Option<PeerUpdate>,
        FlannelError,
    >)
        ensures
            match mac_of(vxlan_attrs.vtep_mac@) {
                None => r == Err::<Option<PeerUpdate>, FlannelError>(FlannelError::InvalidMac),
                Some(octets) => match e.event_type {
                    EventType::Delete => r == Ok::<Option<PeerUpdate>, FlannelError>(None),
                    EventType::Put => r matches Ok(Some(u)) && u.arp.hardware_addr.octets@ == octets
                        && u == peer_update(
                        e.lease,
                        u.arp.hardware_addr,
                        self.device.link.link_attrs.index,
                    ),
                },
            },
            forall|octets: Seq<u8>|
                octets.len() == 6 && vxlan_attrs.vtep_mac@ == #[trigger] mac_text(octets)
                    && e.event_type == EventType::Put ==> (r matches Ok(Some(u))
                    && u.arp.hardware_addr.octets@ == octets && u.fdb.hardware_addr.octets@
                    == octets),
    {
        match MacAddr6::parse(vxlan_attrs.vtep_mac.as_str()) {
            Ok(vtep_mac) => Ok(self.peer_of(e, vtep_mac)),
            Err(e) => Err(e),
        }
    }
}

/// The entries for a host fit together: the route leads, over the link, to an address that resolves
/// to a hardware address whose frames go to the host's public address.
pub proof fn peer_entries_fit_together(lease: Lease, mac: MacAddr6, link_index: u32)
    ensures
        ({
            let u = peer_update(lease, mac, link_index);
            &&& u.route.dst == Some(IpNetwork::V4(lease.subnet))
            &&& u.route.gw == Some(u.arp.ip)
            &&& u.arp.hardware_addr == u.fdb.hardware_addr
            &&& u.fdb.ip == IpAddr::V4(lease.attrs.public_ip)
            &&& u.route.link_index == link_index && u.arp.link_index == link_index
                && u.fdb.link_index == link_index
        }),
{
}

/// The entries for a host are permanent. That for its address in the network is a unicast one, that
/// for its hardware address one of the bridge for the link itself, and the route is one over a link
/// that the gateway need not be a neighbour on.
pub proof fn peer_entries_are_of_their_kinds(lease: Lease, mac: MacAddr6, link_index: u32)
    ensures
        ({
            let u = peer_update(lease, mac, link_index);
            &&& u.arp.ip == IpAddr::V4(lease.subnet.ip()) && u.arp.hardware_addr == mac
            &&& u.fdb.hardware_addr == mac
            &&& u.arp.state == 128 && u.fdb.state == 128
            &&& u.arp.family == 0 && u.fdb.family == 7
            &&& u.arp.flags == 0 && u.fdb.flags == 2
            &&& u.arp.type_ == 1 && u.fdb.type_ == 0
            &&& u.route.flags == 4 && u.route.scope == 0
        }),
{
}

/// The longest packet is the interface's, and the lease the network's own.
pub proof fn packets_are_as_long_as_the_interface_takes(network: VxlanNetwork)
    ensures
        network.longest_packet() == network.ext_iface.iface.mtu,
        network.held() == network.subnet_lease,
{
}

}
