//! The VXLAN link of the host.
use vstd::prelude::*;

use crate::addr::{IpAddr, Ipv4Addr};
use crate::error::FlannelError;
use crate::mac::{new_hardware_addr, MacAddr6};
use crate::netlink::{
    addrs_differ, both_differ, found_link, Link, LinkAttrs, LinkKind, Neigh, VxlanLink, AF_BRIDGE,
    NTF_SELF, NUD_PERMANENT, RTN_UNICAST,
};

verus! {

/// What the outer headers around a frame take.
pub const ENCAP_OVERHEAD: u32 = 50;

/// What the link is to be.
#[derive(Debug)]
pub struct VxlanDeviceAttrs {
    pub vni: u32,
    pub name: String,
    pub mtu: u32,
    pub vtep_index: u32,
    pub vtep_addr: IpAddr,
    pub vtep_port: u16,
    pub gbp: bool,
}

/// The hardware address of a host's link.
#[derive(Debug, Clone, Copy)]
pub struct Neighbor {
    pub ip: Ipv4Addr,
    pub mac: MacAddr6,
}

#[derive(Debug)]
pub struct VxlanDevice {
    pub link: Link,
    pub direct_routing: bool,
}

/// The link with a hardware address that some attributes describe. Its port is the kernel's own.
pub open spec fn described_link(attrs: VxlanDeviceAttrs, mac: MacAddr6) -> Link {
    Link {
        link_attrs: LinkAttrs {
            name: attrs.name,
            index: 0,
            mtu: (attrs.mtu - ENCAP_OVERHEAD) as u32,
            hardware_addr: Some(mac),
        },
        link_kind: LinkKind::Vxlan(
            VxlanLink {
                vxlan_id: attrs.vni,
                vtep_dev_index: attrs.vtep_index,
                src_addr: Some(attrs.vtep_addr),
                group: None,
                l2miss: false,
                port: 0,
                gbp: attrs.gbp,
            },
        ),
    }
}

/// The link with a hardware address that some attributes describe.
pub fn link_with_mac(attrs: VxlanDeviceAttrs, mac: MacAddr6) -> (r: Link)
    requires
        attrs.mtu >= ENCAP_OVERHEAD,
    ensures
        r == described_link(attrs, mac),
{
    Link {
        link_attrs: LinkAttrs {
            name: attrs.name,
            index: 0,
            mtu: attrs.mtu - ENCAP_OVERHEAD,
            hardware_addr: Some(mac),
        },
        link_kind: LinkKind::Vxlan(
            VxlanLink {
                vxlan_id: attrs.vni,
                vtep_dev_index: attrs.vtep_index,
                src_addr: Some(attrs.vtep_addr),
                group: None,
                l2miss: false,
                port: 0,
                gbp: attrs.gbp,
            },
        ),
    }
}

impl VxlanDevice {
    /// The device that the kernel is asked for, with a random hardware address.
    pub fn new(vxlan_device_attrs: VxlanDeviceAttrs, direct_routing: bool) -> (r: Result<
        Self,
        FlannelError,
    >)
        requires
            vxlan_device_attrs.mtu >= ENCAP_OVERHEAD,
        ensures
            r is Ok,
            r->Ok_0.direct_routing == direct_routing,
            r->Ok_0.link.link_attrs.hardware_addr is Some,
            r->Ok_0.link.link_attrs.hardware_addr->0.is_local_unicast(),
            r->Ok_0.link == described_link(
                vxlan_device_attrs,
                r->Ok_0.link.link_attrs.hardware_addr->0,
            ),
    {
        match new_hardware_addr() {
            Ok(mac) => Ok(
                VxlanDevice { link: link_with_mac(vxlan_device_attrs, mac), direct_routing },
            ),
            Err(e) => Err(e),
        }
    }

    /// The entry that resolves a host's address in the network to its link.
    pub fn add_arp(&self, n: Neighbor) -> (r: Neigh)
        ensures
            r == (Neigh {
                link_index: self.link.link_attrs.index,
                family: 0,
                state: NUD_PERMANENT,
                flags: 0,
                type_: RTN_UNICAST,
                ip: IpAddr::V4(n.ip),
                hardware_addr: n.mac,
            }),
    {
        Neigh {
            link_index: self.link.link_attrs.index,
            family: 0,
            state: NUD_PERMANENT,
            flags: 0,
            type_: RTN_UNICAST,
            ip: IpAddr::V4(n.ip),
            hardware_addr: n.mac,
        }
    }

    /// The entry that sends the frames for a host's link to its public address.
    pub fn add_fdb(&self, n: Neighbor) -> (r: Neigh)
        ensures
            r == (Neigh {
                link_index: self.link.link_attrs.index,
                family: AF_BRIDGE,
                state: NUD_PERMANENT,
                flags: NTF_SELF,
                type_: 0,
                ip: IpAddr::V4(n.ip),
                hardware_addr: n.mac,
            }),
    {
        Neigh {
            link_index: self.link.link_attrs.index,
            family: AF_BRIDGE,
            state: NUD_PERMANENT,
            flags: NTF_SELF,
            type_: 0,
            ip: IpAddr::V4(n.ip),
            hardware_addr: n.mac,
        }
    }
}

/// Whether two numbers are set and differ.
pub open spec fn set_and_differ(x: int, y: int) -> bool {
    x > 0 && y > 0 && x != y
}

/// Whether an existing VXLAN link can stand in for another: they agree on what both of them set.
pub open spec fn vxlan_compatible(x: VxlanLink, y: VxlanLink) -> bool {
    &&& x.vxlan_id == y.vxlan_id
    &&& !set_and_differ(x.vtep_dev_index as int, y.vtep_dev_index as int)
    &&& !both_differ(x.src_addr, y.src_addr)
    &&& !both_differ(x.group, y.group)
    &&& x.l2miss == y.l2miss
    &&& !set_and_differ(x.port as int, y.port as int)
    &&& x.gbp == y.gbp
}

/// Whether both links are VXLAN links of which one can stand in for the other.
pub open spec fn links_compatible(l1: Link, l2: Link) -> bool {
    match (l1.link_kind, l2.link_kind) {
        (LinkKind::Vxlan(x), LinkKind::Vxlan(y)) => vxlan_compatible(x, y),
        _ => false,
    }
}

/// Whether an existing link can be kept: despite its name, true where it is compatible.
pub fn vxlan_links_incompat(l1: &Link, l2: &Link) -> (r: bool)
    ensures
        r == links_compatible(*l1, *l2),
{
    let (v1, v2) = match (&l1.link_kind, &l2.link_kind) {
        (LinkKind::Vxlan(v1), LinkKind::Vxlan(v2)) => (v1, v2),
        _ => return false,
    };
    if v1.vxlan_id != v2.vxlan_id {
        return false;
    }
    if v1.vtep_dev_index > 0 && v2.vtep_dev_index > 0 && v1.vtep_dev_index != v2.vtep_dev_index {
        return false;
    }
    if addrs_differ(v1.src_addr, v2.src_addr) {
        return false;
    }
    if addrs_differ(v1.group, v2.group) {
        return false;
    }
    if v1.l2miss != v2.l2miss {
        return false;
    }
    if v1.port > 0 && v2.port > 0 && v1.port != v2.port {
        return false;
    }
    if v1.gbp != v2.gbp {
        return false;
    }
    true
}

/// How the kernel answered the request to add the link.
#[derive(Debug, Clone, Copy, PartialEq, Eq, Structural)]
pub enum LinkAddReply {
    Added,
    /// A link of that name is there.
    AlreadyExists,
    /// The system refused for another reason.
    SystemError,
    /// The request could not be made.
    OtherError,
}

/// What follows the request to add the link.
#[derive(Debug, Clone, Copy, PartialEq, Eq, Structural)]
pub enum LinkStep {
    /// The link of that name is to be looked up and used.
    LookUp,
    /// The link of that name is to be looked up and compared.
    Compare,
    /// The error of the request is to be passed on.
    Fail,
}

/// What follows the request to add the link. What else the system objects to is passed over: the
/// link is looked up all the same.
pub fn ensure_vxlan_link(reply: LinkAddReply) -> (r: LinkStep)
    ensures
        r == LinkStep::LookUp <==> reply == LinkAddReply::Added || reply
            == LinkAddReply::SystemError,
        r == LinkStep::Compare <==> reply == LinkAddReply::AlreadyExists,
        r == LinkStep::Fail <==> reply == LinkAddReply::OtherError,
{
    match reply {
        LinkAddReply::Added => LinkStep::LookUp,
        LinkAddReply::AlreadyExists => LinkStep::Compare,
        LinkAddReply::SystemError => LinkStep::LookUp,
        LinkAddReply::OtherError => LinkStep::Fail,
    }
}

/// What becomes of a link that has the name already.
#[derive(Debug, PartialEq, Eq)]
pub enum ExistingLink {
    /// It is used as it is.
    Keep(Link),
    /// The link with this index is to be deleted, the wanted one added again and looked up.
    Replace(u32),
}

/// What becomes of a link that has the name already, where it is found.
pub fn existing_vxlan_link(link: &Link, existing: Option<Link>) -> (r: Result<
    ExistingLink,
    FlannelError,
>)
    ensures
        match existing {
            None => r == Err::<ExistingLink, FlannelError>(FlannelError::LinkNotFound),
            Some(e) => r == Ok::<ExistingLink, FlannelError>(
                if links_compatible(*link, e) {
                    ExistingLink::Keep(e)
                } else {
                    ExistingLink::Replace(e.link_attrs.index)
                },
            ),
        },
{
    match found_link(existing) {
        Err(e) => Err(e),
        Ok(existing) => if vxlan_links_incompat(link, &existing) {
            Ok(ExistingLink::Keep(existing))
        } else {
            Ok(ExistingLink::Replace(existing.link_attrs.index))
        },
    }
}

/// Links can stand in for each other, not only one for the other; every VXLAN link can for itself.
pub proof fn compatibility_goes_both_ways(l1: Link, l2: Link)
    ensures
        links_compatible(l1, l2) <==> links_compatible(l2, l1),
        l1.link_kind is Vxlan <==> links_compatible(l1, l1),
{
}

/// A link that was made for other attributes is kept only where they name the same network, and
/// the same device and address of the host.
pub proof fn kept_link_is_of_the_network(
    wanted: VxlanDeviceAttrs,
    wanted_mac: MacAddr6,
    existing: VxlanDeviceAttrs,
    mac: MacAddr6,
)
    requires
        links_compatible(described_link(wanted, wanted_mac), described_link(existing, mac)),
    ensures
        wanted.vni == existing.vni,
        wanted.vtep_addr == existing.vtep_addr,
        wanted.gbp == existing.gbp,
        wanted.vtep_index > 0 && existing.vtep_index > 0 ==> wanted.vtep_index
            == existing.vtep_index,
{
}

/// The link that some attributes describe has their name, network identifier, device, address and
/// group policy, the given hardware address, and leaves room for the 50 bytes of the headers around
/// a frame.
pub proof fn link_is_as_described(attrs: VxlanDeviceAttrs, mac: MacAddr6)
    requires
        attrs.mtu >= 50,
    ensures
        ({
            let link = described_link(attrs, mac);
            &&& link.link_attrs.name == attrs.name
            &&& link.link_attrs.mtu + 50 == attrs.mtu
            &&& link.link_attrs.hardware_addr == Some(mac)
            &&& link.link_attrs.index == 0
            &&& link.link_kind is Vxlan
            &&& link.link_kind->Vxlan_0.vxlan_id == attrs.vni
            &&& link.link_kind->Vxlan_0.vtep_dev_index == attrs.vtep_index
            &&& link.link_kind->Vxlan_0.src_addr == Some(attrs.vtep_addr)
            &&& link.link_kind->Vxlan_0.gbp == attrs.gbp
            &&& link.link_kind->Vxlan_0.port == 0 && link.link_kind->Vxlan_0.group is None
            &&& !link.link_kind->Vxlan_0.l2miss
        }),
{
}

/// One link can stand in for the other exactly where both are VXLAN links of the same network
/// identifier, miss notification and group policy, and no device, source, group or port that both
/// of them set differs.
pub proof fn links_stand_in_where_they_agree(l1: Link, l2: Link)
    ensures
        !(l1.link_kind is Vxlan && l2.link_kind is Vxlan) ==> !links_compatible(l1, l2),
        l1.link_kind is Vxlan && l2.link_kind is Vxlan ==> ({
            let x = l1.link_kind->Vxlan_0;
            let y = l2.link_kind->Vxlan_0;
            links_compatible(l1, l2) <==> {
                &&& x.vxlan_id == y.vxlan_id && x.l2miss == y.l2miss && x.gbp == y.gbp
                &&& x.vtep_dev_index == 0 || y.vtep_dev_index == 0 || x.vtep_dev_index
                    == y.vtep_dev_index
                &&& x.port == 0 || y.port == 0 || x.port == y.port
                &&& x.src_addr is None || y.src_addr is None || x.src_addr->0 == y.src_addr->0
                &&& x.group is None || y.group is None || x.group->0 == y.group->0
            }
        }),
{
}

}
