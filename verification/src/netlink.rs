//! Routes, links and neighbours of the kernel.
use vstd::prelude::*;

use crate::addr::{IpAddr, IpNetwork};
use crate::error::FlannelError;
use crate::mac::MacAddr6;

verus! {

/// A route whose gateway is reached directly.
pub const RTNH_F_ONLINK: u32 = 4;

pub const RT_SCOPE_UNIVERSE: u8 = 0;

/// A neighbour entry that does not expire.
pub const NUD_PERMANENT: u16 = 0x80;

pub const RTN_UNICAST: u32 = 1;

pub const AF_BRIDGE: u8 = 7;

pub const NTF_SELF: u32 = 2;

/// A route.
#[derive(Debug, Clone, Copy, PartialEq, Eq)]
pub struct Route {
    pub dst: Option<IpNetwork>,
    pub gw: Option<IpAddr>,
    pub link_index: u32,
    pub flags: u32,
    pub scope: u8,
}

/// A neighbour: a hardware address for an address.
#[derive(Debug, Clone, Copy, PartialEq, Eq)]
pub struct Neigh {
    pub link_index: u32,
    pub family: u8,
    pub state: u16,
    pub flags: u32,
    pub type_: u32,
    pub ip: IpAddr,
    pub hardware_addr: MacAddr6,
}

/// What every link has.
#[derive(Debug, PartialEq, Eq)]
pub struct LinkAttrs {
    pub name: String,
    pub index: u32,
    pub mtu: u32,
    pub hardware_addr: Option<MacAddr6>,
}

/// What a VXLAN link has besides.
#[derive(Debug, Clone, Copy, PartialEq, Eq)]
pub struct VxlanLink {
    pub vxlan_id: u32,
    pub vtep_dev_index: u32,
    pub src_addr: Option<IpAddr>,
    pub group: Option<IpAddr>,
    pub l2miss: bool,
    pub port: u16,
    pub gbp: bool,
}

#[derive(Debug, PartialEq, Eq)]
pub enum LinkKind {
    Vxlan(VxlanLink),
    /// A link of another kind, by its name.
    Other(String),
}

/// A link.
#[derive(Debug, PartialEq, Eq)]
pub struct Link {
    pub link_attrs: LinkAttrs,
    pub link_kind: LinkKind,
}

/// Whether both are there and the same.
pub open spec fn both_same<T>(x: Option<T>, y: Option<T>) -> bool {
    x is Some && x == y
}

/// Whether both are there and differ.
pub open spec fn both_differ<T>(x: Option<T>, y: Option<T>) -> bool {
    x is Some && y is Some && x != y
}

/// Whether two routes have the same destination, the same gateway and the same link.
pub open spec fn same_route(x: Route, y: Route) -> bool {
    both_same(x.dst, y.dst) && both_same(x.gw, y.gw) && x.link_index == y.link_index
}

/// Whether two routes have the same destination, the same gateway and the same link.
pub fn route_equal(x: &Route, y: &Route) -> (r: bool)
    ensures
        r == same_route(*x, *y),
{
    let same_dst = match (x.dst, y.dst) {
        (Some(a), Some(b)) => a == b,
        _ => false,
    };
    let same_gw = match (x.gw, y.gw) {
        (Some(a), Some(b)) => a == b,
        _ => false,
    };
    same_dst && same_gw && x.link_index == y.link_index
}

/// Whether two addresses are there and differ.
pub fn addrs_differ(x: Option<IpAddr>, y: Option<IpAddr>) -> (r: bool)
    ensures
        r == both_differ(x, y),
{
    match (x, y) {
        (Some(a), Some(b)) => a != b,
        _ => false,
    }
}

/// The link that was looked up, where it is there.
pub fn found_link(found: Option<Link>) -> (r: Result<Link, FlannelError>)
    ensures
        match found {
            Some(link) => r == Ok::<Link, FlannelError>(link),
            None => r == Err::<Link, FlannelError>(FlannelError::LinkNotFound),
        },
{
    match found {
        Some(link) => Ok(link),
        None => Err(FlannelError::LinkNotFound),
    }
}

/// Being the same route goes both ways; a route with a destination and a gateway is the same as
/// itself, and two that are the same as a third are the same.
pub proof fn same_route_is_an_equivalence(x: Route, y: Route, z: Route)
    ensures
        same_route(x, y) <==> same_route(y, x),
        x.dst is Some && x.gw is Some ==> same_route(x, x),
        same_route(x, y) && same_route(y, z) ==> same_route(x, z),
{
}

/// Two routes are the same exactly where both have a destination, a gateway and a link, and the same
/// ones.
pub proof fn routes_are_the_same_by_destination_gateway_and_link(x: Route, y: Route)
    ensures
        same_route(x, y) <==> x.dst is Some && y.dst is Some && x.dst->0 == y.dst->0 && x.gw is Some
            && y.gw is Some && x.gw->0 == y.gw->0 && x.link_index == y.link_index,
{
}

}
