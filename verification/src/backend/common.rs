//! What the backends share.
use vstd::prelude::*;

use crate::addr::{Ipv4Addr, Ipv6Addr};
use crate::lease::Lease;

verus! {

/// A network interface of the host.
#[derive(Debug, PartialEq, Eq)]
pub struct Interface {
    pub index: u32,
    pub mtu: u32,
    pub name: String,
}

/// The interface over which the hosts reach each other.
#[derive(Debug, PartialEq, Eq)]
pub struct ExternalInterface {
    pub iface: Interface,
    pub iface_addr: Ipv4Addr,
    pub iface_v6_addr: Option<Ipv6Addr>,
    pub ext_addr: Option<Ipv4Addr>,
    pub ext_v6_addr: Option<Ipv6Addr>,
}

/// The host's part of a network.
pub trait Network {
    /// The subnet that the host holds.
    spec fn held(&self) -> Lease;

    /// The longest packet that fits, where the interface leaves room for it.
    spec fn longest_packet(&self) -> int;

    fn lease(&self) -> (r: &Lease)
        ensures
            *r == self.held(),
    ;

    fn mtu(&self) -> (r: u32)
        requires
            self.longest_packet() >= 0,
        ensures
            r == self.longest_packet(),
    ;
}

impl Clone for Interface {
    fn clone(&self) -> (r: Self)
        ensures
            r == *self,
    {
        Interface { index: self.index, mtu: self.mtu, name: self.name.clone() }
    }
}

impl Clone for ExternalInterface {
    fn clone(&self) -> (r: Self)
        ensures
            r == *self,
    {
        ExternalInterface {
            iface: self.iface.clone(),
            iface_addr: self.iface_addr,
            iface_v6_addr: self.iface_v6_addr,
            ext_addr: self.ext_addr,
            ext_v6_addr: self.ext_v6_addr,
        }
    }
}

}
