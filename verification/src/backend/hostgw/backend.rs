//! The host-gw backend: the hosts are each other's gateways.
use vstd::prelude::*;

use crate::backend::common::ExternalInterface;
use crate::backend::hostgw::router_network::RouterNetwork;
use crate::error::FlannelError;
use crate::lease::{Lease, LeaseAttrs};
use crate::netlink::Route;
use crate::subnet::manager::SubnetManager;

verus! {

/// The backend before a network is registered.
#[derive(Debug)]
pub struct HostGw {
    pub subnet_manager: SubnetManager,
    pub ext_iface: ExternalInterface,
}

impl HostGw {
    /// The backend of an interface whose public address is its own.
    pub fn new(subnet_manager: SubnetManager, ext_iface: ExternalInterface) -> (r: Result<
        Self,
        FlannelError,
    >)
        ensures
            ext_iface.ext_addr == Some(ext_iface.iface_addr) ==> r == Ok::<Self, FlannelError>(
                HostGw { subnet_manager, ext_iface },
            ),
            ext_iface.ext_addr != Some(ext_iface.iface_addr) ==> r == Err::<Self, FlannelError>(
                FlannelError::PublicIpDiffers,
            ),
    {
        let own = match ext_iface.ext_addr {
            Some(addr) => addr == ext_iface.iface_addr,
            None => false,
        };
        if !own {
            return Err(FlannelError::PublicIpDiffers);
        }
        Ok(HostGw { subnet_manager, ext_iface })
    }

    /// What the host tells the others when it asks for a lease.
    pub fn lease_attrs(&self) -> (r: LeaseAttrs)
        requires
            self.ext_iface.ext_addr is Some,
        ensures
            r.public_ip == self.ext_iface.ext_addr->0,
            r.public_ipv6 is None,
            r.backend_type matches Some(t) && t@ == "host-gw"@,
            r.backend_data is None,
    {
        let mut attrs = LeaseAttrs::default();
        attrs.backend_type = Some("host-gw".to_owned());
        if let Some(ip) = self.ext_iface.ext_addr {
            attrs.public_ip = ip;
        }
        attrs
    }

    /// The host's part of the network, with the lease it was given.
    pub fn register_network(self, lease: Lease) -> (r: RouterNetwork)
        ensures
            r.subnet_lease == lease,
            r.ext_iface == self.ext_iface,
            r.routes@ == Seq::<Route>::empty(),
            r.subnet_manager == self.subnet_manager,
            r.mtu == self.ext_iface.iface.mtu,
            r.link_index == self.ext_iface.iface.index,
            r.backend_type@ == "host-gw"@,
    {
        RouterNetwork {
            subnet_lease: lease,
            mtu: self.ext_iface.iface.mtu,
            link_index: self.ext_iface.iface.index,
            ext_iface: self.ext_iface,
            routes: Vec::new(),
            subnet_manager: self.subnet_manager,
            backend_type: "host-gw",
        }
    }
}

}
