//! The VXLAN backend: frames between the hosts in the kernel's VXLAN tunnels.
use vstd::prelude::*;

use crate::addr::{IpAddr, Ipv4Network};
use crate::backend::common::ExternalInterface;
use crate::backend::vxlan::device::{VxlanDevice, VxlanDeviceAttrs};
use crate::backend::vxlan::network::{VxlanLeaseAttrs, VxlanNetwork};
use crate::error::FlannelError;
use crate::lease::{Lease, LeaseAttrs};
use crate::mac::{mac_text, MacAddr6};
use crate::subnet::config::Config;
use crate::subnet::manager::SubnetManager;
use crate::text::{decimal, decimal_text};

verus! {

pub const DEFAULT_VNI: u32 = 1;

pub const DEFAULT_PORT: u16 = 8472;

/// The backend before a network is registered.
#[derive(Debug)]
pub struct Vxlan {
    pub subnet_manager: SubnetManager,
    pub ext_iface: ExternalInterface,
}

/// The backend's part of the configuration.
#[derive(Debug, PartialEq, Eq)]
pub struct VxlanConfig {
    pub vxlan_type: String,
    /// The VXLAN network identifier.
    pub vni: u32,
    /// The UDP port.
    pub port: u16,
    /// Group based policy.
    pub gbp: bool,
    pub direct_routing: bool,
    pub mtu: Option<u32>,
}

impl VxlanConfig {
    /// The configuration with what it leaves open.
    pub open spec fn completed(self, iface_mtu: u32) -> Self {
        VxlanConfig {
            vni: if self.vni == 0 {
                DEFAULT_VNI
            } else {
                self.vni
            },
            port: if self.port == 0 {
                DEFAULT_PORT
            } else {
                self.port
            },
            mtu: match self.mtu {
                Some(mtu) => Some(mtu),
                None => Some(iface_mtu),
            },
            ..self
        }
    }

    /// Fills in what the configuration leaves open.
    pub fn with_defaults(self, iface_mtu: u32) -> (r: Self)
        ensures
            r == self.completed(iface_mtu),
    {
        let mut config = self;
        if config.vni == 0 {
            config.vni = DEFAULT_VNI;
        }
        if config.mtu.is_none() {
            config.mtu = Some(iface_mtu);
        }
        if config.port == 0 {
            config.port = DEFAULT_PORT;
        }
        config
    }
}

impl Vxlan {
    pub fn new(subnet_manager: SubnetManager, ext_iface: ExternalInterface) -> (r: Self)
        ensures
            r == (Vxlan { subnet_manager, ext_iface }),
    {
        Vxlan { subnet_manager, ext_iface }
    }

    /// The backend's part of a configuration, which has to be there.
    pub fn backend_of(config: &Config) -> (r: Result<&serde_json::Value, FlannelError>)
        ensures
            match config.backend {
                Some(backend) => r matches Ok(b) && *b == backend,
                None => r == Err::<&serde_json::Value, FlannelError>(
                    FlannelError::BackendNotDefined,
                ),
            },
    {
        match &config.backend {
            Some(backend) => Ok(backend),
            None => Err(FlannelError::BackendNotDefined),
        }
    }

    /// What the link is to be, by a configuration in which nothing is left open.
    pub fn device_attrs(&self, vxlan_config: &VxlanConfig) -> (r: VxlanDeviceAttrs)
        requires
            vxlan_config.mtu is Some,
        ensures
            r.vni == vxlan_config.vni,
            r.name@ == "flannel."@ + decimal(vxlan_config.vni as nat),
            r.mtu == vxlan_config.mtu->0,
            r.vtep_index == self.ext_iface.iface.index,
            r.vtep_addr == IpAddr::V4(self.ext_iface.iface_addr),
            r.vtep_port == vxlan_config.port,
            r.gbp == vxlan_config.gbp,
    {
        let mut name = "flannel.".to_owned();
        name.append(decimal_text(vxlan_config.vni as u64).as_str());
        let mtu = match vxlan_config.mtu {
            Some(mtu) => mtu,
            None => self.ext_iface.iface.mtu,
        };
        VxlanDeviceAttrs {
            vni: vxlan_config.vni,
            name,
            mtu,
            vtep_index: self.ext_iface.iface.index,
            vtep_addr: IpAddr::V4(self.ext_iface.iface_addr),
            vtep_port: vxlan_config.port,
            gbp: vxlan_config.gbp,
        }
    }

    /// What the link is to be, by a configuration as it was read, and whether hosts of the same
    /// network are routed to directly.
    pub fn plan_device(&self, vxlan_config: VxlanConfig) -> (r: (VxlanDeviceAttrs, bool))
        ensures
            ({
                let c = vxlan_config.completed(self.ext_iface.iface.mtu);
                &&& r.0.vni == c.vni && r.0.name@ == "flannel."@ + decimal(c.vni as nat)
                &&& r.0.mtu == c.mtu->0 && r.0.vtep_port == c.port && r.0.gbp == c.gbp
                &&& r.0.vtep_index == self.ext_iface.iface.index
                &&& r.0.vtep_addr == IpAddr::V4(self.ext_iface.iface_addr)
                &&& r.1 == c.direct_routing
            }),
    {
        let completed = vxlan_config.with_defaults(self.ext_iface.iface.mtu);
        (self.device_attrs(&completed), completed.direct_routing)
    }

    /// What the other hosts need to reach the link.
    pub fn vxlan_lease_attrs(vni: u32, mac: MacAddr6) -> (r: VxlanLeaseAttrs)
        ensures
            r.vni == vni,
            r.vtep_mac@ == mac_text(mac.octets@),
    {
        VxlanLeaseAttrs { vni, vtep_mac: mac.to_text() }
    }

    /// What the host tells the others when it asks for a lease, with the JSON text of the link's
    /// attributes.
    pub fn lease_attrs(&self, backend_data: String) -> (r: LeaseAttrs)
        ensures
            r.public_ip == self.ext_iface.iface_addr,
            r.public_ipv6 is None,
            r.backend_type matches Some(t) && t@ == "vxlan"@,
            r.backend_data == Some(backend_data),
    {
        LeaseAttrs {
            public_ip: self.ext_iface.iface_addr,
            public_ipv6: None,
            backend_type: Some("vxlan".to_owned()),
            backend_data: Some(backend_data),
        }
    }

    /// The address that the link is to have, alone, and the network that no other address of the
    /// link may lie in.
    pub fn link_addr(config: &Config, lease: &Lease) -> (r: Result<
        (Ipv4Network, Ipv4Network),
        FlannelError,
    >)
        ensures
            match config.network {
                Some(net) => r == Ok::<(Ipv4Network, Ipv4Network), FlannelError>(
                    (Ipv4Network::of(lease.subnet.ip(), 32), net),
                ),
                None => r == Err::<(Ipv4Network, Ipv4Network), FlannelError>(
                    FlannelError::NoFlannelNetwork,
                ),
            },
    {
        // 172.17.0.0/16
        match config.get_flannel_network() {
            Ok(net) => Ok((Ipv4Network::host(lease.subnet.ip()), net)),
            Err(e) => Err(e),
        }
    }

    /// The host's part of the network, with the lease it was given.
    pub fn register_network(self, lease: Lease, device: VxlanDevice, mtu: u32) -> (r: VxlanNetwork)
        ensures
            r.subnet_lease == lease,
            r.ext_iface == self.ext_iface,
            r.device == device,
            r.subnet_manager == self.subnet_manager,
            r.mtu == mtu,
    {
        VxlanNetwork::new(self.subnet_manager, self.ext_iface, device, lease, mtu)
    }
}

/// What a configuration sets stays as it is; where it leaves them open, the network identifier is 1,
/// the port 8472 and the packet length that of the interface.
pub proof fn open_settings_are_filled_in(config: VxlanConfig, iface_mtu: u32)
    ensures
        ({
            let c = config.completed(iface_mtu);
            &&& c.vni == config.vni || config.vni == 0 && c.vni == 1
            &&& c.vni > 0
            &&& c.port == config.port || config.port == 0 && c.port == 8472
            &&& c.port > 0
            &&& c.mtu is Some
            &&& config.mtu is Some ==> c.mtu == config.mtu
            &&& config.mtu is None ==> c.mtu->0 == iface_mtu
            &&& c.gbp == config.gbp && c.direct_routing == config.direct_routing
            &&& c.vxlan_type == config.vxlan_type
        }),
{
}

}
