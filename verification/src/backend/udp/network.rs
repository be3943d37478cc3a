//! The UDP backend: packets between the hosts in UDP datagrams.
use vstd::arithmetic::div_mod::{lemma_fundamental_div_mod, lemma_mod_multiples_basic};
use vstd::arithmetic::power2::pow2;
use vstd::prelude::*;

use crate::addr::{
    addr_text, block, block_size, block_size_bounds, network_eq, network_of_parts, IpNetwork,
    Ipv4Addr, Ipv4Network,
};
use crate::backend::common::{ExternalInterface, Network};
use crate::error::FlannelError;
use crate::json::{json_numbers, number_member};
use crate::lease::{Lease, LeaseAttrs};
use crate::netlink::{Route, RT_SCOPE_UNIVERSE};
use crate::subnet::config::Config;
use crate::subnet::manager::{aligned, SubnetManager};
use crate::text::{decimal, decimal_text};

verus! {

pub const DEFAULT_PORT: u16 = 8285;

/// What the IP and UDP headers around a packet take.
pub const ENCAP_OVERHEAD: u32 = 28;

/// The backend before a network is registered.
#[derive(Debug)]
pub struct UdpBackend {
    pub sm: SubnetManager,
    pub ext_iface: ExternalInterface,
}

/// The host's part of the network.
#[derive(Debug)]
pub struct UdpNetwork {
    pub ext_iface: ExternalInterface,
    pub subnet_lease: Lease,
    pub port: u16,
    /// The address of the tunnel, with the prefix length of the whole network.
    pub tun_net: Ipv4Network,
    pub sm: SubnetManager,
}

/// The port that was found, of which a 16-bit number is left, or the default one.
pub fn port_or_default(found: Option<u64>) -> (r: u16)
    ensures
        match found {
            Some(port) => r == port % 0x10000,
            None => r == DEFAULT_PORT,
        },
{
    match found {
        Some(port) => {
            assert(port as u16 == port % 0x10000) by (bit_vector);
            port as u16
        },
        None => DEFAULT_PORT,
    }
}

/// The port that a configuration names, of which a 16-bit number is left, or the default one.
pub open spec fn configured_port(backend: Option<serde_json::Value>) -> int {
    match backend {
        Some(value) => if json_numbers(value).contains_key("Port"@) {
            json_numbers(value)["Port"@] as int % 0x10000
        } else {
            DEFAULT_PORT as int
        },
        None => DEFAULT_PORT as int,
    }
}

/// The port that a configuration names, or the default one.
pub fn get_port_from_config(config: &Config) -> (r: u16)
    ensures
        r == configured_port(config.backend),
{
    let found = match &config.backend {
        Some(backend) => number_member(backend, "Port"),
        None => None,
    };
    port_or_default(found)
}

impl UdpBackend {
    pub fn new(sm: SubnetManager, ext_iface: ExternalInterface) -> (r: Self)
        ensures
            r.sm == sm,
            r.ext_iface == ext_iface,
    {
        UdpBackend { sm, ext_iface }
    }

    /// What the host tells the others when it asks for a lease.
    pub fn lease_attrs(&self) -> (r: LeaseAttrs)
        ensures
            r == (LeaseAttrs { public_ip: self.ext_iface.iface_addr, ..LeaseAttrs::unset() }),
    {
        let mut attrs = LeaseAttrs::default();
        attrs.public_ip = self.ext_iface.iface_addr;
        attrs
    }

    /// The host's part of the network, with the lease it was given.
    pub fn register_network(self, config: &Config, lease: Lease) -> (r: Result<
        UdpNetwork,
        FlannelError,
    >)
        ensures
            match config.network {
                None => r == Err::<UdpNetwork, FlannelError>(FlannelError::NoFlannelNetwork),
                Some(net) => r matches Ok(n) && n.ext_iface == self.ext_iface && n.sm == self.sm
                    && n.subnet_lease == lease && n.port == configured_port(config.backend)
                    && n.tun_net == Ipv4Network::of(lease.subnet.ip(), net.prefix()),
            },
    {
        let port = get_port_from_config(config);
        // 172.17.40.0/24
        let net = match config.get_flannel_network() {
            Ok(net) => net,
            Err(e) => return Err(e),
        };
        match Ipv4Network::new(lease.subnet.ip(), net.prefix()) {
            Ok(tun_net) => Ok(UdpNetwork::new(self.sm, self.ext_iface, port, tun_net, lease)),
            Err(e) => Err(e),
        }
    }
}

impl UdpNetwork {
    pub fn new(
        sm: SubnetManager,
        ext_iface: ExternalInterface,
        port: u16,
        nw: Ipv4Network,
        lease: Lease,
    ) -> (r: Self)
        ensures
            r == (UdpNetwork { ext_iface, subnet_lease: lease, port, tun_net: nw, sm }),
    {
        UdpNetwork { ext_iface, subnet_lease: lease, port, tun_net: nw, sm }
    }

    /// The address that datagrams are received at.
    pub fn bind_addr(&self) -> (r: String)
        ensures
            r@ == addr_text(self.ext_iface.iface_addr) + seq![':'] + decimal(self.port as nat),
    {
        proof {
            reveal_strlit(":");
        }
        let mut s = self.ext_iface.iface_addr.to_text();
        s.append(":");
        s.append(decimal_text(self.port as u64).as_str());
        s
    }
}

impl Network for UdpNetwork {
    open spec fn held(&self) -> Lease {
        self.subnet_lease
    }

    /// A packet has to fit into a datagram.
    open spec fn longest_packet(&self) -> int {
        self.ext_iface.iface.mtu - ENCAP_OVERHEAD
    }

    fn lease(&self) -> (r: &Lease) {
        &self.subnet_lease
    }

    fn mtu(&self) -> (r: u32) {
        self.ext_iface.iface.mtu - ENCAP_OVERHEAD
    }
}

/// How a tunnel is set up.
#[derive(Debug, PartialEq, Eq)]
pub struct TunPlan {
    /// The tunnel's own address, alone, so that no broadcast routes are created.
    pub local: Ipv4Network,
    /// The route that sends the packets of the whole network into the tunnel.
    pub route: Route,
}

/// The network that an address with a prefix length lies in.
pub open spec fn surrounding(n: Ipv4Network) -> Ipv4Network {
    Ipv4Network::of(
        Ipv4Addr { bits: (block(n.ip(), n.prefix()) * block_size(n.prefix())) as u32 },
        n.prefix(),
    )
}

/// How a tunnel is set up for an address with the prefix length of the whole network.
// 172.17.43.1/16
pub fn configure_tun(link_index: u32, ip_network: Ipv4Network) -> (r: TunPlan)
    ensures
        r.local == Ipv4Network::of(ip_network.ip(), 32),
        r.route == (Route {
            dst: Some(IpNetwork::V4(surrounding(ip_network))),
            gw: None,
            link_index,
            flags: 0,
            scope: RT_SCOPE_UNIVERSE,
        }),
{
    let local = Ipv4Network::host(ip_network.ip());
    let dst = match Ipv4Network::new(ip_network.network(), ip_network.prefix()) {
        Ok(n) => n,
        Err(_) => local,
    };
    TunPlan {
        local,
        route: Route {
            dst: Some(IpNetwork::V4(dst)),
            gw: None,
            link_index,
            flags: 0,
            scope: RT_SCOPE_UNIVERSE,
        },
    }
}

/// The tunnel of a host whose subnet lies in the network gets the packets of exactly that network,
/// where the network's address has no host bits.
pub proof fn tunnel_gets_the_packets_of_the_network(net: Ipv4Network, ip: Ipv4Addr)
    requires
        net.prefix() <= 32,
        aligned(net.ip(), net.prefix()),
        net.has(ip),
    ensures
        surrounding(Ipv4Network::of(ip, net.prefix())) == net,
{
    broadcast use network_of_parts;

    let size = block_size(net.prefix()) as int;
    let own = net.ip().bits as int;
    block_size_bounds(net.prefix());
    lemma_fundamental_div_mod(own, size);
    assert(own / size * size == own) by (nonlinear_arith)
        requires
            own == size * (own / size),
    ;
    network_eq(surrounding(Ipv4Network::of(ip, net.prefix())), net);
}

/// A configuration's port is the number that it names, where that is a port; of a larger one the
/// lowest 16 bits are left. Without a number the port is 8285.
pub proof fn port_is_the_one_that_is_named(value: serde_json::Value)
    ensures
        configured_port(None) == 8285,
        !json_numbers(value).contains_key("Port"@) ==> configured_port(Some(value)) == 8285,
        json_numbers(value).contains_key("Port"@) ==> ({
            let named = json_numbers(value)["Port"@];
            let port = configured_port(Some(value));
            &&& 0 <= port < 65536 && (named - port) % 65536 == 0
            &&& named < 65536 ==> port == named
        }),
{
}

/// The network that an address lies in has its prefix length, no host bits, and holds the address.
pub proof fn surrounding_network_holds_the_address(n: Ipv4Network)
    requires
        n.prefix() <= 32,
    ensures
        ({
            let s = surrounding(n);
            let size = pow2((32 - n.prefix()) as nat);
            &&& s.prefix() == n.prefix()
            &&& s.ip().bits as nat % size == 0
            &&& s.ip().bits <= n.ip().bits < s.ip().bits + size
        }),
{
    broadcast use network_of_parts;

    let size = block_size(n.prefix()) as int;
    let own = n.ip().bits as int;
    block_size_bounds(n.prefix());
    lemma_fundamental_div_mod(own, size);
    let start = own / size * size;
    assert(start == size * (own / size)) by (nonlinear_arith)
        requires
            start == own / size * size,
    ;
    assert(0 <= own % size < size) by (nonlinear_arith)
        requires
            size > 0,
    ;
    assert(0 <= own / size) by (nonlinear_arith)
        requires
            size > 0,
            own >= 0,
    ;
    assert(0 <= start) by (nonlinear_arith)
        requires
            start == own / size * size,
            own / size >= 0,
            size > 0,
    ;
    lemma_mod_multiples_basic(own / size, size);
}

/// A packet in a datagram leaves room for the 28 bytes of the IP and UDP headers around it.
pub proof fn packets_leave_room_for_the_headers(network: UdpNetwork)
    ensures
        network.longest_packet() + 28 == network.ext_iface.iface.mtu,
        network.held() == network.subnet_lease,
{
}

}
