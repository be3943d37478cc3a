//! The subnet manager, and the check of the configuration.
use vstd::arithmetic::div_mod::lemma_fundamental_div_mod;
use vstd::arithmetic::power2::{
    lemma2_to64, lemma_pow2_adds, lemma_pow2_strictly_increases, pow2,
};
use vstd::prelude::*;

use crate::addr::{
    block, block_of_shorter_prefix, block_size, block_size_bounds, block_size_of_longer, is_aligned,
    network_is_a_range, network_of_parts, size_of_block, Add, Ipv4Addr, Ipv4Network,
    Ipv4NetworkIterator, Sub,
};
use crate::error::FlannelError;
use crate::etcd::registry::EtcdSubnetRegistry;
use crate::json::{json_strings, string_member};
use crate::subnet::config::Config;

verus! {

broadcast use network_of_parts;

/// How long a subnet is leased, in seconds.
pub const SUBNET_TTL: i64 = 86_400;

/// Manages the leases of one host.
#[derive(Debug)]
pub struct SubnetManager {
    pub registry: EtcdSubnetRegistry,
    /// The subnet that the host held before it was restarted.
    pub prev_subnet: Option<Ipv4Network>,
    /// How long before its end a lease is renewed, in minutes.
    pub subnet_lease_renew_margin: u32,
}

/// The backend that a configuration names, or `udp`.
pub open spec fn backend_type_text(be: Option<serde_json::Value>) -> Seq<char> {
    match be {
        Some(value) => if json_strings(value).contains_key("Type"@) {
            json_strings(value)["Type"@]
        } else {
            "udp"@
        },
        None => "udp"@,
    }
}

/// The type that was found, or `udp`.
pub fn backend_type_or_default(found: Option<String>) -> (r: String)
    ensures
        match found {
            Some(t) => r == t,
            None => r@ == "udp"@,
        },
{
    match found {
        Some(t) => t,
        None => "udp".to_owned(),
    }
}

/// The backend that a configuration names, or `udp`.
pub fn parse_backend_type(be: &Option<serde_json::Value>) -> (r: Result<String, FlannelError>)
    ensures
        r matches Ok(t) && t@ == backend_type_text(*be),
{
    let found = match be {
        Some(value) => string_member(value, "Type"),
        None => None,
    };
    Ok(backend_type_or_default(found))
}

/// The prefix length of the subnets that a configuration with a network asks for.
pub open spec fn planned_len(config: Config, network: Ipv4Network) -> Result<u8, FlannelError> {
    if config.subnet_len > 0 {
        if config.subnet_len > 30 {
            Err(FlannelError::SubnetLenTooLong)
        } else if config.subnet_len < network.prefix() + 2 {
            Err(FlannelError::TooFewSubnets)
        } else {
            Ok(config.subnet_len)
        }
    } else if network.prefix() > 28 {
        Err(FlannelError::NetworkTooSmall)
    } else if network.prefix() <= 22 {
        Ok(24)
    } else {
        Ok((network.prefix() + 2) as u8)
    }
}

/// The first subnet: the configured one, or the second subnet counted from the network's address.
pub open spec fn planned_min(config: Config, network: Ipv4Network, len: u8) -> Ipv4Addr {
    match config.subnet_min {
        Some(min) => min,
        None => Ipv4Addr { bits: (network.ip().bits + block_size(len)) as u32 },
    }
}

/// The last subnet: the configured one, or the last subnet before the next network.
pub open spec fn planned_max(config: Config, network: Ipv4Network, len: u8) -> Ipv4Addr {
    match config.subnet_max {
        Some(max) => max,
        None => Ipv4Addr {
            bits: (network.ip().bits + block_size(network.prefix()) - block_size(len)) as u32,
        },
    }
}

/// Whether an address that the configuration gives lies outside the network.
pub open spec fn outside(network: Ipv4Network, addr: Option<Ipv4Addr>) -> bool {
    addr matches Some(a) && !network.has(a)
}

/// Whether an address is the first one of a block.
pub open spec fn aligned(addr: Ipv4Addr, len: u8) -> bool {
    addr.bits as nat % block_size(len) == 0
}

/// The verdict on a configuration.
pub open spec fn check_outcome(config: Config) -> Result<(), FlannelError> {
    if !config.enable_ipv4 {
        Ok(())
    } else {
        match config.network {
            None => Err(FlannelError::MissingNetwork),
            Some(network) => match planned_len(config, network) {
                Err(e) => Err(e),
                Ok(len) => if outside(network, config.subnet_min) {
                    Err(FlannelError::SubnetMinOutOfRange)
                } else if outside(network, config.subnet_max) {
                    Err(FlannelError::SubnetMaxOutOfRange)
                } else if !aligned(planned_min(config, network, len), len) {
                    Err(FlannelError::SubnetMinUnaligned)
                } else if !aligned(planned_max(config, network, len), len) {
                    Err(FlannelError::SubnetMaxUnaligned)
                } else {
                    Ok(())
                },
            },
        }
    }
}

/// The configuration with what the check fills in.
pub open spec fn checked(config: Config) -> Config {
    if !config.enable_ipv4 {
        config
    } else {
        match config.network {
            None => config,
            Some(network) => match planned_len(config, network) {
                Err(_) => config,
                Ok(len) => Config {
                    subnet_len: len,
                    subnet_min: Some(planned_min(config, network, len)),
                    subnet_max: if outside(network, config.subnet_min) {
                        config.subnet_max
                    } else {
                        Some(planned_max(config, network, len))
                    },
                    ..config
                },
            },
        }
    }
}

/// Whether the subnets to fill in are addresses, and IPv6 is not asked for with a valid IPv4 part.
pub open spec fn checkable(config: Config) -> bool {
    &&& config.enable_ipv4 ==> (config.network matches Some(network) ==> (planned_len(
        config,
        network,
    ) matches Ok(len) ==> {
        &&& config.subnet_min is None ==> network.ip().bits + block_size(len) <= u32::MAX
        &&& config.subnet_max is None && !outside(network, config.subnet_min) ==> 0
            < network.prefix() && network.ip().bits + block_size(network.prefix()) <= u32::MAX
    }))
    &&& check_outcome(config) is Ok ==> !config.enable_ipv6
}

impl SubnetManager {
    pub fn new(
        registry: EtcdSubnetRegistry,
        prev_subnet: Option<Ipv4Network>,
        subnet_lease_renew_margin: u32,
    ) -> (r: Self)
        ensures
            r == (SubnetManager { registry, prev_subnet, subnet_lease_renew_margin }),
    {
        SubnetManager { registry, prev_subnet, subnet_lease_renew_margin }
    }

    /// Checks a configuration and fills in the length and the range of the subnets.
    pub fn check_network_config(&self, config: &mut Config) -> (r: Result<(), FlannelError>)
        requires
            checkable(*old(config)),
        ensures
            r == check_outcome(*old(config)),
            *final(config) == checked(*old(config)),
    {
        if config.enable_ipv4 {
            let cfg_network = match config.network {
                None => return Err(FlannelError::MissingNetwork),
                Some(n) => n,
            };
            let prefix = cfg_network.prefix();
            if config.subnet_len > 0 {
                if config.subnet_len > 30 {
                    return Err(FlannelError::SubnetLenTooLong);
                }
                if config.subnet_len < prefix + 2 {
                    return Err(FlannelError::TooFewSubnets);
                }
            } else {
                if prefix > 28 {
                    return Err(FlannelError::NetworkTooSmall);
                } else if prefix <= 22 {
                    // The network is big enough to give each host a /24.
                    config.subnet_len = 24;
                } else {
                    // Two more bits give four subnets.
                    config.subnet_len = prefix + 2;
                }
            }
            let len = config.subnet_len;
            let subnet_size = size_of_block(len);
            let subnet_min = match config.subnet_min {
                None => cfg_network.ip().add(subnet_size),
                Some(subnet_min) => {
                    if !cfg_network.contains(subnet_min) {
                        return Err(FlannelError::SubnetMinOutOfRange);
                    }
                    subnet_min
                },
            };
            config.subnet_min = Some(subnet_min);
            let subnet_max = match config.subnet_max {
                None => {
                    // 172.17.0.0/16 -> 172.18.0.0 -> 172.17.255.0
                    proof {
                        block_size_of_longer(prefix, len);
                    }
                    match cfg_network.next_network() {
                        Some(next) => next.ip().sub(subnet_size),
                        None => cfg_network.ip(),
                    }
                },
                Some(subnet_max) => {
                    if !cfg_network.contains(subnet_max) {
                        return Err(FlannelError::SubnetMaxOutOfRange);
                    }
                    subnet_max
                },
            };
            config.subnet_max = Some(subnet_max);
            if !is_aligned(subnet_min, len) {
                return Err(FlannelError::SubnetMinUnaligned);
            }
            if !is_aligned(subnet_max, len) {
                return Err(FlannelError::SubnetMaxUnaligned);
            }
        }
        Ok(())
    }

    /// Whether `check_network_config` can judge a configuration.
    pub fn can_check(config: &Config) -> (r: bool)
        ensures
            r == checkable(*config),
    {
        if !config.enable_ipv4 {
            return !config.enable_ipv6;
        }
        let network = match config.network {
            None => return true,
            Some(n) => n,
        };
        let prefix = network.prefix();
        let len = if config.subnet_len > 0 {
            if config.subnet_len > 30 || config.subnet_len < prefix + 2 {
                return true;
            }
            config.subnet_len
        } else if prefix > 28 {
            return true;
        } else if prefix <= 22 {
            24
        } else {
            prefix + 2
        };
        let ip = network.ip();
        let size = size_of_block(len);
        let min = match config.subnet_min {
            None => {
                if ip.bits > u32::MAX - size {
                    return false;
                }
                ip.add(size)
            },
            Some(min) => {
                if !network.contains(min) {
                    return true;
                }
                min
            },
        };
        let max = match config.subnet_max {
            None => {
                if prefix == 0 {
                    return false;
                }
                let whole = size_of_block(prefix);
                if ip.bits > u32::MAX - whole {
                    return false;
                }
                proof {
                    block_size_of_longer(prefix, len);
                }
                ip.add(whole).sub(size)
            },
            Some(max) => {
                if !network.contains(max) {
                    return true;
                }
                max
            },
        };
        !(config.enable_ipv6 && is_aligned(min, len) && is_aligned(max, len))
    }

    /// The configuration that is checked: as it was read, with IPv4 on.
    pub open spec fn with_ipv4(cfg: Config) -> Config {
        Config { enable_ipv4: true, ..cfg }
    }

    /// Takes the configuration as it was read: turns IPv4 on, names the backend, checks the rest
    /// and fills it in.
    pub fn get_network_config(&self, cfg: Config) -> (r: Result<Config, FlannelError>)
        requires
            checkable(Self::with_ipv4(cfg)),
        ensures
            match check_outcome(Self::with_ipv4(cfg)) {
                Ok(_) => r matches Ok(c) && c.backend_type matches Some(t) && t@
                    == backend_type_text(cfg.backend) && c == (Config {
                    backend_type: Some(t),
                    ..checked(Self::with_ipv4(cfg))
                }),
                Err(e) => r == Err::<Config, FlannelError>(e),
            },
    {
        let mut cfg = cfg;
        cfg.enable_ipv4 = true;
        let backend_type = match parse_backend_type(&cfg.backend) {
            Ok(t) => t,
            Err(e) => return Err(e),
        };
        cfg.backend_type = Some(backend_type);
        match self.check_network_config(&mut cfg) {
            Ok(_) => Ok(cfg),
            Err(e) => Err(e),
        }
    }
}

/// The network of an accepted configuration holds at least four subnets, of at most 30 bits.
pub proof fn accepted_network_holds_four_subnets(config: Config, network: Ipv4Network)
    requires
        config.enable_ipv4,
        config.network == Some(network),
        network.prefix() <= 32,
        check_outcome(config) is Ok,
    ensures
        checked(config).subnet_len <= 30,
        4 * block_size(checked(config).subnet_len) <= block_size(network.prefix()),
{
    let len = checked(config).subnet_len;
    let k = (len - network.prefix()) as nat;
    block_of_shorter_prefix(network.ip(), network.prefix(), len);
    lemma2_to64();
    if k > 2 {
        lemma_pow2_strictly_increases(2, k);
    }
    assert(4 * block_size(len) <= block_size(len) * pow2(k)) by (nonlinear_arith)
        requires
            pow2(k) >= 4,
    ;
}

/// The range of an accepted configuration is filled in and lies on the bounds of subnets; what
/// the configuration gives is kept.
pub proof fn accepted_range_is_aligned(config: Config)
    requires
        config.enable_ipv4,
        check_outcome(config) is Ok,
    ensures
        checked(config).subnet_min matches Some(min) && aligned(min, checked(config).subnet_len),
        checked(config).subnet_max matches Some(max) && aligned(max, checked(config).subnet_len),
        config.subnet_min is Some ==> checked(config).subnet_min == config.subnet_min,
        config.subnet_max is Some ==> checked(config).subnet_max == config.subnet_max,
        config.subnet_len > 0 ==> checked(config).subnet_len == config.subnet_len,
        checked(config).network == config.network,
{
}

/// Checking an accepted configuration again changes nothing, where its range is given or its
/// network's address has no host bits.
pub proof fn checking_again_changes_nothing(config: Config, network: Ipv4Network)
    requires
        config.enable_ipv4,
        config.network == Some(network),
        network.prefix() <= 32,
        checkable(config),
        check_outcome(config) is Ok,
        config.subnet_min is None || config.subnet_max is None ==> aligned(
            network.ip(),
            network.prefix(),
        ),
    ensures
        checkable(checked(config)),
        check_outcome(checked(config)) is Ok,
        checked(checked(config)) == checked(config),
{
    let c = checked(config);
    let len = c.subnet_len;
    let prefix = network.prefix();
    let size = block_size(len) as int;
    let whole = block_size(prefix) as int;
    let base = block(network.ip(), prefix) * whole;
    let ip = network.ip().bits as int;
    accepted_network_holds_four_subnets(config, network);
    block_size_bounds(len);
    block_size_bounds(prefix);
    network_is_a_range(network, network.ip());
    network_is_a_range(network, c.subnet_min->0);
    network_is_a_range(network, c.subnet_max->0);
    if config.subnet_min is None || config.subnet_max is None {
        lemma_fundamental_div_mod(ip, whole);
        assert(base == ip) by (nonlinear_arith)
            requires
                ip == whole * (ip / whole),
                base == (ip / whole) * whole,
        ;
    }
    assert(network.has(c.subnet_min->0));
    assert(network.has(c.subnet_max->0));
    assert(planned_len(c, network) == Ok::<u8, FlannelError>(len));
}

/// Where no length is given, each host gets a /24 if the network has room for four of them, and
/// else a fourth of the network.
pub proof fn hosts_get_a_24_where_four_fit(config: Config, network: Ipv4Network)
    requires
        config.enable_ipv4,
        config.network == Some(network),
        network.prefix() <= 32,
        config.subnet_len == 0,
        check_outcome(config) is Ok,
    ensures
        4 * 256 <= pow2((32 - network.prefix()) as nat) ==> checked(config).subnet_len == 24,
        4 * 256 > pow2((32 - network.prefix()) as nat) ==> checked(config).subnet_len
            == network.prefix() + 2,
{
    let n = (32 - network.prefix()) as nat;
    lemma2_to64();
    if n < 10 {
        lemma_pow2_strictly_increases(n, 10);
    } else if n > 10 {
        lemma_pow2_strictly_increases(10, n);
    }
}

/// Four subnets of at least four addresses have to fit into the network, whether their length is
/// given or not. A length that is given is judged first.
pub proof fn lengths_are_refused_where_four_subnets_do_not_fit(config: Config, network: Ipv4Network)
    requires
        config.enable_ipv4,
        config.network == Some(network),
        network.prefix() <= 32,
    ensures
        ({
            let whole = pow2((32 - network.prefix()) as nat);
            let given = pow2((32 - config.subnet_len) as nat);
            let r = check_outcome(config);
            &&& r == Err::<(), FlannelError>(FlannelError::SubnetLenTooLong) <==> config.subnet_len
                > 30
            &&& r == Err::<(), FlannelError>(FlannelError::TooFewSubnets) <==> 0 < config.subnet_len
                <= 30 && 4 * given > whole
            &&& r == Err::<(), FlannelError>(FlannelError::NetworkTooSmall) <==> config.subnet_len
                == 0 && 4 * 4 > whole
            &&& r != Err::<(), FlannelError>(FlannelError::MissingNetwork)
        }),
{
    let n = (32 - network.prefix()) as nat;
    lemma2_to64();
    if n < 4 {
        lemma_pow2_strictly_increases(n, 4);
    } else if n > 4 {
        lemma_pow2_strictly_increases(4, n);
    }
    if 0 < config.subnet_len <= 30 {
        let m = (32 - config.subnet_len) as nat;
        lemma_pow2_adds(2, m);
        if m + 2 < n {
            lemma_pow2_strictly_increases(m + 2, n);
        } else if n < m + 2 {
            lemma_pow2_strictly_increases(n, m + 2);
        }
    }
}

/// A configuration without IPv4 is accepted as it is; one with it needs a network.
pub proof fn ipv4_needs_a_network(config: Config)
    ensures
        check_outcome(config) == Err::<(), FlannelError>(FlannelError::MissingNetwork)
            <==> config.enable_ipv4 && config.network is None,
        !config.enable_ipv4 ==> check_outcome(config) is Ok && checked(config) == config,
{
}

/// A range is accepted exactly where the addresses that are given share the first bits of the
/// network and both ends are multiples of the subnets' size; what is missing first is what is
/// reported.
pub proof fn ranges_are_judged_by_their_ends(config: Config, network: Ipv4Network)
    requires
        config.enable_ipv4,
        config.network == Some(network),
        network.prefix() <= 32,
        checkable(config),
        config.subnet_len == 0 ==> 4 * 4 <= pow2((32 - network.prefix()) as nat),
        config.subnet_len > 0 ==> config.subnet_len <= 30 && 4 * pow2(
            (32 - config.subnet_len) as nat,
        ) <= pow2((32 - network.prefix()) as nat),
    ensures
        ({
            let whole = pow2((32 - network.prefix()) as nat);
            let size = pow2((32 - checked(config).subnet_len) as nat);
            let strays = |addr: Option<Ipv4Addr>|
                addr is Some && addr->0.bits as nat / whole != network.ip().bits as nat / whole;
            let min = checked(config).subnet_min->0.bits as nat;
            let max = checked(config).subnet_max->0.bits as nat;
            let r = check_outcome(config);
            &&& strays(config.subnet_min) <==> r == Err::<(), FlannelError>(
                FlannelError::SubnetMinOutOfRange,
            )
            &&& !strays(config.subnet_min) && strays(config.subnet_max) <==> r == Err::<
                (),
                FlannelError,
            >(FlannelError::SubnetMaxOutOfRange)
            &&& !strays(config.subnet_min) && !strays(config.subnet_max) ==> {
                &&& min % size != 0 <==> r == Err::<(), FlannelError>(
                    FlannelError::SubnetMinUnaligned,
                )
                &&& min % size == 0 && max % size != 0 <==> r == Err::<(), FlannelError>(
                    FlannelError::SubnetMaxUnaligned,
                )
                &&& min % size == 0 && max % size == 0 <==> r is Ok
            }
        }),
{
    a_length_is_planned_where_four_subnets_fit(config, network);
}

/// Of an accepted configuration the length and the range alone are filled in: the range begins one
/// subnet after the network's address, and ends one subnet before the next network's.
pub proof fn ranges_are_filled_in(config: Config, network: Ipv4Network)
    requires
        config.enable_ipv4,
        config.network == Some(network),
        network.prefix() <= 32,
        checkable(config),
        check_outcome(config) is Ok,
    ensures
        ({
            let c = checked(config);
            let size = pow2((32 - c.subnet_len) as nat);
            let whole = pow2((32 - network.prefix()) as nat);
            &&& c.subnet_min is Some && c.subnet_max is Some
            &&& config.subnet_min is Some ==> c.subnet_min == config.subnet_min
            &&& config.subnet_max is Some ==> c.subnet_max == config.subnet_max
            &&& config.subnet_len > 0 ==> c.subnet_len == config.subnet_len
            &&& config.subnet_min is None ==> c.subnet_min->0.bits - network.ip().bits == size
            &&& config.subnet_max is None ==> c.subnet_max->0.bits + size == network.ip().bits + whole
            &&& c == (Config {
                subnet_len: c.subnet_len,
                subnet_min: c.subnet_min,
                subnet_max: c.subnet_max,
                ..config
            })
        }),
{
    accepted_network_holds_four_subnets(config, network);
    block_size_bounds(checked(config).subnet_len);
}

/// A configuration without IPv6 can be checked where its range is given, or its network is followed
/// by another one.
pub proof fn ordinary_configurations_can_be_checked(config: Config, network: Ipv4Network)
    requires
        !config.enable_ipv6,
        config.network == Some(network),
        0 < network.prefix() <= 32,
        (config.subnet_min is Some && config.subnet_max is Some) || network.ip().bits + pow2(
            (32 - network.prefix()) as nat,
        ) <= 4_294_967_295,
    ensures
        checkable(config),
{
    if config.enable_ipv4 {
        if let Ok(len) = planned_len(config, network) {
            block_size_of_longer(network.prefix(), len);
        }
    }
}

/// What is checked is the configuration that was read, with IPv4 on.
pub proof fn ipv4_is_turned_on(cfg: Config)
    ensures
        SubnetManager::with_ipv4(cfg).enable_ipv4,
        SubnetManager::with_ipv4(cfg) == (Config {
            enable_ipv4: SubnetManager::with_ipv4(cfg).enable_ipv4,
            ..cfg
        }),
{
}

/// A backend is the one whose name the configuration holds, and UDP where it holds none.
pub proof fn backend_is_the_one_that_is_named(be: Option<serde_json::Value>, name: Seq<char>)
    ensures
        be is None ==> backend_type_text(be) == "udp"@,
        be is Some && json_strings(be->0).contains_pair("Type"@, name) ==> backend_type_text(be)
            == name,
        be is Some && !json_strings(be->0).contains_key("Type"@) ==> backend_type_text(be)
            == "udp"@,
{
}

/// A length is planned where four subnets of at least four addresses fit.
proof fn a_length_is_planned_where_four_subnets_fit(config: Config, network: Ipv4Network)
    requires
        network.prefix() <= 32,
        config.subnet_len == 0 ==> 4 * 4 <= pow2((32 - network.prefix()) as nat),
        config.subnet_len > 0 ==> config.subnet_len <= 30 && 4 * pow2(
            (32 - config.subnet_len) as nat,
        ) <= pow2((32 - network.prefix()) as nat),
    ensures
        planned_len(config, network) is Ok,
{
    let n = (32 - network.prefix()) as nat;
    lemma2_to64();
    if n < 4 {
        lemma_pow2_strictly_increases(n, 4);
    }
    if config.subnet_len > 0 {
        let m = (32 - config.subnet_len) as nat;
        lemma_pow2_adds(2, m);
        if n < m + 2 {
            lemma_pow2_strictly_increases(n, m + 2);
        }
    }
}

}
