//! Choosing a subnet for a host.
use rand::Rng;
use vstd::arithmetic::div_mod::{
    lemma_fundamental_div_mod, lemma_fundamental_div_mod_converse, lemma_mod_multiples_basic,
};
use vstd::arithmetic::power2::pow2;
use vstd::prelude::*;

use crate::addr::{
    block, block_of_shorter_prefix, block_size, block_size_bounds, network_eq, network_is_a_range,
    network_of_parts, size_of_block, Ipv4Addr, Ipv4Network, Ipv4NetworkIterator,
};
use crate::error::FlannelError;
use crate::etcd::key::subnet_key_text;
use crate::etcd::registry::SubnetWrite;
use crate::lease::{Lease, LeaseAttrs};
use crate::subnet::config::Config;
use crate::subnet::manager::{
    accepted_network_holds_four_subnets, accepted_range_is_aligned, aligned, check_outcome,
    checkable, checked, SubnetManager, SUBNET_TTL,
};
use crate::time::SystemTime;

verus! {

broadcast use network_of_parts;

/// How many free subnets are collected before one of them is chosen.
pub const MAX_CANDIDATES: usize = 100;

/// How many subnets there are from `min` to `max`.
pub open spec fn subnet_count(min: Ipv4Addr, max: Ipv4Addr, len: u8) -> nat {
    if min.bits <= max.bits {
        ((max.bits - min.bits) as nat / block_size(len)) + 1
    } else {
        0
    }
}

/// The subnets from `min` to `max`, one block after the other.
pub open spec fn subnets(min: Ipv4Addr, max: Ipv4Addr, len: u8) -> Seq<Ipv4Addr> {
    Seq::new(
        subnet_count(min, max, len),
        |i: int| Ipv4Addr { bits: (min.bits + i * block_size(len)) as u32 },
    )
}

/// Whether the subnet at an address overlaps no lease.
pub open spec fn is_free(ip: Ipv4Addr, len: u8, leases: Seq<Lease>) -> bool {
    forall|i: int|
        0 <= i < leases.len() ==> !Ipv4Network::of(ip, len).meets(#[trigger] leases[i].subnet)
}

/// The free ones of the first `k` subnets.
pub open spec fn free_before(
    min: Ipv4Addr,
    max: Ipv4Addr,
    len: u8,
    leases: Seq<Lease>,
    k: int,
) -> Seq<Ipv4Addr> {
    subnets(min, max, len).take(k).filter(|ip: Ipv4Addr| is_free(ip, len, leases))
}

/// The free subnets of the range, the first of them where there are many.
pub open spec fn candidates(min: Ipv4Addr, max: Ipv4Addr, len: u8, leases: Seq<Lease>) -> Seq<
    Ipv4Addr,
> {
    let free = subnets(min, max, len).filter(|ip: Ipv4Addr| is_free(ip, len, leases));
    if free.len() > MAX_CANDIDATES {
        free.take(MAX_CANDIDATES as int)
    } else {
        free
    }
}

/// Whether the search for free subnets passes a subnet behind which no address is left.
pub open spec fn search_runs_off(
    min: Ipv4Addr,
    max: Ipv4Addr,
    len: u8,
    leases: Seq<Lease>,
) -> bool {
    exists|k: int|
        0 <= k < subnet_count(min, max, len) && (#[trigger] free_before(
            min,
            max,
            len,
            leases,
            k,
        )).len() < MAX_CANDIDATES && min.bits + (k + 1) * block_size(len) > u32::MAX
}

/// One more subnet is searched.
proof fn free_before_step(min: Ipv4Addr, max: Ipv4Addr, len: u8, leases: Seq<Lease>, k: int)
    requires
        0 <= k < subnet_count(min, max, len),
    ensures
        free_before(min, max, len, leases, k + 1) == if is_free(
            subnets(min, max, len)[k],
            len,
            leases,
        ) {
            free_before(min, max, len, leases, k).push(subnets(min, max, len)[k])
        } else {
            free_before(min, max, len, leases, k)
        },
{
    reveal(Seq::filter);
    let all = subnets(min, max, len);
    assert(all.take(k + 1).drop_last() =~= all.take(k));
    assert(all.take(k + 1).last() == all[k]);
}

/// What was found stays found.
proof fn free_before_grows(
    min: Ipv4Addr,
    max: Ipv4Addr,
    len: u8,
    leases: Seq<Lease>,
    j: int,
    k: int,
)
    requires
        0 <= j <= k <= subnet_count(min, max, len),
    ensures
        free_before(min, max, len, leases, j).len() <= free_before(min, max, len, leases, k).len(),
        free_before(min, max, len, leases, k).take(
            free_before(min, max, len, leases, j).len() as int,
        ) == free_before(min, max, len, leases, j),
    decreases k - j,
{
    let fj = free_before(min, max, len, leases, j);
    let fk = free_before(min, max, len, leases, k);
    if j < k {
        free_before_grows(min, max, len, leases, j, k - 1);
        free_before_step(min, max, len, leases, k - 1);
        let f = free_before(min, max, len, leases, k - 1);
        assert(fk.take(fj.len() as int) =~= f.take(fj.len() as int));
    } else {
        assert(fk.take(fk.len() as int) =~= fk);
    }
}

/// The subnet at position `k` starts at most at `max` exactly when it is one of the range.
proof fn in_range_iff_counted(min: Ipv4Addr, max: Ipv4Addr, len: u8, k: int)
    requires
        len <= 32,
        k >= 0,
    ensures
        k < subnet_count(min, max, len) <==> min.bits + k * block_size(len) <= max.bits,
{
    let size = block_size(len) as int;
    block_size_bounds(len);
    if min.bits <= max.bits {
        let d = max.bits - min.bits;
        lemma_fundamental_div_mod(d, size);
        let q = d / size;
        assert(k <= q ==> k * size <= q * size) by (nonlinear_arith)
            requires
                size > 0,
        ;
        assert(k > q ==> k * size >= q * size + size) by (nonlinear_arith)
            requires
                size > 0,
        ;
        assert(size * q == q * size) by (nonlinear_arith);
    } else {
        assert(k * size >= 0) by (nonlinear_arith)
            requires
                k >= 0,
                size > 0,
        ;
    }
}

fn overlaps_any(sn: Ipv4Network, leases: &[Lease]) -> (r: bool)
    ensures
        r == !is_free(sn.ip(), sn.prefix(), leases@),
{
    proof {
        network_eq(Ipv4Network::of(sn.ip(), sn.prefix()), sn);
    }
    let n: usize = leases.len();
    let mut i: usize = 0;
    while i < n
        invariant
            n == leases@.len(),
            i <= n,
            Ipv4Network::of(sn.ip(), sn.prefix()) == sn,
            forall|j: int| 0 <= j < i ==> !sn.meets(#[trigger] leases@[j].subnet),
        decreases n - i,
    {
        if sn.overlaps(leases[i].subnet) {
            assert(Ipv4Network::of(sn.ip(), sn.prefix()).meets(leases@[i as int].subnet));
            return true;
        }
        i = i + 1;
    }
    false
}

impl SubnetManager {
    /// The free subnets from `min` to `max`, at most a hundred of them; nothing where the search
    /// would have to go on behind the last address.
    pub fn available_subnets(
        min: Ipv4Addr,
        max: Ipv4Addr,
        len: u8,
        leases: &[Lease],
    ) -> (r: Option<Vec<Ipv4Addr>>)
        requires
            1 <= len <= 31,
        ensures
            r is None <==> search_runs_off(min, max, len, leases@),
            r matches Some(ips) ==> ips@ == candidates(min, max, len, leases@),
    {
        let size = size_of_block(len);
        let ghost count = subnet_count(min, max, len) as int;
        let ghost all = subnets(min, max, len);
        let ghost mut k: int = 0;
        let mut available_ips: Vec<Ipv4Addr> = Vec::new();
        let mut sn = match Ipv4Network::new(min, len) {
            Ok(sn) => sn,
            Err(_) => return None,
        };
        proof {
            reveal(Seq::filter);
            assert(all.take(0) =~= Seq::<Ipv4Addr>::empty());
            in_range_iff_counted(min, max, len, 0);
        }
        while sn.ip().bits <= max.bits && available_ips.len() < MAX_CANDIDATES
            invariant
                1 <= len <= 31,
                size == block_size(len),
                count == subnet_count(min, max, len),
                all == subnets(min, max, len),
                0 <= k <= count,
                sn.prefix() == len,
                sn.ip().bits == min.bits + k * block_size(len),
                sn.ip().bits <= max.bits <==> k < count,
                available_ips@ == free_before(min, max, len, leases@, k),
                available_ips@.len() <= MAX_CANDIDATES,
            decreases count - k,
        {
            assert(all[k] == sn.ip());
            proof {
                free_before_step(min, max, len, leases@, k);
            }
            if !overlaps_any(sn, leases) {
                available_ips.push(sn.ip());
            }
            if sn.ip().bits > u32::MAX - size {
                proof {
                    assert((k + 1) * block_size(len) == k * block_size(len) + block_size(len))
                        by (nonlinear_arith);
                    assert(free_before(min, max, len, leases@, k).len() < MAX_CANDIDATES);
                }
                return None;
            }
            match sn.next_network() {
                Some(next) => {
                    sn = next;
                },
                None => return None,
            }
            proof {
                assert((k + 1) * block_size(len) == k * block_size(len) + block_size(len))
                    by (nonlinear_arith);
                k = k + 1;
                in_range_iff_counted(min, max, len, k);
            }
        }
        proof {
            assert(all.take(count) =~= all);
            free_before_grows(min, max, len, leases@, k, count);
            assert forall|j: int| 0 <= j < count implies (#[trigger] free_before(
                min,
                max,
                len,
                leases@,
                j,
            )).len() >= MAX_CANDIDATES || min.bits + (j + 1) * block_size(len) <= u32::MAX by {
                if j < k {
                    assert((j + 1) * block_size(len) <= k * block_size(len)) by (nonlinear_arith)
                        requires
                            j < k,
                    ;
                } else {
                    free_before_grows(min, max, len, leases@, k, j);
                }
            }
            let free = free_before(min, max, len, leases@, count);
            if k < count {
                assert(available_ips@.len() == MAX_CANDIDATES);
                if free.len() == MAX_CANDIDATES {
                    assert(free.take(MAX_CANDIDATES as int) =~= free);
                }
            }
        }
        Some(available_ips)
    }

    /// The subnet at a position of the candidates.
    pub fn pick_subnet(available_ips: &[Ipv4Addr], i: usize, len: u8) -> (r: Result<
        Ipv4Network,
        FlannelError,
    >)
        ensures
            i >= available_ips@.len() ==> r == Err::<Ipv4Network, FlannelError>(
                FlannelError::NoAvailableSubnets,
            ),
            i < available_ips@.len() && len <= 32 ==> r == Ok::<Ipv4Network, FlannelError>(
                Ipv4Network::of(available_ips@[i as int], len),
            ),
            i < available_ips@.len() && len > 32 ==> r == Err::<Ipv4Network, FlannelError>(
                FlannelError::InvalidPrefix,
            ),
    {
        if i >= available_ips.len() {
            return Err(FlannelError::NoAvailableSubnets);
        }
        Ipv4Network::new(available_ips[i], len)
    }

    /// Chooses one of the free subnets of the configured range at random.
    pub fn allocate_subnet(&self, config: &Config, leases: &[Lease]) -> (r: Result<
        Ipv4Network,
        FlannelError,
    >)
        requires
            can_allocate(*config, leases@),
        ensures
            allocated(*config, leases@, r),
    {
        let (min, max) = match (config.subnet_min, config.subnet_max) {
            (Some(min), Some(max)) => (min, max),
            _ => return Err(FlannelError::NoAvailableSubnets),
        };
        let len = config.subnet_len;
        if len > 32 {
            return Err(FlannelError::InvalidPrefix);
        }
        if min.bits > max.bits {
            proof {
                reveal(Seq::filter);
            }
            return Err(FlannelError::NoAvailableSubnets);
        }
        let available_ips = match Self::available_subnets(min, max, len, leases) {
            Some(ips) => ips,
            None => return Err(FlannelError::NoAvailableSubnets),
        };
        if available_ips.len() == 0 {
            return Err(FlannelError::NoAvailableSubnets);
        }
        let i = random_below(available_ips.len());
        Self::pick_subnet(available_ips.as_slice(), i, len)
    }

    /// The subnet that a host gets: the one it already holds where that lies in the configured
    /// range, or else a free one.
    pub fn try_acquire_lease(&self, config: &Config, leases: &[Lease], ext_addr: Ipv4Addr) -> (r:
        Result<LeaseChoice, FlannelError>)
        requires
            can_acquire(*config, leases@, ext_addr),
        ensures
            acquired(*config, leases@, ext_addr, r),
    {
        if let Some(lease) = Self::find_held_lease(config, leases, ext_addr) {
            return Ok(LeaseChoice::Reuse(lease));
        }
        match self.allocate_subnet(config, leases) {
            Ok(sn) => Ok(LeaseChoice::Create(sn)),
            Err(e) => Err(e),
        }
    }

    /// The subnet that a host gets, by the address at which the others reach it.
    pub fn acquire_lease(&self, config: &Config, leases: &[Lease], attrs: &LeaseAttrs) -> (r:
        Result<LeaseChoice, FlannelError>)
        requires
            can_acquire(*config, leases@, attrs.public_ip),
        ensures
            acquired(*config, leases@, attrs.public_ip, r),
    {
        self.try_acquire_lease(config, leases, attrs.public_ip)
    }

    /// What is written for a choice: under the key of its subnet, what the host tells the others
    /// now, for as long as a subnet is leased. A subnet that the host does not hold yet has to be
    /// still free.
    pub fn write_of(&self, choice: &LeaseChoice, attrs: &LeaseAttrs) -> (r: (
        SubnetWrite,
        LeaseAttrs,
    ))
        ensures
            r.1 == *attrs,
            r.0.ttl == SUBNET_TTL && r.0.ttl == 86_400,
            match *choice {
                LeaseChoice::Reuse(l) => r.0.key@ == subnet_key_text(
                    self.registry.etcd_cfg.prefix@,
                    l.subnet,
                ) && !r.0.if_absent,
                LeaseChoice::Create(sn) => r.0.key@ == subnet_key_text(
                    self.registry.etcd_cfg.prefix@,
                    sn,
                ) && r.0.if_absent,
            },
    {
        let write = match choice {
            LeaseChoice::Reuse(lease) => self.registry.update_request(lease.subnet, SUBNET_TTL),
            LeaseChoice::Create(sn) => self.registry.create_request(*sn, SUBNET_TTL),
        };
        (write, attrs.clone())
    }

    /// The lease that the host has after the write of a choice, which lasts until `expiration`: a
    /// held one as it was listed, or the one that was created.
    pub fn acquired_lease(choice: LeaseChoice, attrs: &LeaseAttrs, expiration: SystemTime) -> (r:
        Lease)
        ensures
            r == match choice {
                LeaseChoice::Reuse(lease) => lease,
                LeaseChoice::Create(sn) => lease_granted(sn, *attrs, expiration),
            },
    {
        match choice {
            LeaseChoice::Reuse(lease) => lease,
            LeaseChoice::Create(sn) => granted_lease(sn, attrs, expiration),
        }
    }

    /// Whether `acquire_lease` can find the host a subnet or a reason why there is none.
    pub fn acquirable(config: &Config, leases: &[Lease], ext_addr: Ipv4Addr) -> (r: bool)
        ensures
            r == can_acquire(*config, leases@, ext_addr),
    {
        let (min, max) = match (config.subnet_min, config.subnet_max) {
            (Some(min), Some(max)) => (min, max),
            _ => return false,
        };
        if Self::find_held_lease(config, leases, ext_addr).is_some() {
            return true;
        }
        let len = config.subnet_len;
        if len > 32 || min.bits > max.bits {
            return true;
        }
        if len < 1 || len > 31 {
            return false;
        }
        Self::available_subnets(min, max, len, leases).is_some()
    }

    /// The lease of the host at an address, where it lies in the configured range.
    pub fn find_held_lease(config: &Config, leases: &[Lease], ext_addr: Ipv4Addr) -> (r: Option<
        Lease,
    >)
        requires
            config.subnet_min is Some,
            config.subnet_max is Some,
        ensures
            r == held_lease(*config, leases@, ext_addr),
    {
        let (min, max) = match (config.subnet_min, config.subnet_max) {
            (Some(min), Some(max)) => (min, max),
            _ => return None,
        };
        let n: usize = leases.len();
        let mut i: usize = 0;
        proof {
            assert(leases@.skip(0) =~= leases@);
        }
        while i < n
            invariant
                n == leases@.len(),
                i <= n,
                config.subnet_min == Some(min),
                config.subnet_max == Some(max),
                lease_of_host(leases@, ext_addr) == lease_of_host(leases@.skip(i as int), ext_addr),
            decreases n - i,
        {
            let lease = &leases[i];
            if lease.attrs.public_ip == ext_addr {
                let ip = lease.subnet.ip().bits;
                if min.bits <= ip && ip <= max.bits && lease.subnet.prefix() == config.subnet_len {
                    return Some(lease.clone());
                }
                return None;
            }
            assert(leases@.skip(i as int).drop_first() =~= leases@.skip(i + 1));
            i = i + 1;
        }
        None
    }
}

/// What the registry is asked for.
#[derive(Debug, PartialEq, Eq)]
pub enum LeaseChoice {
    /// Prolong the lease that the host holds.
    Reuse(Lease),
    /// Create a lease for a free subnet.
    Create(Ipv4Network),
}

/// The first lease of the host at an address.
pub open spec fn lease_of_host(leases: Seq<Lease>, ext_addr: Ipv4Addr) -> Option<Lease>
    decreases leases.len(),
{
    if leases.len() == 0 {
        None
    } else if leases[0].attrs.public_ip == ext_addr {
        Some(leases[0])
    } else {
        lease_of_host(leases.drop_first(), ext_addr)
    }
}

/// The first lease of the host at an address, where it lies in the configured range.
pub open spec fn held_lease(config: Config, leases: Seq<Lease>, ext_addr: Ipv4Addr) -> Option<
    Lease,
> {
    match (lease_of_host(leases, ext_addr), config.subnet_min, config.subnet_max) {
        (Some(lease), Some(min), Some(max)) => if min.bits <= lease.subnet.ip().bits <= max.bits
            && lease.subnet.prefix() == config.subnet_len {
            Some(lease)
        } else {
            None
        },
        _ => None,
    }
}

/// Whether the configured range can be searched to its end.
pub open spec fn can_allocate(config: Config, leases: Seq<Lease>) -> bool {
    config.subnet_min matches Some(min) && config.subnet_max matches Some(max)
        && (config.subnet_len <= 32 && min.bits <= max.bits ==> 1 <= config.subnet_len <= 31
        && !search_runs_off(min, max, config.subnet_len, leases))
}

/// Whether a result is right for a range and its leases: one of the candidates, or the reason why
/// there is none.
pub open spec fn allocated(
    config: Config,
    leases: Seq<Lease>,
    r: Result<Ipv4Network, FlannelError>,
) -> bool {
    config.subnet_min matches Some(min) && config.subnet_max matches Some(max) && ({
        let len = config.subnet_len;
        let ips = candidates(min, max, len, leases);
        if len > 32 {
            r == Err::<Ipv4Network, FlannelError>(FlannelError::InvalidPrefix)
        } else if ips.len() == 0 {
            r == Err::<Ipv4Network, FlannelError>(FlannelError::NoAvailableSubnets)
        } else {
            r matches Ok(sn) && ips.contains(sn.ip()) && sn.prefix() == len
        }
    })
}

/// Whether the host holds a subnet, or the configured range can be searched for one.
pub open spec fn can_acquire(config: Config, leases: Seq<Lease>, ext_addr: Ipv4Addr) -> bool {
    config.subnet_min is Some && config.subnet_max is Some && (held_lease(
        config,
        leases,
        ext_addr,
    ) is None ==> can_allocate(config, leases))
}

/// Whether a choice is right for a host: the lease that it holds, or else what is right for the
/// range and its leases.
pub open spec fn acquired(
    config: Config,
    leases: Seq<Lease>,
    ext_addr: Ipv4Addr,
    r: Result<LeaseChoice, FlannelError>,
) -> bool {
    match held_lease(config, leases, ext_addr) {
        Some(lease) => r == Ok::<LeaseChoice, FlannelError>(LeaseChoice::Reuse(lease)),
        None => match r {
            Ok(LeaseChoice::Create(sn)) => allocated(config, leases, Ok(sn)),
            Ok(LeaseChoice::Reuse(_)) => false,
            Err(e) => allocated(config, leases, Err(e)),
        },
    }
}

/// The lease of a subnet that was created in the registry.
pub open spec fn lease_granted(
    sn: Ipv4Network,
    attrs: LeaseAttrs,
    expiration: SystemTime,
) -> Lease {
    Lease {
        enable_ipv4: true,
        subnet: sn,
        enable_ipv6: false,
        ipv6_subnet: None,
        attrs,
        expiration,
    }
}

/// The lease of a subnet that was created in the registry.
pub fn granted_lease(sn: Ipv4Network, attrs: &LeaseAttrs, expiration: SystemTime) -> (r: Lease)
    ensures
        r == lease_granted(sn, *attrs, expiration),
{
    Lease {
        enable_ipv4: true,
        subnet: sn,
        enable_ipv6: false,
        ipv6_subnet: None,
        attrs: attrs.clone(),
        expiration,
    }
}

/// Calls `rand::Rng::gen_range` of the thread's generator with the range from 0 up to `n`: some
/// number below `n`.
#[verifier::external_body]
fn random_below(n: usize) -> (r: usize)
    requires
        n > 0,
    ensures
        r < n,
{
    rand::thread_rng().gen_range(0..n)
}

/// An allocated subnet overlaps no lease, has the configured length and starts in the configured
/// range.
pub proof fn allocation_is_free(config: Config, leases: Seq<Lease>, sn: Ipv4Network)
    requires
        allocated(config, leases, Ok(sn)),
    ensures
        forall|i: int| 0 <= i < leases.len() ==> !sn.meets(#[trigger] leases[i].subnet),
        sn.prefix() == config.subnet_len,
        config.subnet_min->0.bits <= sn.ip().bits <= config.subnet_max->0.bits,
        (sn.ip().bits - config.subnet_min->0.bits) % (block_size(sn.prefix()) as int) == 0,
{
    let min = config.subnet_min->0;
    let max = config.subnet_max->0;
    let len = config.subnet_len;
    let pred = |ip: Ipv4Addr| is_free(ip, len, leases);
    let all = subnets(min, max, len);
    let free = all.filter(pred);
    let j = candidates(min, max, len, leases).index_of(sn.ip());
    assert(free[j] == sn.ip());
    all.lemma_filter_pred(pred, j);
    all.lemma_filter_contains_rev(pred, sn.ip());
    let k = all.index_of(sn.ip());
    let size = block_size(len) as int;
    block_size_bounds(len);
    in_range_iff_counted(min, max, len, k);
    assert(k * size >= 0) by (nonlinear_arith)
        requires
            k >= 0,
            size > 0,
    ;
    lemma_mod_multiples_basic(k, size);
    network_eq(sn, Ipv4Network::of(sn.ip(), len));
}

/// Where the configured range has a free subnet, one is found.
pub proof fn free_subnet_is_found(min: Ipv4Addr, max: Ipv4Addr, len: u8, leases: Seq<Lease>, k: int)
    requires
        0 <= k < subnet_count(min, max, len),
        is_free(subnets(min, max, len)[k], len, leases),
    ensures
        candidates(min, max, len, leases).len() > 0,
{
    let pred = |ip: Ipv4Addr| is_free(ip, len, leases);
    let all = subnets(min, max, len);
    assert(pred(all[k]));
    all.lemma_filter_contains(pred, k);
}

/// Every address of an allocated subnet lies in the network of the accepted configuration, where
/// the end of the range is given or the network's address has no host bits.
pub proof fn allocation_is_in_network(
    config: Config,
    network: Ipv4Network,
    leases: Seq<Lease>,
    sn: Ipv4Network,
    addr: Ipv4Addr,
)
    requires
        config.enable_ipv4,
        config.network == Some(network),
        network.prefix() <= 32,
        checkable(config),
        check_outcome(config) is Ok,
        config.subnet_max is None ==> aligned(network.ip(), network.prefix()),
        allocated(checked(config), leases, Ok(sn)),
        sn.has(addr),
    ensures
        network.has(addr),
{
    let c = checked(config);
    let len = c.subnet_len;
    let min = c.subnet_min->0;
    let max = c.subnet_max->0;
    let prefix = network.prefix();
    let size = block_size(len) as int;
    let whole = block_size(prefix) as int;
    let base = block(network.ip(), prefix) * whole;
    let ip = sn.ip().bits as int;
    let k = (len - prefix) as nat;
    allocation_is_free(c, leases, sn);
    accepted_range_is_aligned(config);
    accepted_network_holds_four_subnets(config, network);
    block_size_bounds(len);
    block_size_bounds(prefix);
    block_of_shorter_prefix(network.ip(), prefix, len);
    network_is_a_range(network, network.ip());
    network_is_a_range(network, min);
    network_is_a_range(network, max);
    network_is_a_range(network, addr);
    network_is_a_range(sn, addr);
    // The subnet starts inside the network.
    if config.subnet_max is None {
        lemma_fundamental_div_mod(network.ip().bits as int, whole);
        assert(base == network.ip().bits) by (nonlinear_arith)
            requires
                network.ip().bits as int == whole * (network.ip().bits as int / whole),
                base == (network.ip().bits as int / whole) * whole,
        ;
    }
    assert(base <= ip < base + whole);
    // It starts at the bound of a subnet, and so does what follows the network.
    let d = ip - min.bits;
    lemma_fundamental_div_mod(d, size);
    lemma_fundamental_div_mod(min.bits as int, size);
    let s = min.bits as int / size + d / size;
    assert(ip == s * size) by (nonlinear_arith)
        requires
            ip == min.bits + d,
            d == size * (d / size),
            min.bits as int == size * (min.bits as int / size),
            s == min.bits as int / size + d / size,
    ;
    let e = (block(network.ip(), prefix) + 1) * pow2(k);
    assert(base + whole == e * size) by (nonlinear_arith)
        requires
            base == block(network.ip(), prefix) * whole,
            whole == size * pow2(k),
            e == (block(network.ip(), prefix) + 1) * pow2(k),
    ;
    assert(s < e) by (nonlinear_arith)
        requires
            s * size < e * size,
            size > 0,
    ;
    assert(ip + size <= base + whole) by (nonlinear_arith)
        requires
            s + 1 <= e,
            size > 0,
            ip == s * size,
            base + whole == e * size,
    ;
    lemma_fundamental_div_mod_converse(ip, size, s, 0);
}

/// A host that was given a new subnet, and held none before, is given the same one again when it
/// asks again with the same configuration, wherever the registry lists its lease.
pub proof fn granted_lease_is_reused(
    config: Config,
    leases: Seq<Lease>,
    sn: Ipv4Network,
    attrs: LeaseAttrs,
    expiration: SystemTime,
    k: int,
)
    requires
        lease_of_host(leases, attrs.public_ip) is None,
        allocated(config, leases, Ok(sn)),
        0 <= k <= leases.len(),
    ensures
        held_lease(
            config,
            leases.insert(k, lease_granted(sn, attrs, expiration)),
            attrs.public_ip,
        ) == Some(lease_granted(sn, attrs, expiration)),
{
    allocation_is_free(config, leases, sn);
    new_lease_is_found(leases, lease_granted(sn, attrs, expiration), k);
}

/// The only lease of a host is found wherever it stands.
proof fn new_lease_is_found(leases: Seq<Lease>, lease: Lease, k: int)
    requires
        lease_of_host(leases, lease.attrs.public_ip) is None,
        0 <= k <= leases.len(),
    ensures
        lease_of_host(leases.insert(k, lease), lease.attrs.public_ip) == Some(lease),
    decreases leases.len(),
{
    let after = leases.insert(k, lease);
    if k > 0 {
        new_lease_is_found(leases.drop_first(), lease, k - 1);
        assert(after.drop_first() =~= leases.drop_first().insert(k - 1, lease));
    }
}

/// A reused lease is one of the host's, and its subnet lies in the configured range.
pub proof fn held_lease_is_the_hosts(config: Config, leases: Seq<Lease>, ext_addr: Ipv4Addr)
    ensures
        held_lease(config, leases, ext_addr) matches Some(lease) ==> leases.contains(lease)
            && lease.attrs.public_ip == ext_addr && config.subnet_min->0.bits
            <= lease.subnet.ip().bits <= config.subnet_max->0.bits && lease.subnet.prefix()
            == config.subnet_len,
{
    lease_of_host_is_listed(leases, ext_addr);
}

/// The lease that is found for a host is listed, and the host's.
proof fn lease_of_host_is_listed(leases: Seq<Lease>, ext_addr: Ipv4Addr)
    ensures
        lease_of_host(leases, ext_addr) matches Some(lease) ==> leases.contains(lease)
            && lease.attrs.public_ip == ext_addr,
    decreases leases.len(),
{
    if leases.len() > 0 {
        if leases[0].attrs.public_ip == ext_addr {
            assert(leases.contains(leases[0]));
        } else {
            let rest = leases.drop_first();
            lease_of_host_is_listed(rest, ext_addr);
            if let Some(lease) = lease_of_host(rest, ext_addr) {
                let i = rest.index_of(lease);
                assert(leases[i + 1] == lease);
            }
        }
    }
}

/// Whether no two leases overlap.
pub open spec fn apart(leases: Seq<Lease>) -> bool {
    forall|a: int, b: int|
        0 <= a < b < leases.len() ==> !(#[trigger] leases[a]).subnet.meets(
            (#[trigger] leases[b]).subnet,
        )
}

/// Leases that do not overlap do not overlap after a new subnet was leased either, wherever the
/// registry lists its lease.
pub proof fn allocation_keeps_leases_apart(
    config: Config,
    leases: Seq<Lease>,
    sn: Ipv4Network,
    attrs: LeaseAttrs,
    expiration: SystemTime,
    k: int,
)
    requires
        apart(leases),
        allocated(config, leases, Ok(sn)),
        0 <= k <= leases.len(),
    ensures
        apart(leases.insert(k, lease_granted(sn, attrs, expiration))),
{
    let after = leases.insert(k, lease_granted(sn, attrs, expiration));
    allocation_is_free(config, leases, sn);
    assert forall|a: int, b: int| 0 <= a < b < after.len() implies !(
    #[trigger] after[a]).subnet.meets((#[trigger] after[b]).subnet) by {
        let a0 = if a < k {
            a
        } else {
            a - 1
        };
        let b0 = if b < k {
            b
        } else {
            b - 1
        };
        if a == k {
            assert(after[b] == leases[b0]);
        } else if b == k {
            assert(after[a] == leases[a0]);
            assert(!sn.meets(leases[a0].subnet));
        } else {
            assert(after[a] == leases[a0]);
            assert(after[b] == leases[b0]);
        }
    }
}

/// An allocated subnet of an accepted configuration has no host bits.
pub proof fn allocation_is_aligned(config: Config, leases: Seq<Lease>, sn: Ipv4Network)
    requires
        config.enable_ipv4,
        config.network is Some,
        config.network->0.prefix() <= 32,
        check_outcome(config) is Ok,
        allocated(checked(config), leases, Ok(sn)),
    ensures
        aligned(sn.ip(), sn.prefix()),
{
    let c = checked(config);
    let size = block_size(c.subnet_len) as int;
    let min = c.subnet_min->0.bits as int;
    let d = sn.ip().bits - min;
    allocation_is_free(c, leases, sn);
    accepted_range_is_aligned(config);
    accepted_network_holds_four_subnets(config, config.network->0);
    block_size_bounds(c.subnet_len);
    lemma_fundamental_div_mod(d, size);
    lemma_fundamental_div_mod(min, size);
    let s = min / size + d / size;
    assert(min + d == size * s + 0) by (nonlinear_arith)
        requires
            d == size * (d / size),
            min == size * (min / size),
            s == min / size + d / size,
    ;
    lemma_fundamental_div_mod_converse(min + d, size, s, 0);
}

/// The subnet a number of steps into a range.
spec fn step(min: Ipv4Addr, len: u8, k: int) -> Ipv4Addr {
    Ipv4Addr { bits: (min.bits + k * pow2((32 - len) as nat)) as u32 }
}

/// Where a subnet of the range, some steps of its size after the first one, overlaps no lease, an
/// allocation succeeds; without leases it always does.
pub proof fn allocation_succeeds_where_a_subnet_is_free(
    config: Config,
    leases: Seq<Lease>,
    r: Result<Ipv4Network, FlannelError>,
    k: int,
)
    requires
        allocated(config, leases, r),
        config.subnet_len <= 32,
        k >= 0,
        config.subnet_min->0.bits + k * pow2((32 - config.subnet_len) as nat)
            <= config.subnet_max->0.bits,
        forall|i: int|
            0 <= i < leases.len() ==> !Ipv4Network::of(
                Ipv4Addr {
                    bits: (config.subnet_min->0.bits + k * pow2(
                        (32 - config.subnet_len) as nat,
                    )) as u32,
                },
                config.subnet_len,
            ).meets((#[trigger] leases[i]).subnet),
    ensures
        r is Ok,
{
    let min = config.subnet_min->0;
    let max = config.subnet_max->0;
    let len = config.subnet_len;
    in_range_iff_counted(min, max, len, k);
    assert(subnets(min, max, len)[k] == step(min, len, k));
    assert forall|i: int| 0 <= i < leases.len() implies !Ipv4Network::of(
        step(min, len, k),
        len,
    ).meets(#[trigger] leases[i].subnet) by {}
    free_subnet_is_found(min, max, len, leases, k);
}

/// An allocation fails for no other reason than that every subnet of the range overlaps a lease, or
/// that addresses have no prefix of that length.
pub proof fn allocation_fails_where_no_subnet_is_free(
    config: Config,
    leases: Seq<Lease>,
    r: Result<Ipv4Network, FlannelError>,
)
    requires
        allocated(config, leases, r),
    ensures
        r == Err::<Ipv4Network, FlannelError>(FlannelError::InvalidPrefix) <==> config.subnet_len
            > 32,
        r is Err && config.subnet_len <= 32 ==> r == Err::<Ipv4Network, FlannelError>(
            FlannelError::NoAvailableSubnets,
        ),
        config.subnet_len <= 32 && config.subnet_min->0.bits > config.subnet_max->0.bits ==> r
            == Err::<Ipv4Network, FlannelError>(FlannelError::NoAvailableSubnets),
{
    reveal(Seq::filter);
}

/// Of a sequence that grows, what a filter keeps grows.
proof fn filter_keeps_order(s: Seq<Ipv4Addr>, p: spec_fn(Ipv4Addr) -> bool)
    requires
        forall|a: int, b: int|
            0 <= a < b < s.len() ==> (#[trigger] s[a]).bits < (#[trigger] s[b]).bits,
    ensures
        forall|a: int, b: int|
            0 <= a < b < s.filter(p).len() ==> (#[trigger] s.filter(p)[a]).bits < (
            #[trigger] s.filter(p)[b]).bits,
        forall|a: int| 0 <= a < s.filter(p).len() ==> s.len() > 0 && (#[trigger] s.filter(p)[a]).bits
            <= s.last().bits,
    decreases s.len(),
{
    reveal(Seq::filter);
    if s.len() > 0 {
        let rest = s.drop_last();
        assert forall|a: int, b: int| 0 <= a < b < rest.len() implies (#[trigger] rest[a]).bits < (
        #[trigger] rest[b]).bits by {
            assert(s[a].bits < s[b].bits);
        }
        filter_keeps_order(rest, p);
        if rest.len() > 0 {
            assert(s[s.len() - 2].bits < s[s.len() - 1].bits);
            assert(rest.last() == s[s.len() - 2]);
        }
        let before = rest.filter(p);
        let after = s.filter(p);
        assert(after == if p(s.last()) {
            before.push(s.last())
        } else {
            before
        });
        assert forall|a: int| 0 <= a < after.len() implies (#[trigger] after[a]).bits
            <= s.last().bits by {
            if a < before.len() {
                assert(after[a] == before[a]);
            }
        }
        assert forall|a: int, b: int| 0 <= a < b < after.len() implies (#[trigger] after[a]).bits < (
        #[trigger] after[b]).bits by {
            assert(after[a] == before[a]);
            if b < before.len() {
                assert(after[b] == before[b]);
            } else {
                assert(before[a].bits <= rest.last().bits);
            }
        }
    }
}

/// The candidates are free subnets of the range in their order, at most a hundred; a free subnet
/// that is none of them comes after a hundred others.
pub proof fn candidates_are_the_first_free_subnets(
    min: Ipv4Addr,
    max: Ipv4Addr,
    len: u8,
    leases: Seq<Lease>,
    k: int,
)
    requires
        len <= 32,
        k >= 0,
        min.bits + k * pow2((32 - len) as nat) <= max.bits,
    ensures
        ({
            let c = candidates(min, max, len, leases);
            let ip = Ipv4Addr { bits: (min.bits + k * pow2((32 - len) as nat)) as u32 };
            let free = forall|i: int|
                0 <= i < leases.len() ==> !Ipv4Network::of(ip, len).meets(
                    (#[trigger] leases[i]).subnet,
                );
            &&& c.len() <= 100
            &&& forall|a: int, b: int|
                0 <= a < b < c.len() ==> (#[trigger] c[a]).bits < (#[trigger] c[b]).bits
            &&& c.contains(ip) ==> free
            &&& free && !c.contains(ip) ==> c.len() == 100 && c.last().bits < ip.bits
        }),
{
    let ip = step(min, len, k);
    let all = subnets(min, max, len);
    let pred = |ip: Ipv4Addr| is_free(ip, len, leases);
    let free = all.filter(pred);
    let c = candidates(min, max, len, leases);
    in_range_iff_counted(min, max, len, k);
    assert(all[k] == ip);
    assert forall|a: int, b: int| 0 <= a < b < all.len() implies (#[trigger] all[a]).bits < (
    #[trigger] all[b]).bits by {
        block_size_bounds(len);
        in_range_iff_counted(min, max, len, a);
        in_range_iff_counted(min, max, len, b);
        assert(0 <= a * block_size(len) < b * block_size(len)) by (nonlinear_arith)
            requires
                0 <= a < b,
                block_size(len) > 0,
        ;
    }
    filter_keeps_order(all, pred);
    assert forall|a: int, b: int| 0 <= a < b < c.len() implies (#[trigger] c[a]).bits < (
    #[trigger] c[b]).bits by {
        assert(c[a] == free[a] && c[b] == free[b]);
    }
    if c.contains(ip) {
        let j = c.index_of(ip);
        assert(free[j] == ip);
        all.lemma_filter_pred(pred, j);
    }
    if is_free(ip, len, leases) {
        assert(pred(all[k]));
        all.lemma_filter_contains(pred, k);
        let j = free.index_of(ip);
        if j < c.len() {
            assert(c[j] == ip);
        } else {
            assert(c[99] == free[99]);
        }
    }
}

/// A candidate is a subnet of the range: some steps of the subnets' size after the first one.
pub proof fn candidates_are_steps_of_the_range(
    min: Ipv4Addr,
    max: Ipv4Addr,
    len: u8,
    leases: Seq<Lease>,
    j: int,
)
    requires
        len <= 32,
        0 <= j < candidates(min, max, len, leases).len(),
    ensures
        exists|k: int|
            0 <= k && min.bits + k * pow2((32 - len) as nat) <= max.bits && candidates(
                min,
                max,
                len,
                leases,
            )[j].bits == min.bits + #[trigger] (k * pow2((32 - len) as nat)),
{
    let all = subnets(min, max, len);
    let pred = |ip: Ipv4Addr| is_free(ip, len, leases);
    let ip = candidates(min, max, len, leases)[j];
    assert(all.filter(pred)[j] == ip);
    all.lemma_filter_contains_rev(pred, ip);
    let k = all.index_of(ip);
    in_range_iff_counted(min, max, len, k);
    assert(0 <= k * pow2((32 - len) as nat)) by (nonlinear_arith)
        requires
            k >= 0,
    ;
}

/// A range behind which a whole subnet is left can be searched to its end, so that a host can be
/// given a subnet of it.
pub proof fn ordinary_ranges_can_be_searched(config: Config, leases: Seq<Lease>, ext_addr: Ipv4Addr)
    requires
        config.subnet_min is Some,
        config.subnet_max is Some,
        1 <= config.subnet_len <= 31,
        config.subnet_max->0.bits + pow2((32 - config.subnet_len) as nat) <= 4_294_967_295,
    ensures
        !search_runs_off(
            config.subnet_min->0,
            config.subnet_max->0,
            config.subnet_len,
            leases,
        ),
        can_allocate(config, leases),
        can_acquire(config, leases, ext_addr),
{
    let min = config.subnet_min->0;
    let max = config.subnet_max->0;
    let len = config.subnet_len;
    if search_runs_off(min, max, len, leases) {
        let k = choose|k: int|
            0 <= k < subnet_count(min, max, len) && (#[trigger] free_before(
                min,
                max,
                len,
                leases,
                k,
            )).len() < MAX_CANDIDATES && min.bits + (k + 1) * block_size(len) > u32::MAX;
        in_range_iff_counted(min, max, len, k);
        assert((k + 1) * block_size(len) == k * block_size(len) + block_size(len))
            by (nonlinear_arith);
    }
}

/// A host is given the lease that it holds exactly where its first listed lease begins in the
/// configured range and has the configured length; then, and only then, nothing is created.
pub proof fn first_lease_of_the_host_decides(
    config: Config,
    leases: Seq<Lease>,
    ext_addr: Ipv4Addr,
    r: Result<LeaseChoice, FlannelError>,
    j: int,
)
    requires
        config.subnet_min is Some,
        config.subnet_max is Some,
        acquired(config, leases, ext_addr, r),
        0 <= j < leases.len(),
        leases[j].attrs.public_ip == ext_addr,
        forall|i: int| 0 <= i < j ==> (#[trigger] leases[i]).attrs.public_ip != ext_addr,
    ensures
        ({
            let l = leases[j];
            let fits = config.subnet_min->0.bits <= l.subnet.ip().bits && l.subnet.ip().bits
                <= config.subnet_max->0.bits && l.subnet.prefix() == config.subnet_len;
            &&& fits ==> r == Ok::<LeaseChoice, FlannelError>(LeaseChoice::Reuse(l))
            &&& !fits ==> !(r matches Ok(LeaseChoice::Reuse(_)))
        }),
{
    lease_of_host_is_first(leases, ext_addr, j);
}

proof fn lease_of_host_is_first(leases: Seq<Lease>, ext_addr: Ipv4Addr, j: int)
    requires
        0 <= j < leases.len(),
        leases[j].attrs.public_ip == ext_addr,
        forall|i: int| 0 <= i < j ==> (#[trigger] leases[i]).attrs.public_ip != ext_addr,
    ensures
        lease_of_host(leases, ext_addr) == Some(leases[j]),
    decreases leases.len(),
{
    if j > 0 {
        let rest = leases.drop_first();
        assert(leases[0].attrs.public_ip != ext_addr);
        assert forall|i: int| 0 <= i < j - 1 implies (#[trigger] rest[i]).attrs.public_ip
            != ext_addr by {
            assert(leases[i + 1].attrs.public_ip != ext_addr);
        }
        lease_of_host_is_first(rest, ext_addr, j - 1);
    }
}

/// A host is given a lease of its own, or a new subnet that overlaps no lease, of the configured
/// length and some steps of that size into the configured range; it is refused only where there is
/// none.
pub proof fn host_gets_its_own_or_a_free_subnet(
    config: Config,
    leases: Seq<Lease>,
    ext_addr: Ipv4Addr,
    r: Result<LeaseChoice, FlannelError>,
)
    requires
        config.subnet_min is Some,
        config.subnet_max is Some,
        acquired(config, leases, ext_addr, r),
    ensures
        match r {
            Ok(LeaseChoice::Reuse(l)) => leases.contains(l) && l.attrs.public_ip == ext_addr,
            Ok(LeaseChoice::Create(sn)) => {
                &&& sn.prefix() == config.subnet_len
                &&& config.subnet_min->0.bits <= sn.ip().bits <= config.subnet_max->0.bits
                &&& (sn.ip().bits - config.subnet_min->0.bits) % (pow2(
                    (32 - config.subnet_len) as nat,
                ) as int) == 0
                &&& forall|i: int|
                    0 <= i < leases.len() ==> !sn.meets((#[trigger] leases[i]).subnet)
            },
            Err(_) => config.subnet_len > 32 || forall|k: int|
                k >= 0 && config.subnet_min->0.bits + #[trigger] (k * pow2(
                    (32 - config.subnet_len) as nat,
                )) <= config.subnet_max->0.bits ==> exists|i: int|
                    0 <= i < leases.len() && Ipv4Network::of(
                        Ipv4Addr {
                            bits: (config.subnet_min->0.bits + k * pow2(
                                (32 - config.subnet_len) as nat,
                            )) as u32,
                        },
                        config.subnet_len,
                    ).meets((#[trigger] leases[i]).subnet),
        },
{
    held_lease_is_the_hosts(config, leases, ext_addr);
    match r {
        Ok(LeaseChoice::Create(sn)) => {
            allocation_is_free(config, leases, sn);
        },
        Err(e) => {
            if config.subnet_len <= 32 {
                assert forall|k: int|
                    k >= 0 && config.subnet_min->0.bits + #[trigger] (k * pow2(
                        (32 - config.subnet_len) as nat,
                    )) <= config.subnet_max->0.bits implies exists|i: int|
                    0 <= i < leases.len() && Ipv4Network::of(
                        Ipv4Addr {
                            bits: (config.subnet_min->0.bits + k * pow2(
                                (32 - config.subnet_len) as nat,
                            )) as u32,
                        },
                        config.subnet_len,
                    ).meets((#[trigger] leases[i]).subnet) by {
                    if forall|i: int|
                        0 <= i < leases.len() ==> !Ipv4Network::of(
                            Ipv4Addr {
                                bits: (config.subnet_min->0.bits + k * pow2(
                                    (32 - config.subnet_len) as nat,
                                )) as u32,
                            },
                            config.subnet_len,
                        ).meets((#[trigger] leases[i]).subnet) {
                        allocation_succeeds_where_a_subnet_is_free(
                            config,
                            leases,
                            Err(e),
                            k,
                        );
                    }
                }
            }
        },
        _ => {},
    }
}

/// A granted lease holds the subnet, what the host told and the time until which it was granted,
/// and no IPv6 subnet.
pub proof fn granted_lease_is_as_granted(
    sn: Ipv4Network,
    attrs: LeaseAttrs,
    expiration: SystemTime,
)
    ensures
        ({
            let l = lease_granted(sn, attrs, expiration);
            &&& l.enable_ipv4 && l.subnet == sn
            &&& !l.enable_ipv6 && l.ipv6_subnet is None
            &&& l.attrs == attrs && l.expiration == expiration
        }),
{
}

}
