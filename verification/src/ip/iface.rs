//! The host's interfaces and their addresses.
use vstd::prelude::*;

use crate::addr::{octet, IpNetwork, Ipv4Addr, Ipv4Network};
use crate::backend::common::{ExternalInterface, Interface};
use crate::error::FlannelError;
use crate::netlink::{found_link, Link, Route};

verus! {

/// Whether a route is taken where no other one fits.
pub open spec fn is_default(route: Route) -> bool {
    match route.dst {
        None => true,
        Some(dst) => dst == IpNetwork::V4(Ipv4Network::of(Ipv4Addr { bits: 0 }, 0)),
    }
}

/// The first default route.
pub open spec fn default_route(routes: Seq<Route>) -> Option<Route>
    decreases routes.len(),
{
    if routes.len() == 0 {
        None
    } else if is_default(routes[0]) {
        Some(routes[0])
    } else {
        default_route(routes.drop_first())
    }
}

/// The link of the first default route.
pub fn default_gateway_link(routes: &[Route]) -> (r: Result<Option<u32>, FlannelError>)
    ensures
        match default_route(routes@) {
            None => r == Ok::<Option<u32>, FlannelError>(None),
            Some(route) => if route.link_index == 0 {
                r == Err::<Option<u32>, FlannelError>(FlannelError::DefaultRouteWithoutInterface)
            } else {
                r == Ok::<Option<u32>, FlannelError>(Some(route.link_index))
            },
        },
{
    let everything = IpNetwork::V4(Ipv4Network::everything());
    let n: usize = routes.len();
    let mut i: usize = 0;
    proof {
        assert(routes@.skip(0) =~= routes@);
    }
    while i < n
        invariant
            n == routes@.len(),
            i <= n,
            everything == IpNetwork::V4(Ipv4Network::of(Ipv4Addr { bits: 0 }, 0)),
            default_route(routes@) == default_route(routes@.skip(i as int)),
        decreases n - i,
    {
        let route = routes[i];
        let found = match route.dst {
            None => true,
            Some(dst) => dst == everything,
        };
        if found {
            if route.link_index == 0 {
                return Err(FlannelError::DefaultRouteWithoutInterface);
            }
            return Ok(Some(route.link_index));
        }
        assert(routes@.skip(i as int).drop_first() =~= routes@.skip(i + 1));
        i = i + 1;
    }
    Ok(None)
}

/// The interface of a link, where the link is there.
pub fn get_default_gateway_interface(link: Option<Link>) -> (r: Result<Interface, FlannelError>)
    ensures
        match link {
            None => r == Err::<Interface, FlannelError>(FlannelError::LinkNotFound),
            Some(link) => r == Ok::<Interface, FlannelError>(
                (Interface {
                    index: link.link_attrs.index,
                    mtu: link.link_attrs.mtu,
                    name: link.link_attrs.name,
                }),
            ),
        },
{
    match found_link(link) {
        Ok(link) => Ok(
            Interface {
                index: link.link_attrs.index,
                mtu: link.link_attrs.mtu,
                name: link.link_attrs.name,
            },
        ),
        Err(e) => Err(e),
    }
}

/// 169.254.0.0/16
pub open spec fn is_link_local(ip: Ipv4Addr) -> bool {
    octet(ip, 0) == 169 && octet(ip, 1) == 254
}

/// Whether other hosts can send to an address.
pub open spec fn is_reachable(ip: Ipv4Addr) -> bool {
    ip.bits != 0 && ip.bits != u32::MAX && octet(ip, 0) != 127 && !(224 <= octet(ip, 0) <= 239)
        && !is_link_local(ip)
}

/// The IPv4 addresses of a list that fit.
pub open spec fn ipv4_where(list: Seq<IpNetwork>, fits: spec_fn(Ipv4Addr) -> bool) -> Seq<Ipv4Addr>
    decreases list.len(),
{
    if list.len() == 0 {
        Seq::empty()
    } else {
        let before = ipv4_where(list.drop_last(), fits);
        match list.last() {
            IpNetwork::V4(n) => if fits(n.ip()) {
                before.push(n.ip())
            } else {
                before
            },
            IpNetwork::V6(_) => before,
        }
    }
}

/// The usable addresses of an interface: those that other hosts can send to, then the link-local
/// ones.
pub open spec fn usable_addrs(list: Seq<IpNetwork>) -> Seq<Ipv4Addr> {
    ipv4_where(list, |ip: Ipv4Addr| is_reachable(ip)) + ipv4_where(
        list,
        |ip: Ipv4Addr| is_link_local(ip),
    )
}

/// The usable addresses of an interface.
pub fn get_iface_addrs(ext_iface: &Interface, addr_list: &[IpNetwork]) -> (r: Result<
    Vec<Ipv4Addr>,
    FlannelError,
>)
    ensures
        match r {
            Ok(addrs) => addrs@ == usable_addrs(addr_list@) && addrs@.len() > 0,
            Err(e) => usable_addrs(addr_list@).len() == 0 && e == FlannelError::NoValidAddress(
                ext_iface.name,
            ),
        },
{
    let ghost reachable = |ip: Ipv4Addr| is_reachable(ip);
    let ghost local = |ip: Ipv4Addr| is_link_local(ip);
    let n: usize = addr_list.len();
    let mut addrs: Vec<Ipv4Addr> = Vec::new();
    let mut ll: Vec<Ipv4Addr> = Vec::new();
    let mut i: usize = 0;
    while i < n
        invariant
            n == addr_list@.len(),
            i <= n,
            reachable == (|ip: Ipv4Addr| is_reachable(ip)),
            local == (|ip: Ipv4Addr| is_link_local(ip)),
            addrs@ == ipv4_where(addr_list@.take(i as int), reachable),
            ll@ == ipv4_where(addr_list@.take(i as int), local),
        decreases n - i,
    {
        proof {
            assert(addr_list@.take(i + 1).drop_last() =~= addr_list@.take(i as int));
            assert(addr_list@.take(i + 1).last() == addr_list@[i as int]);
        }
        if let IpNetwork::V4(ipnet) = addr_list[i] {
            let ip = ipnet.ip();
            if !ip.is_broadcast() && !ip.is_unspecified() && !ip.is_loopback() && !ip.is_multicast()
                && !ip.is_link_local() {
                addrs.push(ip);
            } else if ip.is_link_local() {
                ll.push(ip);
            }
        }
        i = i + 1;
    }
    assert(addr_list@.take(n as int) =~= addr_list@);
    addrs.append(&mut ll);
    if addrs.len() == 0 {
        return Err(FlannelError::NoValidAddress(ext_iface.name.clone()));
    }
    Ok(addrs)
}

/// The interface over which the hosts reach each other, at the last one of its usable addresses.
pub fn lookup_ext_iface(ext_iface: Option<Interface>, addr_list: &[IpNetwork]) -> (r: Result<
    ExternalInterface,
    FlannelError,
>)
    ensures
        match ext_iface {
            None => r == Err::<ExternalInterface, FlannelError>(FlannelError::NoDefaultGateway),
            Some(iface) => if usable_addrs(addr_list@).len() == 0 {
                r == Err::<ExternalInterface, FlannelError>(
                    FlannelError::NoValidAddress(iface.name),
                )
            } else {
                r == Ok::<ExternalInterface, FlannelError>(
                    (ExternalInterface {
                        iface,
                        iface_addr: usable_addrs(addr_list@).last(),
                        iface_v6_addr: None,
                        ext_addr: Some(usable_addrs(addr_list@).last()),
                        ext_v6_addr: None,
                    }),
                )
            },
        },
{
    let iface = match ext_iface {
        None => return Err(FlannelError::NoDefaultGateway),
        Some(iface) => iface,
    };
    let addrs = match get_iface_addrs(&iface, addr_list) {
        Ok(addrs) => addrs,
        Err(e) => return Err(e),
    };
    let iface_addr = addrs[addrs.len() - 1];
    Ok(
        ExternalInterface {
            iface,
            iface_addr,
            iface_v6_addr: None,
            ext_addr: Some(iface_addr),
            ext_v6_addr: None,
        },
    )
}

/// An address that a link already has.
#[derive(Debug, Clone, Copy, PartialEq, Eq)]
pub struct ExistingAddr {
    pub ipnet: IpNetwork,
    /// Whether nothing but the network is set, as in an address that is added.
    pub bare: bool,
}

/// What to do to a link's addresses.
#[derive(Debug, PartialEq, Eq)]
pub struct AddrPlan {
    /// Positions of the addresses to be removed.
    pub remove: Vec<usize>,
    /// Whether the wanted address is to be added.
    pub add: bool,
}

/// Whether an address is the one that the link is to have.
pub open spec fn is_wanted(addr: ExistingAddr, ip: Ipv4Network) -> bool {
    addr.bare && addr.ipnet == IpNetwork::V4(ip)
}

/// Whether an address is in the way: an IPv4 address of the network that is not the wanted one.
pub open spec fn in_the_way(addr: ExistingAddr, ip: Ipv4Network, ipn: Ipv4Network) -> bool {
    !is_wanted(addr, ip) && match addr.ipnet {
        IpNetwork::V4(n) => ipn.has(n.ip()),
        IpNetwork::V6(_) => false,
    }
}

/// The positions, below `n`, of the addresses that are in the way.
pub open spec fn positions_in_the_way(
    existing: Seq<ExistingAddr>,
    ip: Ipv4Network,
    ipn: Ipv4Network,
    n: int,
) -> Seq<usize>
    decreases n,
{
    if n <= 0 {
        Seq::empty()
    } else {
        let before = positions_in_the_way(existing, ip, ipn, n - 1);
        if in_the_way(existing[n - 1], ip, ipn) {
            before.push((n - 1) as usize)
        } else {
            before
        }
    }
}

/// Plans how a link comes to have an address, and no other one of a network.
pub fn ensure_v4_addr_on_link(
    ip: Ipv4Network,
    ipn: Ipv4Network,
    existing_addrs: &[ExistingAddr],
) -> (r: AddrPlan)
    ensures
        r.remove@ == positions_in_the_way(existing_addrs@, ip, ipn, existing_addrs@.len() as int),
        r.add <==> forall|i: int|
            0 <= i < existing_addrs@.len() ==> !is_wanted(#[trigger] existing_addrs@[i], ip),
{
    let wanted = IpNetwork::V4(ip);
    let n: usize = existing_addrs.len();
    let mut remove: Vec<usize> = Vec::new();
    let mut has_addr = false;
    let mut i: usize = 0;
    while i < n
        invariant
            wanted == IpNetwork::V4(ip),
            n == existing_addrs@.len(),
            i <= n,
            remove@ == positions_in_the_way(existing_addrs@, ip, ipn, i as int),
            has_addr <==> exists|j: int|
                0 <= j < i && is_wanted(#[trigger] existing_addrs@[j], ip),
        decreases n - i,
    {
        let addr = existing_addrs[i];
        if addr.bare && addr.ipnet == wanted {
            has_addr = true;
        } else if let IpNetwork::V4(existing) = addr.ipnet {
            if ipn.contains(existing.ip()) {
                remove.push(i);
            }
        }
        i = i + 1;
    }
    AddrPlan { remove, add: !has_addr }
}

/// An address is to be removed exactly when it is in the way.
pub proof fn plan_removes_what_is_in_the_way(
    existing: Seq<ExistingAddr>,
    ip: Ipv4Network,
    ipn: Ipv4Network,
    n: int,
    i: usize,
)
    requires
        0 <= n <= existing.len() <= usize::MAX,
    ensures
        positions_in_the_way(existing, ip, ipn, n).contains(i) <==> i < n && in_the_way(
            existing[i as int],
            ip,
            ipn,
        ),
    decreases n,
{
    if n > 0 {
        let before = positions_in_the_way(existing, ip, ipn, n - 1);
        let after = positions_in_the_way(existing, ip, ipn, n);
        plan_removes_what_is_in_the_way(existing, ip, ipn, n - 1, i);
        if in_the_way(existing[n - 1], ip, ipn) {
            assert(after[after.len() - 1] == n - 1);
            if before.contains(i) {
                let k = before.index_of(i);
                assert(after[k] == i);
            }
            if after.contains(i) && i != n - 1 {
                let k = after.index_of(i);
                assert(before[k] == i);
            }
        }
    }
}

/// The first route that has no destination, or 0.0.0.0/0, is the default route; without such a route
/// there is none.
pub proof fn first_default_route_is_taken(routes: Seq<Route>, i: int)
    requires
        0 <= i <= routes.len(),
        forall|j: int|
            0 <= j < i ==> (#[trigger] routes[j]).dst is Some && routes[j].dst->0 != IpNetwork::V4(
                Ipv4Network::of(Ipv4Addr { bits: 0 }, 0),
            ),
        i < routes.len() ==> routes[i].dst is None || routes[i].dst->0 == IpNetwork::V4(
            Ipv4Network::of(Ipv4Addr { bits: 0 }, 0),
        ),
    ensures
        i < routes.len() ==> default_route(routes) == Some(routes[i]),
        i == routes.len() ==> default_route(routes) is None,
    decreases routes.len(),
{
    if i > 0 {
        let rest = routes.drop_first();
        assert(routes[0].dst is Some);
        assert(forall|j: int| 0 <= j < rest.len() ==> #[trigger] rest[j] == routes[j + 1]);
        first_default_route_is_taken(rest, i - 1);
    }
}

/// The link-local addresses are those of 169.254.0.0/16. Other hosts can send to every address but
/// these, 0.0.0.0, 255.255.255.255 and those of 127.0.0.0/8 and 224.0.0.0/4.
pub proof fn addresses_are_classed_by_their_ranges(ip: Ipv4Addr)
    ensures
        is_link_local(ip) <==> 0xa9fe_0000 <= ip.bits <= 0xa9fe_ffff,
        is_reachable(ip) <==> ip.bits != 0 && ip.bits != 0xffff_ffff && !(0x7f00_0000 <= ip.bits
            <= 0x7fff_ffff) && !(0xe000_0000 <= ip.bits <= 0xefff_ffff) && !(0xa9fe_0000 <= ip.bits
            <= 0xa9fe_ffff),
{
}

proof fn picked_addresses(
    list: Seq<IpNetwork>,
    fits: spec_fn(Ipv4Addr) -> bool,
    p: spec_fn(IpNetwork) -> bool,
)
    requires
        forall|n: IpNetwork| #[trigger] p(n) <==> n is V4 && fits(n->V4_0.ip()),
    ensures
        ipv4_where(list, fits).len() == list.filter(p).len(),
        forall|i: int|
            0 <= i < list.filter(p).len() ==> (#[trigger] list.filter(p)[i]) is V4 && list.filter(
                p,
            )[i]->V4_0.ip() == ipv4_where(list, fits)[i],
    decreases list.len(),
{
    reveal(Seq::filter);
    if list.len() > 0 {
        let before = list.drop_last();
        picked_addresses(before, fits, p);
        let kept = before.filter(p);
        assert(list.filter(p) == if p(list.last()) {
            kept.push(list.last())
        } else {
            kept
        });
        assert forall|i: int| 0 <= i < list.filter(p).len() implies (#[trigger] list.filter(p)[i])
            is V4 && list.filter(p)[i]->V4_0.ip() == ipv4_where(list, fits)[i] by {
            if i < kept.len() {
                assert(list.filter(p)[i] == kept[i]);
            }
        }
    }
}

/// The usable addresses of an interface are its IPv4 addresses that other hosts can send to, in
/// their order, and after them the link-local ones, in theirs.
pub proof fn usable_addresses_are_picked_in_order(list: Seq<IpNetwork>)
    ensures
        ({
            let near = list.filter(
                |n: IpNetwork| n is V4 && 0xa9fe_0000 <= n->V4_0.ip().bits <= 0xa9fe_ffff,
            );
            let far = list.filter(
                |n: IpNetwork|
                    n is V4 && n->V4_0.ip().bits != 0 && n->V4_0.ip().bits != 0xffff_ffff && !(
                    0x7f00_0000 <= n->V4_0.ip().bits <= 0x7fff_ffff) && !(0xe000_0000
                        <= n->V4_0.ip().bits <= 0xefff_ffff) && !(0xa9fe_0000 <= n->V4_0.ip().bits
                        <= 0xa9fe_ffff),
            );
            let usable = usable_addrs(list);
            &&& usable.len() == far.len() + near.len()
            &&& forall|i: int|
                0 <= i < far.len() ==> (#[trigger] far[i]) is V4 && usable[i] == far[i]->V4_0.ip()
            &&& forall|i: int|
                0 <= i < near.len() ==> (#[trigger] near[i]) is V4 && usable[far.len() + i]
                    == near[i]->V4_0.ip()
        }),
{
    let near = |n: IpNetwork| n is V4 && 0xa9fe_0000 <= n->V4_0.ip().bits <= 0xa9fe_ffff;
    let far = |n: IpNetwork|
        n is V4 && n->V4_0.ip().bits != 0 && n->V4_0.ip().bits != 0xffff_ffff && !(0x7f00_0000
            <= n->V4_0.ip().bits <= 0x7fff_ffff) && !(0xe000_0000 <= n->V4_0.ip().bits
            <= 0xefff_ffff) && !(0xa9fe_0000 <= n->V4_0.ip().bits <= 0xa9fe_ffff);
    let reachable = |ip: Ipv4Addr| is_reachable(ip);
    let local = |ip: Ipv4Addr| is_link_local(ip);
    assert forall|n: IpNetwork| #[trigger] near(n) <==> n is V4 && local(n->V4_0.ip()) by {
        addresses_are_classed_by_their_ranges(n->V4_0.ip());
    }
    assert forall|n: IpNetwork| #[trigger] far(n) <==> n is V4 && reachable(n->V4_0.ip()) by {
        addresses_are_classed_by_their_ranges(n->V4_0.ip());
    }
    picked_addresses(list, reachable, far);
    picked_addresses(list, local, near);
}

/// The wanted address is the one that has nothing but the network set; in the way is every other
/// IPv4 address of the network, whatever its prefix length.
pub proof fn addresses_of_the_network_are_in_the_way(
    addr: ExistingAddr,
    ip: Ipv4Network,
    ipn: Ipv4Network,
)
    ensures
        is_wanted(addr, ip) <==> addr.bare && addr.ipnet is V4 && addr.ipnet->V4_0 == ip,
        in_the_way(addr, ip, ipn) <==> addr.ipnet is V4 && ipn.has(addr.ipnet->V4_0.ip()) && !(
        addr.bare && addr.ipnet->V4_0 == ip),
{
}

/// What is to be removed is named once, from the first position to the last.
pub proof fn plan_removes_in_order(
    existing: Seq<ExistingAddr>,
    ip: Ipv4Network,
    ipn: Ipv4Network,
    n: int,
)
    requires
        0 <= n <= existing.len() <= usize::MAX,
    ensures
        ({
            let remove = positions_in_the_way(existing, ip, ipn, n);
            &&& forall|i: int| 0 <= i < remove.len() ==> #[trigger] remove[i] < n
            &&& forall|i: int, j: int| 0 <= i < j < remove.len() ==> remove[i] < remove[j]
        }),
    decreases n,
{
    if n > 0 {
        plan_removes_in_order(existing, ip, ipn, n - 1);
        let before = positions_in_the_way(existing, ip, ipn, n - 1);
        let after = positions_in_the_way(existing, ip, ipn, n);
        assert forall|i: int, j: int| 0 <= i < j < after.len() implies after[i] < after[j] by {
            assert(before[i] < n - 1);
        }
        assert forall|i: int| 0 <= i < after.len() implies #[trigger] after[i] < n by {
            if i < before.len() {
                assert(before[i] < n - 1);
            }
        }
    }
}

}
