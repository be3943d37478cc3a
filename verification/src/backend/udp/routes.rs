//! The routes of the UDP backend: which host a packet goes to.
use vstd::arithmetic::div_mod::{lemma_fundamental_div_mod, lemma_fundamental_div_mod_converse};
use vstd::prelude::*;

use crate::addr::{
    addr_text, block, block_size, block_size_bounds, network_of_parts, Ipv4Addr, Ipv4Network,
};
use crate::backend::udp::codec::{after_hop, decrement_ttl, IpSlice, SERIALIZED_SIZE};
use crate::backend::udp::following::{is_for_the_holder, packet_goes_to_the_holder};
use crate::error::FlannelError;
use crate::etcd::events::{EventType, LeaseWatchEvent};
use crate::lease::Lease;

verus! {

broadcast use network_of_parts;

/// A subnet and the host that holds it.
#[derive(Debug, Clone, Copy)]
pub struct RouteEntry {
    // 172.17.5.0/24
    pub dst: Ipv4Network,
    // 198.19.249.111
    pub next_hop: Ipv4Addr,
}

impl PartialEq for RouteEntry {
    fn eq(&self, other: &Self) -> (r: bool) {
        self.dst == other.dst
    }
}

impl vstd::std_specs::cmp::PartialEqSpecImpl for RouteEntry {
    open spec fn obeys_eq_spec() -> bool {
        true
    }

    open spec fn eq_spec(&self, other: &Self) -> bool {
        self.dst == other.dst
    }
}

/// Whether a route leads to an address: its own address is the lowest one of those that share the
/// first bits of the other.
pub open spec fn leads_to(route: RouteEntry, dst: Ipv4Addr) -> bool {
    route.dst.ip().bits == block(dst, route.dst.prefix()) * block_size(route.dst.prefix())
}

/// The first route that leads to an address.
pub open spec fn route_to(routes: Seq<RouteEntry>, dst: Ipv4Addr) -> Option<RouteEntry>
    decreases routes.len(),
{
    if routes.len() == 0 {
        None
    } else if leads_to(routes[0], dst) {
        Some(routes[0])
    } else {
        route_to(routes.drop_first(), dst)
    }
}

/// The first route that leads to an address.
pub fn find_route(routes: &[RouteEntry], dst: Ipv4Addr) -> (r: Option<&RouteEntry>)
    ensures
        match r {
            Some(route) => route_to(routes@, dst) == Some(*route),
            None => route_to(routes@, dst) is None,
        },
{
    let n: usize = routes.len();
    let mut i: usize = 0;
    proof {
        assert(routes@.skip(0) =~= routes@);
    }
    while i < n
        invariant
            n == routes@.len(),
            i <= n,
            route_to(routes@, dst) == route_to(routes@.skip(i as int), dst),
        decreases n - i,
    {
        let route = &routes[i];
        if let Ok(dst_network) = Ipv4Network::new(dst, route.dst.prefix()) {
            if dst_network.network() == route.dst.ip() {
                return Some(route);
            }
        }
        assert(routes@.skip(i as int).drop_first() =~= routes@.skip(i + 1));
        i = i + 1;
    }
    None
}

/// A route with a new next hop, where it leads to the subnet.
pub open spec fn redirected(route: RouteEntry, sn: Ipv4Network, next_hop: Ipv4Addr) -> RouteEntry {
    if route.dst == sn {
        RouteEntry { dst: route.dst, next_hop }
    } else {
        route
    }
}

/// The routes after an event: a written lease redirects the routes to its subnet and adds one, a
/// removed one takes them away.
pub open spec fn routes_after(routes: Seq<RouteEntry>, e: LeaseWatchEvent) -> Seq<RouteEntry> {
    let sn = e.lease.subnet;
    let next_hop = e.lease.attrs.public_ip;
    match e.event_type {
        EventType::Put => routes.map_values(|r: RouteEntry| redirected(r, sn, next_hop)).push(
            RouteEntry { dst: sn, next_hop },
        ),
        EventType::Delete => routes.filter(|r: RouteEntry| r.dst != sn),
    }
}

/// The routes after events.
pub open spec fn routes_after_all(routes: Seq<RouteEntry>, events: Seq<LeaseWatchEvent>) -> Seq<
    RouteEntry,
>
    decreases events.len(),
{
    if events.len() == 0 {
        routes
    } else {
        routes_after(routes_after_all(routes, events.drop_last()), events.last())
    }
}

fn redirect_routes(routes: &mut Vec<RouteEntry>, sn: Ipv4Network, next_hop: Ipv4Addr)
    ensures
        final(routes)@ == old(routes)@.map_values(|r: RouteEntry| redirected(r, sn, next_hop)),
{
    let n: usize = routes.len();
    let mut i: usize = 0;
    while i < n
        invariant
            n == routes@.len() == old(routes)@.len(),
            i <= n,
            forall|j: int|
                0 <= j < i ==> #[trigger] routes@[j] == redirected(old(routes)@[j], sn, next_hop),
            forall|j: int| i <= j < n ==> #[trigger] routes@[j] == old(routes)@[j],
        decreases n - i,
    {
        if routes[i].dst == sn {
            let dst = routes[i].dst;
            routes[i] = RouteEntry { dst, next_hop };
        }
        i = i + 1;
    }
    assert(routes@ =~= old(routes)@.map_values(|r: RouteEntry| redirected(r, sn, next_hop)));
}

fn drop_routes(routes: &Vec<RouteEntry>, sn: Ipv4Network) -> (r: Vec<RouteEntry>)
    ensures
        r@ == routes@.filter(|r: RouteEntry| r.dst != sn),
{
    let ghost keep = |r: RouteEntry| r.dst != sn;
    let n: usize = routes.len();
    let mut out: Vec<RouteEntry> = Vec::new();
    let mut i: usize = 0;
    proof {
        reveal(Seq::filter);
    }
    while i < n
        invariant
            n == routes@.len(),
            i <= n,
            keep == (|r: RouteEntry| r.dst != sn),
            out@ == routes@.take(i as int).filter(keep),
        decreases n - i,
    {
        proof {
            reveal(Seq::filter);
            assert(routes@.take(i + 1).drop_last() =~= routes@.take(i as int));
            assert(routes@.take(i + 1).last() == routes@[i as int]);
        }
        if routes[i].dst != sn {
            out.push(routes[i]);
        }
        i = i + 1;
    }
    assert(routes@.take(n as int) =~= routes@);
    out
}

/// Follows what happened to the leases of the other hosts.
pub fn apply_events(routes: &mut Vec<RouteEntry>, events: &[LeaseWatchEvent])
    ensures
        final(routes)@ == routes_after_all(old(routes)@, events@),
{
    let n: usize = events.len();
    let mut i: usize = 0;
    while i < n
        invariant
            n == events@.len(),
            i <= n,
            routes@ == routes_after_all(old(routes)@, events@.take(i as int)),
        decreases n - i,
    {
        proof {
            assert(events@.take(i + 1).drop_last() =~= events@.take(i as int));
            assert(events@.take(i + 1).last() == events@[i as int]);
        }
        let e = &events[i];
        match e.event_type {
            EventType::Put => {
                redirect_routes(routes, e.lease.subnet, e.lease.attrs.public_ip);
                routes.push(
                    RouteEntry { dst: e.lease.subnet, next_hop: e.lease.attrs.public_ip },
                );
            },
            EventType::Delete => {
                *routes = drop_routes(&*routes, e.lease.subnet);
            },
        }
        i = i + 1;
    }
    assert(events@.take(n as int) =~= events@);
}

/// The destination address of a packet.
pub open spec fn destination_of(packet: Seq<u8>) -> Ipv4Addr {
    Ipv4Addr {
        bits: (packet[16] * 0x1000000 + packet[17] * 0x10000 + packet[18] * 0x100
            + packet[19]) as u32,
    }
}

/// The route of a packet: only IPv4 packets have one.
pub open spec fn packet_route(packet: Seq<u8>, routes: Seq<RouteEntry>) -> Option<RouteEntry> {
    if packet[0] / 16 == 4 {
        route_to(routes, destination_of(packet))
    } else {
        None
    }
}

/// Makes a packet of the tunnel ready to be sent: where to, or nothing where no host holds its
/// destination.
pub fn send_udp_packet(buf: &mut [u8], routes: &[RouteEntry]) -> (r: Result<
    Option<String>,
    FlannelError,
>)
    ensures
        old(buf)@.len() < SERIALIZED_SIZE ==> r == Err::<Option<String>, FlannelError>(
            FlannelError::PacketTooShort,
        ) && final(buf)@ == old(buf)@,
        old(buf)@.len() >= SERIALIZED_SIZE ==> match packet_route(old(buf)@, routes@) {
            None => r == Ok::<Option<String>, FlannelError>(None) && final(buf)@ == old(buf)@,
            Some(route) => (r matches Ok(Some(to)) && to@ == addr_text(route.next_hop) + ":8285"@)
                && final(buf)@ == after_hop(old(buf)@),
        },
        forall|own: Ipv4Network, leases: Seq<Lease>, j: int| #[trigger]
            is_for_the_holder(routes@, own, leases, j, old(buf)@) ==> (r matches Ok(Some(to)) && to@
                == addr_text(leases[j].attrs.public_ip) + ":8285"@),
{
    proof {
        assert forall|own: Ipv4Network, leases: Seq<Lease>, j: int| #[trigger]
            is_for_the_holder(routes@, own, leases, j, old(buf)@) implies (packet_route(
            old(buf)@,
            routes@,
        ) matches Some(route) && route.next_hop == leases[j].attrs.public_ip) by {
            packet_goes_to_the_holder(routes@, own, leases, j, old(buf)@);
        }
    }
    let mut ip_pkt = match IpSlice::new(buf) {
        Ok(p) => p,
        Err(e) => return Err(e),
    };
    if ip_pkt.version() != 4 {
        return Ok(None);
    }
    let dst_addr = Ipv4Addr::from_octets(ip_pkt.destination());
    match find_route(routes, dst_addr) {
        None => Ok(None),
        Some(route) => {
            decrement_ttl(&mut ip_pkt);
            let mut to = route.next_hop.to_text();
            to.append(":8285");
            Ok(Some(to))
        },
    }
}

/// Makes a packet of another host ready for the tunnel.
pub fn receive_udp_packet(buf: &mut [u8]) -> (r: Result<(), FlannelError>)
    ensures
        old(buf)@.len() < SERIALIZED_SIZE ==> r == Err::<(), FlannelError>(
            FlannelError::PacketTooShort,
        ) && final(buf)@ == old(buf)@,
        old(buf)@.len() >= SERIALIZED_SIZE ==> r == Ok::<(), FlannelError>(()) && final(buf)@
            == after_hop(old(buf)@),
{
    match IpSlice::new(buf) {
        Ok(mut ip_pkt) => {
            decrement_ttl(&mut ip_pkt);
            Ok(())
        },
        Err(e) => Err(e),
    }
}

/// A route to a subnet without host bits leads to exactly the addresses of the subnet; one with
/// host bits leads nowhere.
pub proof fn route_leads_to_its_subnet(route: RouteEntry, dst: Ipv4Addr)
    requires
        route.dst.prefix() <= 32,
    ensures
        route.dst.ip().bits as nat % block_size(route.dst.prefix()) == 0 ==> (leads_to(route, dst)
            <==> route.dst.has(dst)),
        route.dst.ip().bits as nat % block_size(route.dst.prefix()) != 0 ==> !leads_to(route, dst),
{
    let size = block_size(route.dst.prefix()) as int;
    let ip = route.dst.ip().bits as int;
    let b = block(dst, route.dst.prefix()) as int;
    block_size_bounds(route.dst.prefix());
    lemma_fundamental_div_mod(ip, size);
    if ip == b * size {
        assert(ip == size * b + 0) by (nonlinear_arith)
            requires
                ip == b * size,
        ;
        lemma_fundamental_div_mod_converse(ip, size, b, 0);
    }
    if ip % size == 0 && ip / size == b {
        assert(ip == b * size) by (nonlinear_arith)
            requires
                ip == size * b,
        ;
    }
}

/// The route to an address is one of the routes and leads there; where none leads there, there is
/// none.
pub proof fn route_to_is_one_that_leads(routes: Seq<RouteEntry>, dst: Ipv4Addr)
    ensures
        route_to(routes, dst) matches Some(r) ==> routes.contains(r) && leads_to(r, dst),
        route_to(routes, dst) is None <==> forall|i: int|
            0 <= i < routes.len() ==> !leads_to(#[trigger] routes[i], dst),
    decreases routes.len(),
{
    if routes.len() > 0 {
        let rest = routes.drop_first();
        if leads_to(routes[0], dst) {
            assert(routes.contains(routes[0]));
        } else {
            route_to_is_one_that_leads(rest, dst);
            if let Some(r) = route_to(rest, dst) {
                let k = rest.index_of(r);
                assert(routes[k + 1] == r);
            }
            assert forall|i: int| route_to(rest, dst) is None && 0 <= i
                < routes.len() implies !leads_to(#[trigger] routes[i], dst) by {
                if i > 0 {
                    assert(!leads_to(rest[i - 1], dst));
                }
            }
            if forall|i: int| 0 <= i < routes.len() ==> !leads_to(#[trigger] routes[i], dst) {
                assert forall|i: int| 0 <= i < rest.len() implies !leads_to(
                    #[trigger] rest[i],
                    dst,
                ) by {
                    assert(!leads_to(routes[i + 1], dst));
                }
            }
        }
    }
}

/// After a lease was written, packets to its subnet go to its host, where no other subnet's route
/// leads to their destination.
pub proof fn written_lease_is_routed(
    routes: Seq<RouteEntry>,
    e: LeaseWatchEvent,
    dst: Ipv4Addr,
)
    requires
        e.event_type == EventType::Put,
        leads_to(RouteEntry { dst: e.lease.subnet, next_hop: e.lease.attrs.public_ip }, dst),
        forall|i: int|
            0 <= i < routes.len() && leads_to(#[trigger] routes[i], dst) ==> routes[i].dst
                == e.lease.subnet,
    ensures
        route_to(routes_after(routes, e), dst) matches Some(route) && route.dst == e.lease.subnet
            && route.next_hop == e.lease.attrs.public_ip,
{
    let sn = e.lease.subnet;
    let next_hop = e.lease.attrs.public_ip;
    let after = routes_after(routes, e);
    route_to_is_one_that_leads(after, dst);
    assert(after[routes.len() as int] == RouteEntry { dst: sn, next_hop });
    assert(leads_to(after[routes.len() as int], dst));
    if let Some(route) = route_to(after, dst) {
        let k = after.index_of(route);
        if k < routes.len() {
            assert(after[k] == redirected(routes[k], sn, next_hop));
            assert(leads_to(routes[k], dst));
        }
    }
}

/// After a lease was removed, no route leads to its subnet, and the other routes stand as before.
pub proof fn removed_lease_is_not_routed(routes: Seq<RouteEntry>, e: LeaseWatchEvent, r: RouteEntry)
    requires
        e.event_type == EventType::Delete,
    ensures
        routes_after(routes, e).contains(r) <==> routes.contains(r) && r.dst != e.lease.subnet,
{
    let sn = e.lease.subnet;
    let keep = |r: RouteEntry| r.dst != sn;
    let after = routes.filter(keep);
    if after.contains(r) {
        let k = after.index_of(r);
        routes.lemma_filter_pred(keep, k);
        routes.lemma_filter_contains_rev(keep, r);
    }
    if routes.contains(r) && r.dst != sn {
        let k = routes.index_of(r);
        routes.lemma_filter_contains(keep, k);
    }
}

/// Of the routes that lead to an address the first one is taken.
pub proof fn first_route_is_taken(routes: Seq<RouteEntry>, dst: Ipv4Addr, i: int)
    requires
        0 <= i < routes.len(),
        leads_to(routes[i], dst),
        forall|j: int| 0 <= j < i ==> !leads_to(#[trigger] routes[j], dst),
    ensures
        route_to(routes, dst) == Some(routes[i]),
    decreases routes.len(),
{
    if i > 0 {
        let rest = routes.drop_first();
        assert(!leads_to(routes[0], dst));
        assert forall|j: int| 0 <= j < i - 1 implies !leads_to(#[trigger] rest[j], dst) by {
            assert(!leads_to(routes[j + 1], dst));
        }
        first_route_is_taken(rest, dst, i - 1);
    }
}

/// A written lease sends every route to its subnet to its host, leaves the others as they are, and
/// adds one to its subnet at the end.
pub proof fn written_lease_redirects_and_adds(
    routes: Seq<RouteEntry>,
    e: LeaseWatchEvent,
    i: int,
)
    requires
        e.event_type == EventType::Put,
    ensures
        ({
            let after = routes_after(routes, e);
            &&& after.len() == routes.len() + 1
            &&& after.last().dst == e.lease.subnet
            &&& after.last().next_hop == e.lease.attrs.public_ip
            &&& 0 <= i < routes.len() ==> after[i].dst == routes[i].dst && after[i].next_hop == if
                routes[i].dst == e.lease.subnet {
                e.lease.attrs.public_ip
            } else {
                routes[i].next_hop
            }
        }),
{
}

/// A removed lease takes the routes to its subnet away, and leaves the others in their order.
pub proof fn removed_lease_takes_its_routes_away(routes: Seq<RouteEntry>, e: LeaseWatchEvent)
    requires
        e.event_type == EventType::Delete,
    ensures
        routes_after(routes, e) == routes.filter(|r: RouteEntry| r.dst != e.lease.subnet),
        forall|i: int|
            0 <= i < routes_after(routes, e).len() ==> (#[trigger] routes_after(routes, e)[i]).dst
                != e.lease.subnet,
{
    let sn = e.lease.subnet;
    let keep = |r: RouteEntry| r.dst != sn;
    assert(keep =~= (|r: RouteEntry| r.dst != e.lease.subnet));
    assert forall|i: int| 0 <= i < routes_after(routes, e).len() implies (#[trigger] routes_after(
        routes,
        e,
    )[i]).dst != sn by {
        routes.lemma_filter_pred(keep, i);
    }
}

/// Events are followed one after the other.
pub proof fn events_are_followed_in_order(
    routes: Seq<RouteEntry>,
    events: Seq<LeaseWatchEvent>,
    e: LeaseWatchEvent,
)
    ensures
        routes_after_all(routes, Seq::empty()) == routes,
        routes_after_all(routes, events.push(e)) == routes_after(
            routes_after_all(routes, events),
            e,
        ),
{
    assert(events.push(e).drop_last() =~= events);
}

/// The destination of a packet is the address of its bytes 16 to 19, the most significant first.
pub proof fn destination_is_four_bytes(packet: Seq<u8>)
    requires
        packet.len() >= 20,
    ensures
        destination_of(packet).bits == packet[16] * 16_777_216 + packet[17] * 65_536 + packet[18]
            * 256 + packet[19],
{
}

/// Where a packet goes depends on its version and its destination alone; a packet of another version
/// goes nowhere.
pub proof fn packets_are_routed_by_version_and_destination(
    a: Seq<u8>,
    b: Seq<u8>,
    routes: Seq<RouteEntry>,
)
    requires
        a.len() >= 20,
        b.len() >= 20,
    ensures
        a[0] / 16 == b[0] / 16 && a.subrange(16, 20) == b.subrange(16, 20) ==> packet_route(
            a,
            routes,
        ) == packet_route(b, routes),
        a[0] / 16 != 4 ==> packet_route(a, routes) is None,
        a[0] / 16 == 4 ==> packet_route(a, routes) == route_to(routes, destination_of(a)),
{
    if a.subrange(16, 20) == b.subrange(16, 20) {
        assert(a[16] == a.subrange(16, 20)[0] && b[16] == b.subrange(16, 20)[0]);
        assert(a[17] == a.subrange(16, 20)[1] && b[17] == b.subrange(16, 20)[1]);
        assert(a[18] == a.subrange(16, 20)[2] && b[18] == b.subrange(16, 20)[2]);
        assert(a[19] == a.subrange(16, 20)[3] && b[19] == b.subrange(16, 20)[3]);
    }
}

}
