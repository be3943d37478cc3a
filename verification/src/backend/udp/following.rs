//! Why packets reach the host that holds their destination: the routes follow the leases.
use vstd::prelude::*;

use crate::addr::{overlap_is_a_common_address, Ipv4Addr, Ipv4Network};
use crate::backend::udp::routes::{
    destination_of, leads_to, packet_route, redirected, route_leads_to_its_subnet, route_to, route_to_is_one_that_leads,
    routes_after, routes_after_all, RouteEntry,
};
use crate::etcd::events::{delete, put, EventType, LeaseWatchEvent};
use crate::lease::Lease;
use crate::subnet::allocation::apart;
use crate::subnet::manager::aligned;
use crate::subnet::watcher::{
    compared, deletions, distinct, followed, index_is_first, index_of_subnet, removal,
    removed_lease_is_forgotten, with_lease, without_subnet, written_lease_is_known,
};

verus! {

/// Whether a route leads to a subnet.
pub open spec fn routed(routes: Seq<RouteEntry>, sn: Ipv4Network) -> bool {
    exists|i: int| 0 <= i < routes.len() && (#[trigger] routes[i]).dst == sn
}

/// Whether the host at an address holds a subnet.
pub open spec fn holds(leases: Seq<Lease>, sn: Ipv4Network, host: Ipv4Addr) -> bool {
    exists|j: int|
        0 <= j < leases.len() && (#[trigger] leases[j]).subnet == sn && leases[j].attrs.public_ip
            == host
}

/// Whether the routes lead to the holders of all subnets but the own, and nowhere else.
pub open spec fn follows(routes: Seq<RouteEntry>, own: Ipv4Network, leases: Seq<Lease>) -> bool {
    &&& forall|i: int|
        0 <= i < routes.len() ==> (#[trigger] routes[i]).dst != own && holds(
            leases,
            routes[i].dst,
            routes[i].next_hop,
        )
    &&& forall|j: int|
        0 <= j < leases.len() && (#[trigger] leases[j]).subnet != own ==> routed(
            routes,
            leases[j].subnet,
        )
}

/// The routes follow a lease that was written.
proof fn written_lease_is_followed(
    own: Ipv4Network,
    leases: Seq<Lease>,
    routes: Seq<RouteEntry>,
    lease: Lease,
)
    requires
        follows(routes, own, leases),
        lease.subnet != own,
    ensures
        follows(routes_after(routes, put(lease)), own, with_lease(leases, lease)),
{
    let sn = lease.subnet;
    let host = lease.attrs.public_ip;
    let at = index_of_subnet(leases, sn);
    let known = with_lease(leases, lease);
    let after = routes_after(routes, put(lease));
    index_is_first(leases, sn);
    let place = if at < leases.len() {
        at
    } else {
        leases.len() as int
    };
    assert(known[place] == lease);
    assert(holds(known, sn, host));
    assert forall|i: int| 0 <= i < after.len() implies (#[trigger] after[i]).dst != own && holds(
        known,
        after[i].dst,
        after[i].next_hop,
    ) by {
        if i < routes.len() {
            assert(after[i] == redirected(routes[i], sn, host));
            assert(routes[i].dst != own);
            if routes[i].dst != sn {
                let j = choose|j: int|
                    0 <= j < leases.len() && (#[trigger] leases[j]).subnet == routes[i].dst
                        && leases[j].attrs.public_ip == routes[i].next_hop;
                assert(known[j] == leases[j]);
            }
        }
    }
    assert forall|j: int| 0 <= j < known.len() && (#[trigger] known[j]).subnet
        != own implies routed(after, known[j].subnet) by {
        if known[j].subnet == sn {
            assert(after[routes.len() as int].dst == sn);
        } else {
            assert(known[j] == leases[j]);
            let i = choose|i: int|
                0 <= i < routes.len() && (#[trigger] routes[i]).dst == leases[j].subnet;
            assert(after[i] == redirected(routes[i], sn, host));
        }
    }
}

/// The routes follow a lease that was removed.
proof fn removed_lease_is_followed(
    own: Ipv4Network,
    leases: Seq<Lease>,
    routes: Seq<RouteEntry>,
    gone: Lease,
)
    requires
        follows(routes, own, leases),
        distinct(leases),
    ensures
        follows(routes_after(routes, delete(gone)), own, without_subnet(leases, gone.subnet)),
{
    let sn = gone.subnet;
    let at = index_of_subnet(leases, sn);
    let known = without_subnet(leases, sn);
    let keep = |r: RouteEntry| r.dst != sn;
    let after = routes.filter(keep);
    index_is_first(leases, sn);
    assert forall|i: int| 0 <= i < after.len() implies (#[trigger] after[i]).dst != own && holds(
        known,
        after[i].dst,
        after[i].next_hop,
    ) by {
        routes.lemma_filter_pred(keep, i);
        routes.lemma_filter_contains_rev(keep, after[i]);
        let k = routes.index_of(after[i]);
        assert(routes[k].dst != own);
        let j = choose|j: int|
            0 <= j < leases.len() && (#[trigger] leases[j]).subnet == routes[k].dst
                && leases[j].attrs.public_ip == routes[k].next_hop;
        let m = if at < leases.len() && j > at {
            j - 1
        } else {
            j
        };
        assert(known[m] == leases[j]);
    }
    assert forall|j: int| 0 <= j < known.len() && (#[trigger] known[j]).subnet
        != own implies routed(after, known[j].subnet) by {
        let m = if at < leases.len() && j >= at {
            j + 1
        } else {
            j
        };
        assert(known[j] == leases[m]);
        if at < leases.len() {
            assert(leases[at].subnet != leases[m].subnet);
        }
        let i = choose|i: int|
            0 <= i < routes.len() && (#[trigger] routes[i]).dst == leases[m].subnet;
        assert(keep(routes[i]));
        routes.lemma_filter_contains(keep, i);
        let k = after.index_of(routes[i]);
        assert(after[k].dst == known[j].subnet);
    }
}

/// Routes that follow the known leases follow them still after the watcher has taken over events
/// and its report was applied to the routes.
pub proof fn updates_are_followed(
    own: Ipv4Network,
    known: Seq<Lease>,
    events: Seq<LeaseWatchEvent>,
    routes: Seq<RouteEntry>,
)
    requires
        distinct(known),
        follows(routes, own, known),
    ensures
        distinct(followed(own, known, events).0),
        follows(
            routes_after_all(routes, followed(own, known, events).1),
            own,
            followed(own, known, events).0,
        ),
    decreases events.len(),
{
    if events.len() > 0 {
        let (leases, batch) = followed(own, known, events.drop_last());
        let e = events.last();
        let before = routes_after_all(routes, batch);
        updates_are_followed(own, known, events.drop_last(), routes);
        if e.lease.subnet != own {
            match e.event_type {
                EventType::Put => {
                    assert(batch.push(put(e.lease)).drop_last() =~= batch);
                    written_lease_is_known(leases, e.lease);
                    written_lease_is_followed(own, leases, before, e.lease);
                },
                EventType::Delete => {
                    let reported = removal(leases, e.lease);
                    index_is_first(leases, e.lease.subnet);
                    assert(batch.push(reported).drop_last() =~= batch);
                    removed_lease_is_forgotten(leases, e.lease.subnet);
                    removed_lease_is_followed(own, leases, before, reported.lease);
                },
            }
        }
    }
}

/// Of a first snapshot every lease but the own is reported.
proof fn first_snapshot_so_far(own: Ipv4Network, snapshot: Seq<Lease>)
    requires
        distinct(snapshot),
    ensures
        compared(own, Seq::empty(), snapshot).0 == Seq::<Lease>::empty(),
        follows(
            routes_after_all(Seq::empty(), compared(own, Seq::empty(), snapshot).1),
            own,
            snapshot,
        ),
    decreases snapshot.len(),
{
    if snapshot.len() > 0 {
        let before = snapshot.drop_last();
        let lease = snapshot.last();
        let (left, batch) = compared(own, Seq::empty(), before);
        let routes = routes_after_all(Seq::empty(), batch);
        assert forall|i: int, j: int| 0 <= i < j < before.len() implies (
        #[trigger] before[i]).subnet != (#[trigger] before[j]).subnet by {
            assert(snapshot[i].subnet != snapshot[j].subnet);
        }
        first_snapshot_so_far(own, before);
        index_is_first(left, lease.subnet);
        index_is_first(before, lease.subnet);
        if index_of_subnet(before, lease.subnet) < before.len() {
            assert(snapshot[index_of_subnet(before, lease.subnet)].subnet != snapshot[snapshot.len()
                - 1].subnet);
        }
        assert(with_lease(before, lease) =~= snapshot);
        if lease.subnet != own {
            assert(batch.push(put(lease)).drop_last() =~= batch);
            written_lease_is_followed(own, before, routes, lease);
        } else {
            assert forall|i: int| 0 <= i < routes.len() implies (#[trigger] routes[i]).dst != own
                && holds(snapshot, routes[i].dst, routes[i].next_hop) by {
                let j = choose|j: int|
                    0 <= j < before.len() && (#[trigger] before[j]).subnet == routes[i].dst
                        && before[j].attrs.public_ip == routes[i].next_hop;
                assert(snapshot[j] == before[j]);
            }
            assert forall|j: int| 0 <= j < snapshot.len() && (#[trigger] snapshot[j]).subnet
                != own implies routed(routes, snapshot[j].subnet) by {
                assert(before[j] == snapshot[j]);
            }
        }
    }
}

/// The routes of a host that had none follow the first snapshot after its report was applied.
pub proof fn first_snapshot_is_followed(own: Ipv4Network, snapshot: Seq<Lease>)
    requires
        distinct(snapshot),
    ensures
        ({
            let (left, batch) = compared(own, Seq::empty(), snapshot);
            follows(
                routes_after_all(Seq::empty(), batch + deletions(left)),
                own,
                snapshot,
            )
        }),
{
    let (left, batch) = compared(own, Seq::empty(), snapshot);
    first_snapshot_so_far(own, snapshot);
    assert(batch + deletions(left) =~= batch);
}

/// Where the routes follow the leases and no two leases overlap, packets to an address of another
/// host's subnet go to that host.
pub proof fn packets_go_to_the_holder(
    routes: Seq<RouteEntry>,
    own: Ipv4Network,
    leases: Seq<Lease>,
    j: int,
    dst: Ipv4Addr,
)
    requires
        follows(routes, own, leases),
        forall|i: int| 0 <= i < leases.len() ==> (#[trigger] leases[i]).subnet.prefix() <= 32,
        apart(leases),
        0 <= j < leases.len(),
        leases[j].subnet != own,
        aligned(leases[j].subnet.ip(), leases[j].subnet.prefix()),
        leases[j].subnet.has(dst),
    ensures
        route_to(routes, dst) matches Some(route) && route.dst == leases[j].subnet
            && route.next_hop == leases[j].attrs.public_ip,
{
    let sn = leases[j].subnet;
    let i = choose|i: int| 0 <= i < routes.len() && (#[trigger] routes[i]).dst == sn;
    route_leads_to_its_subnet(routes[i], dst);
    route_to_is_one_that_leads(routes, dst);
    assert(leads_to(routes[i], dst));
    let route = route_to(routes, dst)->0;
    let k = routes.index_of(route);
    assert(routes[k] == route);
    let m = choose|m: int|
        0 <= m < leases.len() && (#[trigger] leases[m]).subnet == route.dst
            && leases[m].attrs.public_ip == route.next_hop;
    route_leads_to_its_subnet(route, dst);
    assert(leases[m].subnet.has(dst) && sn.has(dst));
    overlap_is_a_common_address(leases[m].subnet, sn);
    overlap_is_a_common_address(sn, leases[m].subnet);
    assert(leases[m].subnet.meets(sn) && sn.meets(leases[m].subnet));
}

/// Whether a packet is an IPv4 packet to an address of the subnet of another host's lease, where the
/// routes follow the leases and no two leases overlap.
pub open spec fn is_for_the_holder(
    routes: Seq<RouteEntry>,
    own: Ipv4Network,
    leases: Seq<Lease>,
    j: int,
    packet: Seq<u8>,
) -> bool {
    &&& follows(routes, own, leases)
    &&& forall|i: int| 0 <= i < leases.len() ==> (#[trigger] leases[i]).subnet.prefix() <= 32
    &&& apart(leases)
    &&& 0 <= j < leases.len()
    &&& leases[j].subnet != own
    &&& aligned(leases[j].subnet.ip(), leases[j].subnet.prefix())
    &&& packet.len() >= 20
    &&& 0x40 <= packet[0] <= 0x4f
    &&& leases[j].subnet.has(
        Ipv4Addr {
            bits: (packet[16] * 16_777_216 + packet[17] * 65_536 + packet[18] * 256
                + packet[19]) as u32,
        },
    )
}

/// A packet whose first four bits are 4 and whose bytes 16 to 19 are an address of another host's
/// subnet goes to that host, whatever else it holds.
pub proof fn packet_goes_to_the_holder(
    routes: Seq<RouteEntry>,
    own: Ipv4Network,
    leases: Seq<Lease>,
    j: int,
    packet: Seq<u8>,
)
    requires
        follows(routes, own, leases),
        forall|i: int| 0 <= i < leases.len() ==> (#[trigger] leases[i]).subnet.prefix() <= 32,
        apart(leases),
        0 <= j < leases.len(),
        leases[j].subnet != own,
        aligned(leases[j].subnet.ip(), leases[j].subnet.prefix()),
        packet.len() >= 20,
        0x40 <= packet[0] <= 0x4f,
        leases[j].subnet.has(
            Ipv4Addr {
                bits: (packet[16] * 16_777_216 + packet[17] * 65_536 + packet[18] * 256
                    + packet[19]) as u32,
            },
        ),
    ensures
        packet_route(packet, routes) matches Some(route) && route.dst == leases[j].subnet
            && route.next_hop == leases[j].attrs.public_ip,
{
    packets_go_to_the_holder(routes, own, leases, j, destination_of(packet));
}

}
