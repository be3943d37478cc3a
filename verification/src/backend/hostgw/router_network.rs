//! A network in which every host routes to the others directly.
use vstd::prelude::*;

use crate::addr::{IpAddr, IpNetwork};
use crate::backend::common::{ExternalInterface, Network};
use crate::etcd::events::{EventType, LeaseWatchEvent};
use crate::lease::Lease;
use crate::netlink::{
    route_equal, same_route, same_route_is_an_equivalence, Route, RTNH_F_ONLINK, RT_SCOPE_UNIVERSE,
};
use crate::subnet::manager::SubnetManager;
use crate::text::same_text;

verus! {

/// The host's part of the network.
#[derive(Debug)]
pub struct RouterNetwork {
    pub subnet_lease: Lease,
    pub ext_iface: ExternalInterface,
    /// The routes that the backend has added.
    pub routes: Vec<Route>,
    pub subnet_manager: SubnetManager,
    pub mtu: u32,
    pub link_index: u32,
    pub backend_type: &'static str,
}

/// What is to be done to the kernel's routes.
#[derive(Debug, PartialEq, Eq)]
pub enum RouteAction {
    /// The lease is of another backend.
    Ignore,
    Add(Route),
    Delete(Route),
}

/// The route to the host that holds a lease.
pub open spec fn lease_route(lease: Lease, link_index: u32) -> Route {
    Route {
        dst: Some(IpNetwork::V4(lease.subnet)),
        gw: Some(IpAddr::V4(lease.attrs.public_ip)),
        link_index,
        flags: RTNH_F_ONLINK,
        scope: RT_SCOPE_UNIVERSE,
    }
}

/// Whether a lease is of a backend.
pub open spec fn is_of_backend(lease: Lease, backend_type: Seq<char>) -> bool {
    lease.attrs.backend_type matches Some(t) && t@ == backend_type
}

/// Routes without those that are the same as one of them.
pub open spec fn routes_without(routes: Seq<Route>, route: Route) -> Seq<Route> {
    routes.filter(|r: Route| !same_route(r, route))
}

fn drop_routes(routes: &Vec<Route>, route: &Route) -> (r: Vec<Route>)
    ensures
        r@ == routes_without(routes@, *route),
{
    let ghost keep = |r: Route| !same_route(r, *route);
    let n: usize = routes.len();
    let mut out: Vec<Route> = Vec::new();
    let mut i: usize = 0;
    proof {
        reveal(Seq::filter);
    }
    while i < n
        invariant
            n == routes@.len(),
            i <= n,
            keep == (|r: Route| !same_route(r, *route)),
            out@ == routes@.take(i as int).filter(keep),
        decreases n - i,
    {
        proof {
            reveal(Seq::filter);
            assert(routes@.take(i + 1).drop_last() =~= routes@.take(i as int));
            assert(routes@.take(i + 1).last() == routes@[i as int]);
        }
        if !route_equal(&routes[i], route) {
            out.push(routes[i]);
        }
        i = i + 1;
    }
    assert(routes@.take(n as int) =~= routes@);
    out
}

impl Network for RouterNetwork {
    open spec fn held(&self) -> Lease {
        self.subnet_lease
    }

    open spec fn longest_packet(&self) -> int {
        self.mtu as int
    }

    fn lease(&self) -> (r: &Lease) {
        &self.subnet_lease
    }

    fn mtu(&self) -> (r: u32) {
        self.mtu
    }
}

impl RouterNetwork {
    /// Whether two networks differ in nothing but their routes.
    pub open spec fn same_but_routes(self, other: Self) -> bool {
        &&& self.subnet_lease == other.subnet_lease
        &&& self.ext_iface == other.ext_iface
        &&& self.subnet_manager == other.subnet_manager
        &&& self.mtu == other.mtu
        &&& self.link_index == other.link_index
        &&& self.backend_type == other.backend_type
    }

    /// The route to the host that holds a lease.
    pub fn get_route(&self, lease: &Lease) -> (r: Route)
        ensures
            r == lease_route(*lease, self.link_index),
    {
        Route {
            dst: Some(IpNetwork::V4(lease.subnet)),
            gw: Some(IpAddr::V4(lease.attrs.public_ip)),
            link_index: self.link_index,
            flags: RTNH_F_ONLINK,
            scope: RT_SCOPE_UNIVERSE,
        }
    }

    /// What an event asks for. The routes of a removed lease are forgotten.
    pub fn handle_event(&mut self, event: &LeaseWatchEvent) -> (r: RouteAction)
        ensures
            final(self).same_but_routes(*old(self)),
            ({
                let route = lease_route(event.lease, old(self).link_index);
                if !is_of_backend(event.lease, old(self).backend_type@) {
                    r == RouteAction::Ignore && final(self).routes@ == old(self).routes@
                } else {
                    match event.event_type {
                        EventType::Put => r == RouteAction::Add(route) && final(self).routes@
                            == old(self).routes@,
                        EventType::Delete => r == RouteAction::Delete(route) && final(self).routes@
                            == routes_without(old(self).routes@, route),
                    }
                }
            }),
    {
        let ours = match &event.lease.attrs.backend_type {
            Some(t) => same_text(t.as_str(), self.backend_type),
            None => false,
        };
        if !ours {
            return RouteAction::Ignore;
        }
        let route = self.get_route(&event.lease);
        match event.event_type {
            EventType::Put => RouteAction::Add(route),
            EventType::Delete => {
                self.routes = drop_routes(&self.routes, &route);
                RouteAction::Delete(route)
            },
        }
    }

    /// Remembers a route that is about to be added.
    pub fn route_add(&mut self, route: Route)
        ensures
            final(self).same_but_routes(*old(self)),
            final(self).routes@ == old(self).routes@.push(route),
    {
        self.routes.push(route);
    }

    /// The route that the kernel has to the same destination, where it has another gateway or link
    /// and is to be deleted first.
    pub fn stale_route(existing: &[Route], route: &Route) -> (r: Option<Route>)
        ensures
            r == if existing@.len() > 0 && !same_route(existing@[0], *route) {
                Some(existing@[0])
            } else {
                None
            },
    {
        if existing.len() > 0 && !route_equal(&existing[0], route) {
            Some(existing[0])
        } else {
            None
        }
    }

    /// Forgets a route that was deleted.
    pub fn route_deleted(&mut self, route: &Route)
        ensures
            final(self).same_but_routes(*old(self)),
            final(self).routes@ == routes_without(old(self).routes@, *route),
    {
        self.routes = drop_routes(&self.routes, route);
    }

    /// Whether the kernel has to be given a route, by those it has to the same destination.
    pub fn must_add(existing: &[Route], route: &Route) -> (r: bool)
        ensures
            r == !(existing@.len() > 0 && same_route(existing@[0], *route)),
    {
        !(existing.len() > 0 && route_equal(&existing[0], route))
    }
}

/// A forgotten route is gone, and no other is.
pub proof fn forgotten_routes_are_gone(routes: Seq<Route>, route: Route, r: Route)
    ensures
        routes_without(routes, route).contains(r) <==> routes.contains(r) && !same_route(r, route),
{
    let keep = |r: Route| !same_route(r, route);
    let after = routes.filter(keep);
    if after.contains(r) {
        let k = after.index_of(r);
        routes.lemma_filter_pred(keep, k);
        routes.lemma_filter_contains_rev(keep, r);
    }
    if routes.contains(r) && !same_route(r, route) {
        let k = routes.index_of(r);
        routes.lemma_filter_contains(keep, k);
    }
}

/// The route of a lease is the same as itself, so that a removed lease leaves no route behind.
pub proof fn removed_lease_leaves_no_route(routes: Seq<Route>, lease: Lease, link_index: u32)
    ensures
        !routes_without(routes, lease_route(lease, link_index)).contains(
            lease_route(lease, link_index),
        ),
{
    forgotten_routes_are_gone(
        routes,
        lease_route(lease, link_index),
        lease_route(lease, link_index),
    );
}

/// An added route stays remembered when the stale route that it takes the place of is forgotten.
pub proof fn added_route_is_remembered(routes: Seq<Route>, route: Route, stale: Route)
    requires
        !same_route(stale, route),
    ensures
        routes_without(routes.push(route), stale).contains(route),
{
    let after = routes.push(route);
    assert(after[routes.len() as int] == route);
    same_route_is_an_equivalence(route, stale, stale);
    forgotten_routes_are_gone(after, stale, route);
}

/// The route to the host that holds a lease leads to its subnet, over its public address and the
/// given link, which that address need not be a neighbour on.
pub proof fn lease_is_reached_over_its_public_address(lease: Lease, link_index: u32)
    ensures
        ({
            let route = lease_route(lease, link_index);
            &&& route.dst == Some(IpNetwork::V4(lease.subnet))
            &&& route.gw == Some(IpAddr::V4(lease.attrs.public_ip))
            &&& route.link_index == link_index
            &&& route.flags == 4 && route.scope == 0
        }),
{
}

/// A lease is of the backend that its attributes name, letter for letter, and of none where they
/// name none.
pub proof fn lease_is_of_the_backend_it_names(lease: Lease, backend_type: Seq<char>)
    ensures
        is_of_backend(lease, backend_type) <==> lease.attrs.backend_type is Some
            && lease.attrs.backend_type->0@ == backend_type,
{
}

/// The routes that are left keep their order.
pub proof fn routes_that_are_left_keep_their_order(routes: Seq<Route>, route: Route)
    ensures
        routes_without(routes, route) == routes.filter(
            |r: Route|
                !(r.dst is Some && r.dst == route.dst && r.gw is Some && r.gw == route.gw
                    && r.link_index == route.link_index),
        ),
{
    let keep = |r: Route| !same_route(r, route);
    let raw = |r: Route|
        !(r.dst is Some && r.dst == route.dst && r.gw is Some && r.gw == route.gw && r.link_index
            == route.link_index);
    assert(keep =~= raw);
}

/// The longest packet is the network's own.
pub proof fn packets_are_as_long_as_the_network_says(network: RouterNetwork)
    ensures
        network.longest_packet() == network.mtu,
        network.held() == network.subnet_lease,
{
}

/// Networks that differ in nothing but their routes are equal in every other field.
pub proof fn networks_with_the_same_routes_are_the_same(x: RouterNetwork, y: RouterNetwork)
    ensures
        x.same_but_routes(y) && x.routes == y.routes ==> x == y,
{
}

}
