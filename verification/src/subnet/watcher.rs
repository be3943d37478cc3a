//! Following the leases of the other hosts.
use vstd::prelude::*;

use crate::addr::Ipv4Network;
use crate::etcd::events::{delete, put, EventType, LeaseWatchEvent, LeaseWatchResult};
use crate::lease::Lease;

verus! {

/// The leases that are known, and the own one. Nothing is reported of the own lease by a first
/// snapshot and by events; a later snapshot reports it as removed where it was among the known.
#[derive(Debug)]
pub struct LeaseWatcher<'a> {
    pub own_lease: &'a Lease,
    pub leases: Vec<Lease>,
}

/// The position of the first lease of a subnet, or the number of leases where there is none.
pub open spec fn index_of_subnet(leases: Seq<Lease>, sn: Ipv4Network) -> int
    decreases leases.len(),
{
    if leases.len() == 0 || leases[0].subnet == sn {
        0
    } else {
        1 + index_of_subnet(leases.drop_first(), sn)
    }
}

/// The leases after a lease was written.
pub open spec fn with_lease(leases: Seq<Lease>, lease: Lease) -> Seq<Lease> {
    let i = index_of_subnet(leases, lease.subnet);
    if i < leases.len() {
        leases.update(i, lease)
    } else {
        leases.push(lease)
    }
}

/// The leases after the first one of a subnet was removed.
pub open spec fn without_subnet(leases: Seq<Lease>, sn: Ipv4Network) -> Seq<Lease> {
    let i = index_of_subnet(leases, sn);
    if i < leases.len() {
        leases.remove(i)
    } else {
        leases
    }
}

/// What is reported when a lease is removed: the lease as it was known, where it was.
pub open spec fn removal(leases: Seq<Lease>, lease: Lease) -> LeaseWatchEvent {
    let i = index_of_subnet(leases, lease.subnet);
    if i < leases.len() {
        delete(leases[i])
    } else {
        delete(lease)
    }
}

/// The known leases that a snapshot does not name, and a report of those that it adds. The own
/// subnet is passed over.
pub open spec fn compared(own: Ipv4Network, known: Seq<Lease>, snapshot: Seq<Lease>) -> (
    Seq<Lease>,
    Seq<LeaseWatchEvent>,
)
    decreases snapshot.len(),
{
    if snapshot.len() == 0 {
        (known, Seq::empty())
    } else {
        let (left, batch) = compared(own, known, snapshot.drop_last());
        let lease = snapshot.last();
        if lease.subnet == own {
            (left, batch)
        } else if index_of_subnet(left, lease.subnet) < left.len() {
            (without_subnet(left, lease.subnet), batch)
        } else {
            (left, batch.push(put(lease)))
        }
    }
}

/// Leases that are gone.
pub open spec fn deletions(leases: Seq<Lease>) -> Seq<LeaseWatchEvent> {
    Seq::new(leases.len(), |i: int| delete(leases[i]))
}

/// The leases after some events, and what is reported of them. The own subnet is passed over.
pub open spec fn followed(
    own: Ipv4Network,
    known: Seq<Lease>,
    events: Seq<LeaseWatchEvent>,
) -> (Seq<Lease>, Seq<LeaseWatchEvent>)
    decreases events.len(),
{
    if events.len() == 0 {
        (known, Seq::empty())
    } else {
        let (leases, batch) = followed(own, known, events.drop_last());
        let e = events.last();
        if e.lease.subnet == own {
            (leases, batch)
        } else {
            match e.event_type {
                EventType::Put => (with_lease(leases, e.lease), batch.push(put(e.lease))),
                EventType::Delete => (
                    without_subnet(leases, e.lease.subnet),
                    batch.push(removal(leases, e.lease)),
                ),
            }
        }
    }
}

/// The leases after what the registry reported, and what comes of it: events go before a snapshot.
pub open spec fn applied(own: Ipv4Network, known: Seq<Lease>, wr: LeaseWatchResult) -> (
    Seq<Lease>,
    Seq<LeaseWatchEvent>,
) {
    if wr.events@.len() > 0 {
        followed(own, known, wr.events@)
    } else if wr.snapshot@.len() > 0 {
        let (left, batch) = compared(own, known, wr.snapshot@);
        (wr.snapshot@, batch + deletions(left))
    } else {
        (known, Seq::empty())
    }
}

fn find_subnet(leases: &Vec<Lease>, sn: Ipv4Network) -> (r: Option<usize>)
    ensures
        match r {
            Some(i) => i == index_of_subnet(leases@, sn) && i < leases@.len(),
            None => index_of_subnet(leases@, sn) == leases@.len(),
        },
{
    let n: usize = leases.len();
    let mut i: usize = 0;
    proof {
        assert(leases@.skip(0) =~= leases@);
    }
    while i < n
        invariant
            n == leases@.len(),
            i <= n,
            index_of_subnet(leases@, sn) == i + index_of_subnet(leases@.skip(i as int), sn),
        decreases n - i,
    {
        if leases[i].subnet == sn {
            return Some(i);
        }
        assert(leases@.skip(i as int).drop_first() =~= leases@.skip(i + 1));
        i = i + 1;
    }
    None
}

fn clone_leases(leases: &[Lease]) -> (r: Vec<Lease>)
    ensures
        r@ == leases@,
{
    let n: usize = leases.len();
    let mut out: Vec<Lease> = Vec::new();
    let mut i: usize = 0;
    while i < n
        invariant
            n == leases@.len(),
            i <= n,
            out@ == leases@.take(i as int),
        decreases n - i,
    {
        out.push(leases[i].clone());
        i = i + 1;
    }
    out
}

impl<'a> LeaseWatcher<'a> {
    /// Takes over a snapshot and reports what it adds to the known leases and what it lacks.
    pub fn reset(&mut self, leases: &[Lease]) -> (r: Vec<LeaseWatchEvent>)
        ensures
            final(self).own_lease == old(self).own_lease,
            final(self).leases@ == leases@,
            ({
                let (left, batch) = compared(old(self).own_lease.subnet, old(self).leases@, leases@);
                r@ == batch + deletions(left)
            }),
    {
        let own = self.own_lease.subnet;
        let ghost known = self.leases@;
        let mut batch: Vec<LeaseWatchEvent> = Vec::new();
        let n: usize = leases.len();
        let mut i: usize = 0;
        while i < n
            invariant
                n == leases@.len(),
                i <= n,
                self.own_lease == old(self).own_lease,
                own == self.own_lease.subnet,
                known == old(self).leases@,
                (self.leases@, batch@) == compared(own, known, leases@.take(i as int)),
            decreases n - i,
        {
            proof {
                assert(leases@.take(i + 1).drop_last() =~= leases@.take(i as int));
                assert(leases@.take(i + 1).last() == leases@[i as int]);
            }
            let nl = &leases[i];
            i = i + 1;
            if nl.subnet == own {
                continue;
            }
            match find_subnet(&self.leases, nl.subnet) {
                None => {
                    // A new lease.
                    batch.push(LeaseWatchEvent { event_type: EventType::Put, lease: nl.clone() });
                },
                Some(idx) => {
                    // Already known.
                    self.leases.remove(idx);
                },
            }
        }
        assert(leases@.take(n as int) =~= leases@);
        // What remains is not in the snapshot, so it was removed.
        let ghost left = self.leases@;
        let ghost added = batch@;
        let m: usize = self.leases.len();
        let mut j: usize = 0;
        while j < m
            invariant
                self.own_lease == old(self).own_lease,
                m == self.leases@.len(),
                self.leases@ == left,
                j <= m,
                batch@ =~= added + deletions(left).take(j as int),
            decreases m - j,
        {
            batch.push(
                LeaseWatchEvent { event_type: EventType::Delete, lease: self.leases[j].clone() },
            );
            j = j + 1;
        }
        assert(deletions(left).take(m as int) =~= deletions(left));
        self.leases = clone_leases(leases);
        batch
    }

    /// Applies events and reports them.
    pub fn update(&mut self, events: &[LeaseWatchEvent]) -> (r: Vec<LeaseWatchEvent>)
        ensures
            final(self).own_lease == old(self).own_lease,
            (final(self).leases@, r@) == followed(
                old(self).own_lease.subnet,
                old(self).leases@,
                events@,
            ),
    {
        let own = self.own_lease.subnet;
        let ghost known = self.leases@;
        let mut batch: Vec<LeaseWatchEvent> = Vec::new();
        let n: usize = events.len();
        let mut i: usize = 0;
        while i < n
            invariant
                n == events@.len(),
                i <= n,
                self.own_lease == old(self).own_lease,
                own == self.own_lease.subnet,
                known == old(self).leases@,
                (self.leases@, batch@) == followed(own, known, events@.take(i as int)),
            decreases n - i,
        {
            proof {
                assert(events@.take(i + 1).drop_last() =~= events@.take(i as int));
                assert(events@.take(i + 1).last() == events@[i as int]);
            }
            let e = &events[i];
            i = i + 1;
            if e.lease.subnet == own {
                continue;
            }
            match e.event_type {
                EventType::Put => {
                    let reported = self.add(&e.lease);
                    batch.push(reported);
                },
                EventType::Delete => {
                    let reported = self.remove(&e.lease);
                    batch.push(reported);
                },
            }
        }
        assert(events@.take(n as int) =~= events@);
        batch
    }

    /// Notes a lease that was written.
    pub fn add(&mut self, lease: &Lease) -> (r: LeaseWatchEvent)
        ensures
            final(self).own_lease == old(self).own_lease,
            final(self).leases@ == with_lease(old(self).leases@, *lease),
            r == put(*lease),
    {
        match find_subnet(&self.leases, lease.subnet) {
            Some(i) => {
                self.leases[i] = lease.clone();
            },
            None => {
                self.leases.push(lease.clone());
            },
        }
        LeaseWatchEvent { event_type: EventType::Put, lease: lease.clone() }
    }

    /// Forgets a lease that was removed.
    pub fn remove(&mut self, lease: &Lease) -> (r: LeaseWatchEvent)
        ensures
            final(self).own_lease == old(self).own_lease,
            final(self).leases@ == without_subnet(old(self).leases@, lease.subnet),
            r == removal(old(self).leases@, *lease),
    {
        match find_subnet(&self.leases, lease.subnet) {
            Some(i) => LeaseWatchEvent {
                lease: self.leases.remove(i),
                event_type: EventType::Delete,
            },
            None => LeaseWatchEvent { lease: lease.clone(), event_type: EventType::Delete },
        }
    }

    /// Applies what the registry reported: events where there are any, or else a snapshot.
    pub fn apply(&mut self, wr: &LeaseWatchResult) -> (r: Vec<LeaseWatchEvent>)
        ensures
            final(self).own_lease == old(self).own_lease,
            (final(self).leases@, r@) == applied(
                old(self).own_lease.subnet,
                old(self).leases@,
                *wr,
            ),
    {
        if wr.events.len() > 0 {
            self.update(wr.events.as_slice())
        } else if wr.snapshot.len() > 0 {
            self.reset(wr.snapshot.as_slice())
        } else {
            Vec::new()
        }
    }
}

impl<'a> LeaseWatcher<'a> {
    /// Applies what the registry reported. What is to be passed on of it: nothing where it comes to
    /// nothing.
    pub fn report(&mut self, wr: &LeaseWatchResult) -> (r: Option<Vec<LeaseWatchEvent>>)
        ensures
            final(self).own_lease == old(self).own_lease,
            ({
                let (leases, batch) = applied(
                    old(self).own_lease.subnet,
                    old(self).leases@,
                    *wr,
                );
                &&& final(self).leases@ == leases
                &&& r is None <==> batch.len() == 0
                &&& r matches Some(passed_on) ==> passed_on@ == batch
            }),
    {
        let batch = self.apply(wr);
        if batch.len() == 0 {
            None
        } else {
            Some(batch)
        }
    }
}

/// No two leases are of the same subnet.
pub open spec fn distinct(leases: Seq<Lease>) -> bool {
    forall|i: int, j: int|
        0 <= i < j < leases.len() ==> (#[trigger] leases[i]).subnet != (#[trigger] leases[j]).subnet
}

/// Whether a lease is of a subnet.
pub open spec fn covers(leases: Seq<Lease>, sn: Ipv4Network) -> bool {
    exists|i: int| 0 <= i < leases.len() && (#[trigger] leases[i]).subnet == sn
}

/// The subnets that one follows who started with some and heard the events.
pub open spec fn heard(start: Set<Ipv4Network>, events: Seq<LeaseWatchEvent>) -> Set<Ipv4Network>
    decreases events.len(),
{
    if events.len() == 0 {
        start
    } else {
        let before = heard(start, events.drop_last());
        match events.last().event_type {
            EventType::Put => before.insert(events.last().lease.subnet),
            EventType::Delete => before.remove(events.last().lease.subnet),
        }
    }
}

/// Whether one follows the subnets of all leases but the own.
pub open spec fn in_step(
    subnets: Set<Ipv4Network>,
    own: Ipv4Network,
    leases: Seq<Lease>,
) -> bool {
    forall|sn: Ipv4Network| #[trigger]
        subnets.contains(sn) <==> sn != own && covers(leases, sn)
}

/// A subnet's index is that of its first lease.
pub proof fn index_is_first(leases: Seq<Lease>, sn: Ipv4Network)
    ensures
        0 <= index_of_subnet(leases, sn) <= leases.len(),
        index_of_subnet(leases, sn) < leases.len() ==> leases[index_of_subnet(leases, sn)].subnet
            == sn,
        index_of_subnet(leases, sn) < leases.len() <==> covers(leases, sn),
        forall|i: int| 0 <= i < index_of_subnet(leases, sn) ==> (#[trigger] leases[i]).subnet != sn,
    decreases leases.len(),
{
    if leases.len() > 0 && leases[0].subnet != sn {
        let rest = leases.drop_first();
        index_is_first(rest, sn);
        let k = index_of_subnet(rest, sn);
        assert forall|i: int| 0 <= i < k + 1 implies (#[trigger] leases[i]).subnet != sn by {
            if i > 0 {
                assert(rest[i - 1].subnet != sn);
            }
        }
        if k < rest.len() {
            assert(leases[k + 1] == rest[k]);
            assert(covers(leases, sn));
        }
        if covers(leases, sn) {
            let i = choose|i: int| 0 <= i < leases.len() && (#[trigger] leases[i]).subnet == sn;
            assert(rest[i - 1].subnet == sn);
        }
    } else if leases.len() > 0 {
        assert(covers(leases, sn));
    }
}

/// After a lease was written, its subnet is covered and the others are as before. No subnet gets
/// a second lease.
pub proof fn written_lease_is_known(leases: Seq<Lease>, lease: Lease)
    ensures
        with_lease(leases, lease).contains(lease),
        forall|sn: Ipv4Network| #[trigger]
            covers(with_lease(leases, lease), sn) <==> sn == lease.subnet || covers(leases, sn),
        distinct(leases) ==> distinct(with_lease(leases, lease)),
{
    let sn = lease.subnet;
    let i = index_of_subnet(leases, sn);
    let after = with_lease(leases, lease);
    index_is_first(leases, sn);
    if i < leases.len() {
        assert(after[i] == lease);
    } else {
        assert(after[after.len() - 1] == lease);
    }
    assert forall|other: Ipv4Network| #[trigger] covers(after, other) <==> other == sn || covers(
        leases,
        other,
    ) by {
        if covers(after, other) {
            let k = choose|k: int| 0 <= k < after.len() && (#[trigger] after[k]).subnet == other;
            if other != sn {
                assert(leases[k].subnet == other);
            }
        }
        if covers(leases, other) {
            let k = choose|k: int| 0 <= k < leases.len() && (#[trigger] leases[k]).subnet == other;
            assert(after[k].subnet == other);
        }
        if other == sn {
            let k = if i < leases.len() {
                i
            } else {
                after.len() - 1
            };
            assert(after[k].subnet == sn);
        }
    }
    if distinct(leases) {
        assert forall|a: int, b: int| 0 <= a < b < after.len() implies (#[trigger] after[a]).subnet
            != (#[trigger] after[b]).subnet by {
            if i < leases.len() {
                assert(after[a].subnet == leases[a].subnet);
                assert(after[b].subnet == leases[b].subnet);
            } else if b == leases.len() {
                assert(leases[a].subnet != sn);
            }
        }
    }
}

/// After a lease was removed, its subnet is no longer covered and the others are as before.
pub proof fn removed_lease_is_forgotten(leases: Seq<Lease>, gone: Ipv4Network)
    requires
        distinct(leases),
    ensures
        distinct(without_subnet(leases, gone)),
        forall|sn: Ipv4Network| #[trigger]
            covers(without_subnet(leases, gone), sn) <==> sn != gone && covers(leases, sn),
{
    let i = index_of_subnet(leases, gone);
    let after = without_subnet(leases, gone);
    index_is_first(leases, gone);
    assert forall|sn: Ipv4Network| #[trigger] covers(after, sn) <==> sn != gone && covers(
        leases,
        sn,
    ) by {
        if covers(after, sn) {
            let k = choose|k: int| 0 <= k < after.len() && (#[trigger] after[k]).subnet == sn;
            let j = if i < leases.len() && k >= i {
                k + 1
            } else {
                k
            };
            assert(leases[j].subnet == sn);
            if i < leases.len() && sn == gone {
                assert(leases[i].subnet == leases[j].subnet);
            }
        }
        if sn != gone && covers(leases, sn) {
            let k = choose|k: int| 0 <= k < leases.len() && (#[trigger] leases[k]).subnet == sn;
            let j = if i < leases.len() && k > i {
                k - 1
            } else {
                k
            };
            assert(after[j].subnet == sn);
        }
    }
    assert forall|a: int, b: int| 0 <= a < b < after.len() implies (#[trigger] after[a]).subnet != (
    #[trigger] after[b]).subnet by {
        if i < leases.len() {
            let a0 = if a >= i {
                a + 1
            } else {
                a
            };
            let b0 = if b >= i {
                b + 1
            } else {
                b
            };
            assert(after[a] == leases[a0]);
            assert(after[b] == leases[b0]);
        }
    }
}

/// Whoever follows the leases and hears what `update` reports stays in step with the watcher, and
/// no subnet gets a second lease.
pub proof fn update_keeps_in_step(
    own: Ipv4Network,
    known: Seq<Lease>,
    events: Seq<LeaseWatchEvent>,
    subnets: Set<Ipv4Network>,
)
    requires
        distinct(known),
        in_step(subnets, own, known),
    ensures
        distinct(followed(own, known, events).0),
        in_step(heard(subnets, followed(own, known, events).1), own, followed(own, known, events).0),
    decreases events.len(),
{
    if events.len() > 0 {
        let (leases, batch) = followed(own, known, events.drop_last());
        let e = events.last();
        update_keeps_in_step(own, known, events.drop_last(), subnets);
        if e.lease.subnet != own {
            written_lease_is_known(leases, e.lease);
            removed_lease_is_forgotten(leases, e.lease.subnet);
            index_is_first(leases, e.lease.subnet);
            match e.event_type {
                EventType::Put => {
                    assert(batch.push(put(e.lease)).drop_last() =~= batch);
                },
                EventType::Delete => {
                    assert(batch.push(removal(leases, e.lease)).drop_last() =~= batch);
                },
            }
        }
    }
}

/// One more lease covers one more subnet.
proof fn covers_step(leases: Seq<Lease>, sn: Ipv4Network)
    requires
        leases.len() > 0,
    ensures
        covers(leases, sn) <==> sn == leases.last().subnet || covers(leases.drop_last(), sn),
{
    let rest = leases.drop_last();
    if covers(rest, sn) {
        let k = choose|k: int| 0 <= k < rest.len() && (#[trigger] rest[k]).subnet == sn;
        assert(leases[k].subnet == sn);
    }
    if sn == leases.last().subnet {
        assert(leases[leases.len() - 1].subnet == sn);
    }
    if covers(leases, sn) && sn != leases.last().subnet {
        let k = choose|k: int| 0 <= k < leases.len() && (#[trigger] leases[k]).subnet == sn;
        assert(rest[k].subnet == sn);
    }
}

/// What is left of the known leases, and what was heard, after a part of a snapshot.
proof fn compared_so_far(
    own: Ipv4Network,
    known: Seq<Lease>,
    snapshot: Seq<Lease>,
    subnets: Set<Ipv4Network>,
)
    requires
        distinct(known),
        in_step(subnets, own, known),
    ensures
        distinct(compared(own, known, snapshot).0),
        forall|sn: Ipv4Network| #[trigger]
            covers(compared(own, known, snapshot).0, sn) <==> covers(known, sn) && (sn == own
                || !covers(snapshot, sn)),
        forall|sn: Ipv4Network| #[trigger]
            heard(subnets, compared(own, known, snapshot).1).contains(sn) <==> subnets.contains(sn)
                || (sn != own && covers(snapshot, sn)),
    decreases snapshot.len(),
{
    let (after_left, after_batch) = compared(own, known, snapshot);
    if snapshot.len() > 0 {
        let before = snapshot.drop_last();
        let (left, batch) = compared(own, known, before);
        let lease = snapshot.last();
        compared_so_far(own, known, before, subnets);
        index_is_first(left, lease.subnet);
        removed_lease_is_forgotten(left, lease.subnet);
        assert(batch.push(put(lease)).drop_last() =~= batch);
        assert forall|sn: Ipv4Network| #[trigger] covers(after_left, sn) <==> covers(known, sn) && (
        sn == own || !covers(snapshot, sn)) by {
            covers_step(snapshot, sn);
            assert(covers(left, sn) <==> covers(known, sn) && (sn == own || !covers(before, sn)));
        }
        assert forall|sn: Ipv4Network| #[trigger]
            heard(subnets, after_batch).contains(sn) <==> subnets.contains(sn) || (sn != own
                && covers(snapshot, sn)) by {
            covers_step(snapshot, sn);
            assert(heard(subnets, batch).contains(sn) <==> subnets.contains(sn) || (sn != own
                && covers(before, sn)));
            assert(covers(left, sn) <==> covers(known, sn) && (sn == own || !covers(before, sn)));
            assert(subnets.contains(sn) <==> sn != own && covers(known, sn));
        }
    }
}

/// Hearing that leases are gone takes their subnets away.
proof fn heard_deletions(
    start: Set<Ipv4Network>,
    batch: Seq<LeaseWatchEvent>,
    left: Seq<Lease>,
)
    ensures
        forall|sn: Ipv4Network| #[trigger]
            heard(start, batch + deletions(left)).contains(sn) <==> heard(start, batch).contains(sn)
                && !covers(left, sn),
    decreases left.len(),
{
    if left.len() == 0 {
        assert(batch + deletions(left) =~= batch);
    } else {
        let rest = left.drop_last();
        let all = batch + deletions(left);
        heard_deletions(start, batch, rest);
        assert(all.drop_last() =~= batch + deletions(rest));
        assert(all.last() == delete(left.last()));
        assert forall|sn: Ipv4Network| #[trigger]
            heard(start, all).contains(sn) <==> heard(start, batch).contains(sn) && !covers(
            left,
            sn,
        ) by {
            covers_step(left, sn);
            assert(heard(start, batch + deletions(rest)).contains(sn) <==> heard(
                start,
                batch,
            ).contains(sn) && !covers(rest, sn));
        }
    }
}

/// Whoever follows the leases and hears what `reset` reports is in step with the snapshot.
pub proof fn reset_keeps_in_step(
    own: Ipv4Network,
    known: Seq<Lease>,
    snapshot: Seq<Lease>,
    subnets: Set<Ipv4Network>,
)
    requires
        distinct(known),
        in_step(subnets, own, known),
    ensures
        ({
            let (left, batch) = compared(own, known, snapshot);
            in_step(heard(subnets, batch + deletions(left)), own, snapshot)
        }),
{
    let (left, batch) = compared(own, known, snapshot);
    compared_so_far(own, known, snapshot, subnets);
    heard_deletions(subnets, batch, left);
}

/// Whether an event is of a subnet.
pub open spec fn names(events: Seq<LeaseWatchEvent>, sn: Ipv4Network) -> bool {
    exists|i: int| 0 <= i < events.len() && (#[trigger] events[i]).lease.subnet == sn
}

/// Of the own subnet `update` reports nothing.
pub proof fn updates_do_not_name_the_own_subnet(
    own: Ipv4Network,
    known: Seq<Lease>,
    events: Seq<LeaseWatchEvent>,
)
    ensures
        !names(followed(own, known, events).1, own),
    decreases events.len(),
{
    if events.len() > 0 {
        let (leases, batch) = followed(own, known, events.drop_last());
        let after = followed(own, known, events).1;
        let e = events.last();
        updates_do_not_name_the_own_subnet(own, known, events.drop_last());
        index_is_first(leases, e.lease.subnet);
        assert forall|i: int| 0 <= i < after.len() implies (#[trigger] after[i]).lease.subnet
            != own by {
            if i < batch.len() {
                assert(after[i] == batch[i]);
            }
        }
    }
}

/// Of the own subnet the first `reset` reports nothing.
pub proof fn first_snapshot_does_not_name_the_own_subnet(own: Ipv4Network, snapshot: Seq<Lease>)
    ensures
        ({
            let (left, batch) = compared(own, Seq::empty(), snapshot);
            !names(batch + deletions(left), own)
        }),
    decreases snapshot.len(),
{
    let (left, batch) = compared(own, Seq::empty(), snapshot);
    nothing_is_left_of_nothing(own, snapshot);
    assert(batch + deletions(left) =~= batch);
    if snapshot.len() > 0 {
        let (left0, batch0) = compared(own, Seq::empty(), snapshot.drop_last());
        first_snapshot_does_not_name_the_own_subnet(own, snapshot.drop_last());
        nothing_is_left_of_nothing(own, snapshot.drop_last());
        assert(batch0 + deletions(left0) =~= batch0);
        assert forall|i: int| 0 <= i < batch.len() implies (#[trigger] batch[i]).lease.subnet
            != own by {
            if i < batch0.len() {
                assert(batch[i] == batch0[i]);
            }
        }
    }
}

/// Where no lease is known, none is missing from a snapshot.
proof fn nothing_is_left_of_nothing(own: Ipv4Network, snapshot: Seq<Lease>)
    ensures
        compared(own, Seq::empty(), snapshot).0 == Seq::<Lease>::empty(),
    decreases snapshot.len(),
{
    if snapshot.len() > 0 {
        nothing_is_left_of_nothing(own, snapshot.drop_last());
    }
}

/// The leases of a snapshot that are neither known nor the own, as events.
pub open spec fn news(own: Ipv4Network, known: Seq<Lease>, snapshot: Seq<Lease>) -> Seq<
    LeaseWatchEvent,
> {
    snapshot.filter(|l: Lease| l.subnet != own && !covers(known, l.subnet)).map_values(
        |l: Lease| put(l),
    )
}

/// The known leases that a snapshot does not cover.
pub open spec fn missing(known: Seq<Lease>, snapshot: Seq<Lease>) -> Seq<Lease> {
    known.filter(|l: Lease| !covers(snapshot, l.subnet))
}

/// A filter depends on what it says of the items alone.
proof fn filters_agree(s: Seq<Lease>, p: spec_fn(Lease) -> bool, q: spec_fn(Lease) -> bool)
    requires
        forall|i: int| 0 <= i < s.len() ==> p(#[trigger] s[i]) == q(s[i]),
    ensures
        s.filter(p) == s.filter(q),
    decreases s.len(),
{
    reveal(Seq::filter);
    if s.len() > 0 {
        let rest = s.drop_last();
        assert forall|i: int| 0 <= i < rest.len() implies p(#[trigger] rest[i]) == q(rest[i]) by {
            assert(rest[i] == s[i]);
        }
        assert(p(s[s.len() - 1]) == q(s[s.len() - 1]));
        filters_agree(rest, p, q);
    }
}

/// A filter after a filter keeps what both of them keep.
proof fn filters_combine(s: Seq<Lease>, p: spec_fn(Lease) -> bool, q: spec_fn(Lease) -> bool)
    ensures
        s.filter(p).filter(q) == s.filter(|l: Lease| p(l) && q(l)),
    decreases s.len(),
{
    reveal(Seq::filter);
    if s.len() > 0 {
        let before = s.drop_last().filter(p);
        filters_combine(s.drop_last(), p, q);
        assert(before.push(s.last()).drop_last() =~= before);
    }
}

/// To remove the only lease of a subnet is to keep those of the other subnets.
proof fn removal_is_a_filter(leases: Seq<Lease>, sn: Ipv4Network)
    requires
        distinct(leases),
    ensures
        without_subnet(leases, sn) == leases.filter(|l: Lease| l.subnet != sn),
    decreases leases.len(),
{
    reveal(Seq::filter);
    index_is_first(leases, sn);
    if leases.len() > 0 {
        let rest = leases.drop_last();
        let i = index_of_subnet(leases, sn);
        let j = index_of_subnet(rest, sn);
        assert forall|a: int, b: int| 0 <= a < b < rest.len() implies (#[trigger] rest[a]).subnet
            != (#[trigger] rest[b]).subnet by {
            assert(leases[a].subnet != leases[b].subnet);
        }
        removal_is_a_filter(rest, sn);
        index_is_first(rest, sn);
        if j < rest.len() {
            assert(leases[j].subnet == sn);
            assert(leases[j].subnet != leases[leases.len() - 1].subnet);
            if i < j {
                assert(rest[i].subnet != sn);
            }
            assert(i == j);
            assert(leases.remove(i) =~= rest.remove(j).push(leases.last()));
        } else if leases.last().subnet == sn {
            if i < rest.len() {
                assert(rest[i].subnet != sn);
            }
            assert(i == rest.len());
            assert(leases.remove(i) =~= rest);
        } else {
            if i < rest.len() {
                assert(rest[i].subnet != sn);
            }
            assert(rest.push(leases.last()) =~= leases);
        }
    }
}

/// Of leases with distinct subnets, none of the known ones the own, `reset` reports the new ones
/// other than the own in their order, and then the missing ones in theirs.
pub proof fn reset_reports_news_and_losses(
    own: Ipv4Network,
    known: Seq<Lease>,
    snapshot: Seq<Lease>,
)
    requires
        distinct(known),
        distinct(snapshot),
        !covers(known, own),
    ensures
        compared(own, known, snapshot).0 == missing(known, snapshot),
        compared(own, known, snapshot).1 == news(own, known, snapshot),
    decreases snapshot.len(),
{
    reveal(Seq::filter);
    if snapshot.len() == 0 {
        filters_agree(known, |l: Lease| !covers(snapshot, l.subnet), |l: Lease| true);
        everything_is_kept(known);
        assert(news(own, known, snapshot) =~= Seq::<LeaseWatchEvent>::empty());
    } else {
        let before = snapshot.drop_last();
        let lease = snapshot.last();
        let sn = lease.subnet;
        let (left, batch) = compared(own, known, before);
        let p = |l: Lease| !covers(before, l.subnet);
        let q = |l: Lease| l.subnet != sn;
        let both = |l: Lease| p(l) && q(l);
        let gone = |l: Lease| !covers(snapshot, l.subnet);
        let subnets = Set::new(|n: Ipv4Network| n != own && covers(known, n));
        assert forall|a: int, b: int| 0 <= a < b < before.len() implies (
        #[trigger] before[a]).subnet != (#[trigger] before[b]).subnet by {
            assert(snapshot[a].subnet != snapshot[b].subnet);
        }
        reset_reports_news_and_losses(own, known, before);
        compared_so_far(own, known, before, subnets);
        // No earlier lease of the snapshot is of the subnet.
        assert(!covers(before, sn)) by {
            if covers(before, sn) {
                let k = choose|k: int| 0 <= k < before.len() && (#[trigger] before[k]).subnet == sn;
                assert(snapshot[k].subnet != snapshot[snapshot.len() - 1].subnet);
            }
        }
        assert(covers(left, sn) <==> covers(known, sn));
        // What is left.
        filters_combine(known, p, q);
        assert forall|i: int| 0 <= i < known.len() implies both(#[trigger] known[i]) == gone(
            known[i],
        ) by {
            covers_step(snapshot, known[i].subnet);
        }
        filters_agree(known, both, gone);
        removal_is_a_filter(left, sn);
        index_is_first(left, sn);
        assert(compared(own, known, snapshot).0 == without_subnet(left, sn));
        // What is new.
        let fresh = |l: Lease| l.subnet != own && !covers(known, l.subnet);
        let found = before.filter(fresh);
        assert(found.push(lease).map_values(|l: Lease| put(l)) =~= found.map_values(
            |l: Lease| put(l),
        ).push(put(lease)));
    }
}

/// A filter that refuses nothing keeps everything.
proof fn everything_is_kept(s: Seq<Lease>)
    ensures
        s.filter(|l: Lease| true) == s,
    decreases s.len(),
{
    reveal(Seq::filter);
    if s.len() > 0 {
        everything_is_kept(s.drop_last());
        assert(s.drop_last().push(s.last()) =~= s);
    }
}

/// The leases that a watcher knows which knew none before some reports of the registry, and the
/// batches that it passed on.
pub open spec fn passed_on(own: Ipv4Network, results: Seq<LeaseWatchResult>) -> (
    Seq<Lease>,
    Seq<Seq<LeaseWatchEvent>>,
)
    decreases results.len(),
{
    if results.len() == 0 {
        (Seq::empty(), Seq::empty())
    } else {
        let (known, sent) = passed_on(own, results.drop_last());
        let (leases, batch) = applied(own, known, results.last());
        if batch.len() > 0 {
            (leases, sent.push(batch))
        } else {
            (leases, sent)
        }
    }
}

/// Where the registry reports a snapshot at most at first, and after that events, every batch that
/// is passed on holds an event, and none an event of the own subnet.
pub proof fn batches_hold_events_of_others(own: Ipv4Network, results: Seq<LeaseWatchResult>)
    requires
        forall|i: int|
            0 < i < results.len() ==> (#[trigger] results[i]).events@.len() > 0
                || results[i].snapshot@.len() == 0,
    ensures
        forall|k: int|
            0 <= k < passed_on(own, results).1.len() ==> (#[trigger] passed_on(
                own,
                results,
            ).1[k]).len() > 0 && !names(passed_on(own, results).1[k], own),
    decreases results.len(),
{
    if results.len() > 0 {
        let before = results.drop_last();
        let wr = results.last();
        let (known, sent) = passed_on(own, before);
        let (leases, batch) = applied(own, known, wr);
        assert(results[results.len() - 1] == wr);
        assert forall|i: int| 0 < i < before.len() implies (#[trigger] before[i]).events@.len() > 0
            || before[i].snapshot@.len() == 0 by {
            assert(before[i] == results[i]);
        }
        batches_hold_events_of_others(own, before);
        if wr.events@.len() > 0 {
            updates_do_not_name_the_own_subnet(own, known, wr.events@);
        } else if wr.snapshot@.len() > 0 {
            assert(known == Seq::<Lease>::empty());
            first_snapshot_does_not_name_the_own_subnet(own, wr.snapshot@);
        }
        let after = passed_on(own, results).1;
        assert forall|k: int| 0 <= k < after.len() implies (#[trigger] after[k]).len() > 0
            && !names(after[k], own) by {
            if k < sent.len() {
                assert(after[k] == sent[k]);
            }
        }
    }
}

/// Of every event of another subnet than the own there is one report, in order, of the same kind and
/// subnet; a written lease is reported with all that it holds.
pub proof fn events_are_reported_as_they_came(
    own: Ipv4Network,
    known: Seq<Lease>,
    events: Seq<LeaseWatchEvent>,
)
    ensures
        ({
            let others = events.filter(|e: LeaseWatchEvent| e.lease.subnet != own);
            let r = followed(own, known, events).1;
            &&& r.len() == others.len()
            &&& forall|i: int|
                0 <= i < r.len() ==> (#[trigger] r[i]).event_type == others[i].event_type
                    && r[i].lease.subnet == others[i].lease.subnet
            &&& forall|i: int|
                0 <= i < r.len() && (#[trigger] r[i]).event_type == EventType::Put ==> r[i].lease
                    == others[i].lease
        }),
    decreases events.len(),
{
    reveal(Seq::filter);
    if events.len() > 0 {
        let before = events.drop_last();
        let keep = |e: LeaseWatchEvent| e.lease.subnet != own;
        let others0 = before.filter(keep);
        let (leases, r0) = followed(own, known, before);
        let others = events.filter(keep);
        let r = followed(own, known, events).1;
        events_are_reported_as_they_came(own, known, before);
        index_is_first(leases, events.last().lease.subnet);
        assert forall|i: int| 0 <= i < r.len() implies (#[trigger] r[i]).event_type
            == others[i].event_type && r[i].lease.subnet == others[i].lease.subnet && (
        r[i].event_type == EventType::Put ==> r[i].lease == others[i].lease) by {
            if i < r0.len() {
                assert(r[i] == r0[i] && others[i] == others0[i]);
            }
        }
    }
}

/// A removed lease is reported as it was known, and as the registry reported it where it was not.
pub proof fn removed_lease_is_reported_as_known(
    own: Ipv4Network,
    known: Seq<Lease>,
    events: Seq<LeaseWatchEvent>,
    e: LeaseWatchEvent,
    l: Lease,
)
    requires
        e.event_type == EventType::Delete,
        e.lease.subnet != own,
        distinct(followed(own, known, events).0),
    ensures
        ({
            let before = followed(own, known, events).0;
            let r = followed(own, known, events.push(e)).1.last();
            &&& r.event_type == EventType::Delete
            &&& before.contains(l) && l.subnet == e.lease.subnet ==> r.lease == l
            &&& (forall|i: int|
                0 <= i < before.len() ==> (#[trigger] before[i]).subnet != e.lease.subnet)
                ==> r.lease == e.lease
        }),
{
    let before = followed(own, known, events).0;
    assert(events.push(e).drop_last() =~= events);
    index_is_first(before, e.lease.subnet);
    if before.contains(l) && l.subnet == e.lease.subnet {
        let i = before.index_of(l);
        let k = index_of_subnet(before, e.lease.subnet);
        assert(before[i].subnet == e.lease.subnet);
        assert(k < before.len());
        if i != k {
            assert(before[i].subnet != before[k].subnet);
        }
    }
}

/// After a written lease exactly that lease is known of its subnet, and after a removed one none; what
/// is known of other subnets stays, and events of the own subnet change nothing.
pub proof fn known_leases_after_an_event(
    own: Ipv4Network,
    known: Seq<Lease>,
    events: Seq<LeaseWatchEvent>,
    e: LeaseWatchEvent,
    l: Lease,
)
    requires
        distinct(followed(own, known, events).0),
    ensures
        ({
            let before = followed(own, known, events).0;
            let after = followed(own, known, events.push(e)).0;
            &&& e.lease.subnet == own ==> after == before
            &&& e.lease.subnet != own && e.event_type == EventType::Put ==> (after.contains(l) <==> l
                == e.lease || (before.contains(l) && l.subnet != e.lease.subnet))
            &&& e.lease.subnet != own && e.event_type == EventType::Delete ==> (after.contains(l)
                <==> before.contains(l) && l.subnet != e.lease.subnet)
        }),
{
    let before = followed(own, known, events).0;
    let after = followed(own, known, events.push(e)).0;
    let sn = e.lease.subnet;
    let k = index_of_subnet(before, sn);
    assert(events.push(e).drop_last() =~= events);
    index_is_first(before, sn);
    if sn != own && e.event_type == EventType::Put {
        if after.contains(l) && l != e.lease {
            let i = after.index_of(l);
            assert(before[i] == l);
            if k < before.len() && l.subnet == sn {
                assert(before[i].subnet != before[k].subnet);
            }
        }
        if before.contains(l) && l.subnet != sn {
            let i = before.index_of(l);
            assert(after[i] == l);
        }
        let at = if k < before.len() {
            k
        } else {
            before.len() as int
        };
        assert(after[at] == e.lease);
    }
    if sn != own && e.event_type == EventType::Delete {
        if after.contains(l) {
            let i = after.index_of(l);
            let j = if k < before.len() && i >= k {
                i + 1
            } else {
                i
            };
            assert(before[j] == l);
            if k < before.len() && l.subnet == sn {
                assert(before[j].subnet != before[k].subnet);
            }
        }
        if before.contains(l) && l.subnet != sn {
            let i = before.index_of(l);
            let j = if k < before.len() && i > k {
                i - 1
            } else {
                i
            };
            assert(after[j] == l);
        }
    }
}

/// A snapshot is reported by the leases that it adds, other than the own, and by the known ones that
/// it lacks, each with all that it holds, and by nothing else.
pub proof fn reset_reports_what_the_snapshot_changes(
    own: Ipv4Network,
    known: Seq<Lease>,
    snapshot: Seq<Lease>,
    e: LeaseWatchEvent,
)
    requires
        distinct(known),
        distinct(snapshot),
        forall|i: int| 0 <= i < known.len() ==> (#[trigger] known[i]).subnet != own,
    ensures
        ({
            let (left, batch) = compared(own, known, snapshot);
            (batch + deletions(left)).contains(e) <==> {
                ||| e.event_type == EventType::Put && e.lease.subnet != own && snapshot.contains(
                    e.lease,
                ) && forall|i: int|
                    0 <= i < known.len() ==> (#[trigger] known[i]).subnet != e.lease.subnet
                ||| e.event_type == EventType::Delete && known.contains(e.lease) && forall|i: int|
                    0 <= i < snapshot.len() ==> (#[trigger] snapshot[i]).subnet != e.lease.subnet
            }
        }),
{
    let (left, batch) = compared(own, known, snapshot);
    let fresh = |l: Lease| l.subnet != own && !covers(known, l.subnet);
    let gone = |l: Lease| !covers(snapshot, l.subnet);
    let found = snapshot.filter(fresh);
    let report = batch + deletions(left);
    reset_reports_news_and_losses(own, known, snapshot);
    if report.contains(e) {
        let k = report.index_of(e);
        if k < batch.len() {
            assert(batch[k] == put(found[k]));
            snapshot.lemma_filter_pred(fresh, k);
            snapshot.lemma_filter_contains_rev(fresh, found[k]);
        } else {
            let j = k - batch.len();
            assert(deletions(left)[j] == delete(left[j]));
            known.lemma_filter_pred(gone, j);
            known.lemma_filter_contains_rev(gone, left[j]);
        }
    }
    if e.event_type == EventType::Put && e.lease.subnet != own && snapshot.contains(e.lease) && (
    forall|i: int| 0 <= i < known.len() ==> (#[trigger] known[i]).subnet != e.lease.subnet) {
        let i = snapshot.index_of(e.lease);
        assert(fresh(snapshot[i]));
        snapshot.lemma_filter_contains(fresh, i);
        let k = found.index_of(e.lease);
        assert(batch[k] == put(found[k]));
        assert(report[k] == e);
    }
    if e.event_type == EventType::Delete && known.contains(e.lease) && (forall|i: int|
        0 <= i < snapshot.len() ==> (#[trigger] snapshot[i]).subnet != e.lease.subnet) {
        let i = known.index_of(e.lease);
        assert(gone(known[i]));
        known.lemma_filter_contains(gone, i);
        let k = left.index_of(e.lease);
        assert(deletions(left)[k] == delete(left[k]));
        assert(report[batch.len() + k] == e);
    }
}

/// Without events, a snapshot takes the place of the known leases; without either nothing changes and
/// nothing is reported.
pub proof fn snapshots_replace_what_is_known(
    own: Ipv4Network,
    known: Seq<Lease>,
    wr: LeaseWatchResult,
)
    ensures
        wr.events@.len() == 0 && wr.snapshot@.len() > 0 ==> applied(own, known, wr).0
            == wr.snapshot@,
        wr.events@.len() == 0 && wr.snapshot@.len() == 0 ==> applied(own, known, wr).0 == known
            && applied(own, known, wr).1.len() == 0,
        wr.events@.len() > 0 ==> applied(own, known, wr) == followed(own, known, wr.events@),
{
}

}
