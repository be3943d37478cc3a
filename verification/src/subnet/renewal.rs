//! Renewing the own lease in time.
use vstd::prelude::*;

use crate::addr::Ipv4Network;
use crate::error::FlannelError;
use crate::etcd::events::{EventType, LeaseWatchEvent};
use crate::etcd::key::subnet_key_text;
use crate::etcd::registry::SubnetWrite;
use crate::lease::Lease;
use crate::subnet::manager::{SubnetManager, SUBNET_TTL};
use crate::time::SystemTime;

verus! {

/// How long to wait after a failed renewal, in nanoseconds.
pub const RETRY_NANOS: u128 = 3_000_000_000;

pub const NANOS_PER_MINUTE: u128 = 60_000_000_000;

/// The own lease, and how long to wait before it is renewed.
#[derive(Debug)]
pub struct LeaseRenewal {
    pub lease: Lease,
    /// How long before its end the lease is renewed, in minutes.
    pub margin: u32,
    /// How long to wait now, in nanoseconds.
    pub wait: u128,
}

/// How long to wait at `now` before a lease is renewed.
pub open spec fn renewal_wait(expiration: SystemTime, now: SystemTime, margin: u32) -> int {
    expiration.nanos - now.nanos - margin * NANOS_PER_MINUTE
}

/// Whether a lease either has expired, or will only after the margin.
pub open spec fn margin_fits(expiration: SystemTime, now: SystemTime, margin: u32) -> bool {
    expiration.nanos >= now.nanos ==> 0 <= renewal_wait(expiration, now, margin) <= u128::MAX
}

/// Whether a lease either has expired, or will only after the margin.
pub fn has_margin(expiration: SystemTime, now: SystemTime, margin: u32) -> (r: bool)
    ensures
        r == margin_fits(expiration, now, margin),
{
    if expiration.nanos < now.nanos {
        return true;
    }
    let margin_nanos = margin as u128 * NANOS_PER_MINUTE;
    let left: u128 = distance(now.nanos, expiration.nanos);
    left >= margin_nanos
}

/// How far apart two times are.
fn distance(from: i128, to: i128) -> (r: u128)
    requires
        from <= to,
    ensures
        r == to - from,
{
    if (from < 0) == (to < 0) {
        (to - from) as u128
    } else {
        // Counted from zero to both sides.
        let below = (-(from + 1)) as u128 + 1;
        to as u128 + below
    }
}

/// How long to wait before a lease is renewed.
pub fn wait_before_renewal(expiration: SystemTime, now: SystemTime, margin: u32) -> (r: Result<
    u128,
    FlannelError,
>)
    requires
        margin_fits(expiration, now, margin),
    ensures
        now.nanos > expiration.nanos ==> r == Err::<u128, FlannelError>(FlannelError::LeaseExpired),
        now.nanos <= expiration.nanos ==> r == Ok::<u128, FlannelError>(
            renewal_wait(expiration, now, margin) as u128,
        ),
{
    if now.nanos > expiration.nanos {
        return Err(FlannelError::LeaseExpired);
    }
    let left = distance(now.nanos, expiration.nanos);
    Ok(left - margin as u128 * NANOS_PER_MINUTE)
}

impl SubnetManager {
    /// The request to renew a lease.
    pub fn renew_lease(&self, lease: &Lease) -> (r: SubnetWrite)
        ensures
            r.key@ == subnet_key_text(self.registry.etcd_cfg.prefix@, lease.subnet),
            r.ttl == SUBNET_TTL && r.ttl == 86_400,
            !r.if_absent,
    {
        self.registry.update_request(lease.subnet, SUBNET_TTL)
    }
}

impl LeaseRenewal {
    /// Begins to renew a lease.
    pub fn start(lease: Lease, margin: u32, now: SystemTime) -> (r: Result<Self, FlannelError>)
        requires
            margin_fits(lease.expiration, now, margin),
        ensures
            now.nanos > lease.expiration.nanos ==> r == Err::<Self, FlannelError>(
                FlannelError::LeaseExpired,
            ),
            now.nanos <= lease.expiration.nanos ==> r == Ok::<Self, FlannelError>(
                (LeaseRenewal {
                    lease,
                    margin,
                    wait: renewal_wait(lease.expiration, now, margin) as u128,
                }),
            ),
    {
        match wait_before_renewal(lease.expiration, now, margin) {
            Ok(wait) => Ok(LeaseRenewal { lease, margin, wait }),
            Err(e) => Err(e),
        }
    }

    /// The registry refused to renew the lease: it is asked again soon.
    pub fn renew_failed(&mut self)
        ensures
            *final(self) == (LeaseRenewal { wait: RETRY_NANOS, ..*old(self) }),
            final(self).wait == 3_000_000_000,
    {
        self.wait = RETRY_NANOS;
    }

    /// The registry renewed the lease.
    pub fn renewed(&mut self, expiration: SystemTime, now: SystemTime) -> (r: Result<
        (),
        FlannelError,
    >)
        requires
            margin_fits(expiration, now, old(self).margin),
        ensures
            final(self).lease == (Lease { expiration, ..old(self).lease }),
            final(self).margin == old(self).margin,
            now.nanos > expiration.nanos ==> r == Err::<(), FlannelError>(
                FlannelError::LeaseExpired,
            ) && final(self).wait == old(self).wait,
            now.nanos <= expiration.nanos ==> r == Ok::<(), FlannelError>(()) && final(self).wait
                == renewal_wait(expiration, now, old(self).margin),
    {
        self.lease.expiration = expiration;
        match wait_before_renewal(expiration, now, self.margin) {
            Ok(wait) => {
                self.wait = wait;
                Ok(())
            },
            Err(e) => Err(e),
        }
    }

    /// Something happened to the lease in the registry: a new one takes its place, a removed one
    /// ends the task.
    pub fn watched(&mut self, event: LeaseWatchEvent, now: SystemTime) -> (r: Result<
        (),
        FlannelError,
    >)
        requires
            event.event_type == EventType::Put ==> margin_fits(
                event.lease.expiration,
                now,
                old(self).margin,
            ),
        ensures
            final(self).margin == old(self).margin,
            event.event_type == EventType::Delete ==> r == Err::<(), FlannelError>(
                FlannelError::LeaseDeleted,
            ) && *final(self) == *old(self),
            event.event_type == EventType::Put ==> final(self).lease == event.lease,
            event.event_type == EventType::Put && now.nanos > event.lease.expiration.nanos ==> r
                == Err::<(), FlannelError>(FlannelError::LeaseExpired) && final(self).wait == old(
                self,
            ).wait,
            event.event_type == EventType::Put && now.nanos <= event.lease.expiration.nanos ==> r
                == Ok::<(), FlannelError>(()) && final(self).wait == renewal_wait(
                event.lease.expiration,
                now,
                old(self).margin,
            ),
    {
        match event.event_type {
            EventType::Delete => Err(FlannelError::LeaseDeleted),
            EventType::Put => {
                let expiration = event.lease.expiration;
                self.lease = event.lease;
                match wait_before_renewal(expiration, now, self.margin) {
                    Ok(wait) => {
                        self.wait = wait;
                        Ok(())
                    },
                    Err(e) => Err(e),
                }
            },
        }
    }
}

/// What a watch on one subnet starts with: the lease as it stands, and the revision from which
/// the registry is asked to report.
pub fn watch_lease(sn: Ipv4Network, found: Option<(Lease, i64)>) -> (r: Result<
    (LeaseWatchEvent, i64),
    FlannelError,
>)
    ensures
        match found {
            Some((lease, revision)) => r == Ok::<(LeaseWatchEvent, i64), FlannelError>(
                ((LeaseWatchEvent { lease, event_type: EventType::Put }), revision),
            ),
            None => r == Err::<(LeaseWatchEvent, i64), FlannelError>(
                FlannelError::SubnetNotFound(sn),
            ),
        },
{
    match found {
        Some((lease, revision)) => Ok(
            (LeaseWatchEvent { lease, event_type: EventType::Put }, revision),
        ),
        None => Err(FlannelError::SubnetNotFound(sn)),
    }
}

/// A renewal that waits as long as it says wakes up the margin before the lease ends.
pub proof fn renewal_comes_in_time(expiration: SystemTime, now: SystemTime, margin: u32)
    requires
        now.nanos <= expiration.nanos,
        margin_fits(expiration, now, margin),
    ensures
        now.nanos + renewal_wait(expiration, now, margin) + margin * NANOS_PER_MINUTE
            == expiration.nanos,
        now.nanos <= now.nanos + renewal_wait(expiration, now, margin) <= expiration.nanos,
{
}

/// A lease is waited for until the margin, in minutes, before its end; there is a margin where the
/// lease has expired, or lasts at least that long.
pub proof fn renewal_waits_until_the_margin(expiration: SystemTime, now: SystemTime, margin: u32)
    ensures
        renewal_wait(expiration, now, margin) + margin * 60_000_000_000 == expiration.nanos
            - now.nanos,
        margin_fits(expiration, now, margin) <==> expiration.nanos < now.nanos || expiration.nanos
            - now.nanos >= margin * 60_000_000_000,
{
}

}
