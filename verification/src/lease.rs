//! Subnet leases.
use vstd::prelude::*;

use crate::addr::{Ipv4Addr, Ipv4Network, Ipv6Network};
use crate::time::SystemTime;

verus! {

/// A subnet that a host holds until it expires.
#[derive(Debug, PartialEq, Eq)]
pub struct Lease {
    pub enable_ipv4: bool,
    pub subnet: Ipv4Network,
    pub enable_ipv6: bool,
    pub ipv6_subnet: Option<Ipv6Network>,
    pub attrs: LeaseAttrs,
    pub expiration: SystemTime,
}

/// What a host tells the others along with its subnet.
#[derive(Debug, PartialEq, Eq)]
pub struct LeaseAttrs {
    pub public_ip: Ipv4Addr,
    pub public_ipv6: Option<Ipv6Network>,
    pub backend_type: Option<String>,
    /// What the backend adds, as JSON text.
    pub backend_data: Option<String>,
}

fn clone_text(text: &Option<String>) -> (r: Option<String>)
    ensures
        r == *text,
{
    match text {
        Some(t) => Some(t.clone()),
        None => None,
    }
}

impl Clone for LeaseAttrs {
    fn clone(&self) -> (r: Self)
        ensures
            r == *self,
    {
        LeaseAttrs {
            public_ip: self.public_ip,
            public_ipv6: self.public_ipv6,
            backend_type: clone_text(&self.backend_type),
            backend_data: clone_text(&self.backend_data),
        }
    }
}

impl Clone for Lease {
    fn clone(&self) -> (r: Self)
        ensures
            r == *self,
    {
        Lease {
            enable_ipv4: self.enable_ipv4,
            subnet: self.subnet,
            enable_ipv6: self.enable_ipv6,
            ipv6_subnet: self.ipv6_subnet,
            attrs: self.attrs.clone(),
            expiration: self.expiration,
        }
    }
}

impl LeaseAttrs {
    /// Attributes that tell nothing.
    pub open spec fn unset() -> Self {
        LeaseAttrs {
            public_ip: Ipv4Addr { bits: 0 },
            public_ipv6: None,
            backend_type: None,
            backend_data: None,
        }
    }
}

impl Default for LeaseAttrs {
    fn default() -> (r: Self)
        ensures
            r == Self::unset(),
    {
        LeaseAttrs {
            public_ip: Ipv4Addr { bits: 0 },
            public_ipv6: None,
            backend_type: None,
            backend_data: None,
        }
    }
}

impl Lease {
    /// A lease of no subnet that expires now.
    pub open spec fn unassigned(now: SystemTime) -> Self {
        Lease {
            enable_ipv4: false,
            subnet: Ipv4Network::of(Ipv4Addr { bits: 0 }, 0),
            enable_ipv6: false,
            ipv6_subnet: None,
            attrs: LeaseAttrs::unset(),
            expiration: now,
        }
    }

    /// A lease of no subnet that expires now.
    pub fn default_at(now: SystemTime) -> (r: Self)
        ensures
            r == Self::unassigned(now),
    {
        Lease {
            enable_ipv4: false,
            subnet: Ipv4Network::everything(),
            enable_ipv6: false,
            ipv6_subnet: None,
            attrs: LeaseAttrs::default(),
            expiration: now,
        }
    }
}

/// Attributes that tell nothing have the address 0.0.0.0 and no more; a lease of no subnet is of
/// 0.0.0.0/0, off for both families.
pub proof fn nothing_is_assigned_at_first(now: SystemTime)
    ensures
        ({
            let l = Lease::unassigned(now);
            &&& !l.enable_ipv4 && !l.enable_ipv6 && l.ipv6_subnet is None
            &&& l.subnet == Ipv4Network::of(Ipv4Addr { bits: 0 }, 0)
            &&& l.expiration == now
            &&& l.attrs == LeaseAttrs::unset()
            &&& l.attrs.public_ip.bits == 0 && l.attrs.public_ipv6 is None
            &&& l.attrs.backend_type is None && l.attrs.backend_data is None
        }),
{
}

}
