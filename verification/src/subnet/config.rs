//! The network configuration.
use vstd::prelude::*;

use crate::addr::{Ipv4Addr, Ipv4Network, Ipv6Addr, Ipv6Network};
use crate::error::FlannelError;

verus! {

/// The configuration that all hosts of a flannel network share.
#[derive(Debug)]
pub struct Config {
    pub enable_ipv4: bool,
    pub enable_ipv6: bool,
    pub network: Option<Ipv4Network>,
    pub ipv6_network: Option<Ipv6Network>,
    pub subnet_min: Option<Ipv4Addr>,
    pub subnet_max: Option<Ipv4Addr>,
    pub ipv6_subnet_min: Option<Ipv6Addr>,
    pub ipv6_subnet_max: Option<Ipv6Addr>,
    pub subnet_len: u8,
    pub ipv6_subnet_len: u32,
    pub backend_type: Option<String>,
    pub backend: Option<serde_json::Value>,
}

impl Config {
    /// The IPv4 network that the hosts share.
    pub fn get_flannel_network(&self) -> (r: Result<Ipv4Network, FlannelError>)
        ensures
            match self.network {
                Some(n) => r == Ok::<Ipv4Network, FlannelError>(n),
                None => r == Err::<Ipv4Network, FlannelError>(FlannelError::NoFlannelNetwork),
            },
    {
        match self.network {
            Some(n) => Ok(n),
            None => Err(FlannelError::NoFlannelNetwork),
        }
    }
}

}
