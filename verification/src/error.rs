//! What can go wrong.
use vstd::prelude::*;

use crate::addr::{cidr_text, Ipv4Network};

verus! {

/// The reasons for which the library refuses an input or ends a task.
#[derive(Debug, PartialEq, Eq)]
pub enum FlannelError {
    /// The configuration names no IPv4 network.
    MissingNetwork,
    /// Subnets would be longer than /30.
    SubnetLenTooLong,
    /// The network does not hold four subnets.
    TooFewSubnets,
    /// The network is longer than /28 and no subnet length is given.
    NetworkTooSmall,
    SubnetMinOutOfRange,
    SubnetMaxOutOfRange,
    SubnetMinUnaligned,
    SubnetMaxUnaligned,
    /// Every subnet of the range overlaps a lease.
    NoAvailableSubnets,
    /// A prefix length that the address family does not have.
    InvalidPrefix,
    /// A text that is no network in CIDR notation.
    InvalidNetwork,
    /// A registry key that names no subnet.
    InvalidSubnetKey,
    /// A backend asks for the network of a configuration without one.
    NoFlannelNetwork,
    /// The own lease was removed from the registry.
    LeaseDeleted,
    /// The own lease expired before the given time.
    LeaseExpired,
    /// The registry holds no lease for a subnet.
    SubnetNotFound(Ipv4Network),
    /// A watch event without a key and value.
    InvalidKv,
    /// A registry key or value that is not UTF-8.
    InvalidKey,
    /// A registry value that holds no lease attributes.
    InvalidAttrs,
    /// The registry failed while a subnet was being written.
    RegistryFailed,
    /// The subnet was already taken when the registry was asked to create it.
    TxnRefused,
    DefaultRouteWithoutInterface,
    NoDefaultGateway,
    /// An interface, by its name, without a usable address.
    NoValidAddress(String),
    LinkNotFound,
    /// No backend of that name, or no backend in the configuration.
    BackendNotDefined,
    /// The public address is not the interface's own.
    PublicIpDiffers,
    /// A packet shorter than an IPv4 header.
    PacketTooShort,
    /// A text that is no MAC address.
    InvalidMac,
}

impl FlannelError {
    /// The message for an operator.
    pub open spec fn text(self) -> Seq<char> {
        match self {
            FlannelError::MissingNetwork =>
                "please define a correct Network parameter in the flannel config"@,
            FlannelError::SubnetLenTooLong => "SubnetLen must be less than /31"@,
            FlannelError::TooFewSubnets =>
                "network must be able to accommodate at least four subnets"@,
            FlannelError::NetworkTooSmall =>
                "network is too small. Minimum useful network prefix is /28"@,
            FlannelError::SubnetMinOutOfRange => "SubnetMin is not in the network range"@,
            FlannelError::SubnetMaxOutOfRange => "SubnetMax is not in the network range"@,
            FlannelError::SubnetMinUnaligned => "SubnetMin is not aligned to SubnetLen"@,
            FlannelError::SubnetMaxUnaligned => "SubnetMax is not aligned to SubnetLen"@,
            FlannelError::NoAvailableSubnets => "no available subnets"@,
            FlannelError::InvalidPrefix => "invalid prefix"@,
            FlannelError::InvalidNetwork => "invalid network"@,
            FlannelError::InvalidSubnetKey => "invalid subnet"@,
            FlannelError::NoFlannelNetwork =>
                "could not find an ipv4 network in the flannel configuration"@,
            FlannelError::LeaseDeleted => "lease deleted"@,
            FlannelError::LeaseExpired => "second time provided was later than self"@,
            FlannelError::SubnetNotFound(sn) => "subnet "@ + cidr_text(sn.ip(), sn.prefix())
                + " not found"@,
            FlannelError::InvalidKv => "invalid kv"@,
            FlannelError::InvalidKey => "key is not a valid UTF-8 string"@,
            FlannelError::InvalidAttrs => "invalid lease attributes"@,
            FlannelError::RegistryFailed => "registry request failed"@,
            FlannelError::TxnRefused => "txn_resp is not succeeded"@,
            FlannelError::DefaultRouteWithoutInterface =>
                "Found default route but could not determine interface"@,
            FlannelError::NoDefaultGateway => "Could not find default gateway interface"@,
            FlannelError::NoValidAddress(name) => "Could not find any valid address on interface "@
                + name@,
            FlannelError::LinkNotFound => "link not found"@,
            FlannelError::BackendNotDefined => "backend is not defined"@,
            FlannelError::PublicIpDiffers =>
                "your PublicIP differs from interface IP, meaning that probably you're on a NAT, which is not supported by host-gw backend"@,
            FlannelError::PacketTooShort => "ip slice length should be at least 20 bytes"@,
            FlannelError::InvalidMac => "invalid mac address"@,
        }
    }

    /// The message for an operator.
    pub fn message(&self) -> (r: String)
        ensures
            r@ == self.text(),
    {
        match self {
            FlannelError::MissingNetwork =>
                "please define a correct Network parameter in the flannel config".to_owned(),
            FlannelError::SubnetLenTooLong => "SubnetLen must be less than /31".to_owned(),
            FlannelError::TooFewSubnets =>
                "network must be able to accommodate at least four subnets".to_owned(),
            FlannelError::NetworkTooSmall =>
                "network is too small. Minimum useful network prefix is /28".to_owned(),
            FlannelError::SubnetMinOutOfRange => "SubnetMin is not in the network range".to_owned(),
            FlannelError::SubnetMaxOutOfRange => "SubnetMax is not in the network range".to_owned(),
            FlannelError::SubnetMinUnaligned => "SubnetMin is not aligned to SubnetLen".to_owned(),
            FlannelError::SubnetMaxUnaligned => "SubnetMax is not aligned to SubnetLen".to_owned(),
            FlannelError::NoAvailableSubnets => "no available subnets".to_owned(),
            FlannelError::InvalidPrefix => "invalid prefix".to_owned(),
            FlannelError::InvalidNetwork => "invalid network".to_owned(),
            FlannelError::InvalidSubnetKey => "invalid subnet".to_owned(),
            FlannelError::NoFlannelNetwork =>
                "could not find an ipv4 network in the flannel configuration".to_owned(),
            FlannelError::LeaseDeleted => "lease deleted".to_owned(),
            FlannelError::LeaseExpired => "second time provided was later than self".to_owned(),
            FlannelError::SubnetNotFound(sn) => {
                let mut s = "subnet ".to_owned();
                s.append(sn.to_text().as_str());
                s.append(" not found");
                s
            },
            FlannelError::InvalidKv => "invalid kv".to_owned(),
            FlannelError::InvalidKey => "key is not a valid UTF-8 string".to_owned(),
            FlannelError::InvalidAttrs => "invalid lease attributes".to_owned(),
            FlannelError::RegistryFailed => "registry request failed".to_owned(),
            FlannelError::TxnRefused => "txn_resp is not succeeded".to_owned(),
            FlannelError::DefaultRouteWithoutInterface =>
                "Found default route but could not determine interface".to_owned(),
            FlannelError::NoDefaultGateway => "Could not find default gateway interface".to_owned(),
            FlannelError::NoValidAddress(name) => {
                let mut s = "Could not find any valid address on interface ".to_owned();
                s.append(name.as_str());
                s
            },
            FlannelError::LinkNotFound => "link not found".to_owned(),
            FlannelError::BackendNotDefined => "backend is not defined".to_owned(),
            FlannelError::PublicIpDiffers =>
                "your PublicIP differs from interface IP, meaning that probably you're on a NAT, which is not supported by host-gw backend".to_owned(),
            FlannelError::PacketTooShort =>
                "ip slice length should be at least 20 bytes".to_owned(),
            FlannelError::InvalidMac => "invalid mac address".to_owned(),
        }
    }
}

/// The messages that name something name it in full.
pub proof fn messages_name_what_is_missing(sn: Ipv4Network, name: String)
    ensures
        FlannelError::SubnetNotFound(sn).text() == "subnet "@ + cidr_text(sn.ip(), sn.prefix())
            + " not found"@,
        FlannelError::NoValidAddress(name).text()
            == "Could not find any valid address on interface "@ + name@,
{
}

}
