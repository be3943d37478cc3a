use flannel_ng::error::FlannelError;

#[test]
fn messages_for_an_operator() {
    for (error, message) in [
        (
            FlannelError::MissingNetwork,
            "please define a correct Network parameter in the flannel config",
        ),
        (FlannelError::SubnetLenTooLong, "SubnetLen must be less than /31"),
        (
            FlannelError::TooFewSubnets,
            "network must be able to accommodate at least four subnets",
        ),
        (
            FlannelError::NetworkTooSmall,
            "network is too small. Minimum useful network prefix is /28",
        ),
        (FlannelError::SubnetMinOutOfRange, "SubnetMin is not in the network range"),
        (FlannelError::SubnetMaxOutOfRange, "SubnetMax is not in the network range"),
        (FlannelError::SubnetMinUnaligned, "SubnetMin is not aligned to SubnetLen"),
        (FlannelError::SubnetMaxUnaligned, "SubnetMax is not aligned to SubnetLen"),
        (FlannelError::NoAvailableSubnets, "no available subnets"),
        (FlannelError::InvalidSubnetKey, "invalid subnet"),
        (
            FlannelError::NoFlannelNetwork,
            "could not find an ipv4 network in the flannel configuration",
        ),
        (FlannelError::LeaseDeleted, "lease deleted"),
        (FlannelError::InvalidKv, "invalid kv"),
        (FlannelError::InvalidKey, "key is not a valid UTF-8 string"),
        (FlannelError::TxnRefused, "txn_resp is not succeeded"),
        (
            FlannelError::DefaultRouteWithoutInterface,
            "Found default route but could not determine interface",
        ),
        (FlannelError::NoDefaultGateway, "Could not find default gateway interface"),
        (FlannelError::LinkNotFound, "link not found"),
        (FlannelError::BackendNotDefined, "backend is not defined"),
    ] {
        assert_eq!(error.message(), message);
    }
}
