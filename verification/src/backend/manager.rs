//! Choosing a backend.
use vstd::prelude::*;

use crate::backend::common::ExternalInterface;
use crate::backend::hostgw::backend::HostGw;
use crate::backend::udp::network::UdpBackend;
use crate::backend::vxlan::backend::Vxlan;
use crate::error::FlannelError;
use crate::subnet::manager::SubnetManager;
use crate::text::{ascii_lower, same_ignoring_case};

verus! {

/// Makes the backend that a configuration names.
#[derive(Debug)]
pub struct BackendManager {
    pub subnet_manager: SubnetManager,
    pub ext_iface: ExternalInterface,
}

/// A backend that can be chosen by its name.
#[derive(Debug)]
pub enum SelectedBackend {
    Vxlan(Vxlan),
    Udp(UdpBackend),
    HostGw(HostGw),
}

impl BackendManager {
    pub fn new(subnet_manager: SubnetManager, ext_iface: ExternalInterface) -> (r: Self)
        ensures
            r == (BackendManager { subnet_manager, ext_iface }),
    {
        BackendManager { subnet_manager, ext_iface }
    }

    /// The backend of a name, in which upper and lower case are the same. The host-gw backend is
    /// refused where the public address is not the interface's own.
    pub fn get_backend(self, backend_type: &str) -> (r: Result<SelectedBackend, FlannelError>)
        ensures
            ascii_lower(backend_type@) == "vxlan"@ ==> r == Ok::<SelectedBackend, FlannelError>(
                SelectedBackend::Vxlan(
                    Vxlan { subnet_manager: self.subnet_manager, ext_iface: self.ext_iface },
                ),
            ),
            ascii_lower(backend_type@) == "udp"@ ==> r == Ok::<SelectedBackend, FlannelError>(
                SelectedBackend::Udp(
                    UdpBackend { sm: self.subnet_manager, ext_iface: self.ext_iface },
                ),
            ),
            ascii_lower(backend_type@) == "host-gw"@ ==> r == if self.ext_iface.ext_addr == Some(
                self.ext_iface.iface_addr,
            ) {
                Ok::<SelectedBackend, FlannelError>(
                    SelectedBackend::HostGw(
                        HostGw { subnet_manager: self.subnet_manager, ext_iface: self.ext_iface },
                    ),
                )
            } else {
                Err(FlannelError::PublicIpDiffers)
            },
            ascii_lower(backend_type@) != "vxlan"@ && ascii_lower(backend_type@) != "udp"@
                && ascii_lower(backend_type@) != "host-gw"@ ==> r == Err::<
                SelectedBackend,
                FlannelError,
            >(FlannelError::BackendNotDefined),
    {
        proof {
            reveal_strlit("vxlan");
            reveal_strlit("udp");
            reveal_strlit("host-gw");
            assert("vxlan"@.len() == 5 && "udp"@.len() == 3 && "host-gw"@.len() == 7);
        }
        if same_ignoring_case(backend_type, "vxlan") {
            Ok(SelectedBackend::Vxlan(Vxlan::new(self.subnet_manager, self.ext_iface)))
        } else if same_ignoring_case(backend_type, "udp") {
            Ok(SelectedBackend::Udp(UdpBackend::new(self.subnet_manager, self.ext_iface)))
        } else if same_ignoring_case(backend_type, "host-gw") {
            match HostGw::new(self.subnet_manager, self.ext_iface) {
                Ok(hostgw) => Ok(SelectedBackend::HostGw(hostgw)),
                Err(e) => Err(e),
            }
        } else {
            Err(FlannelError::BackendNotDefined)
        }
    }
}

}
