pub mod common;
pub mod hostgw;
pub mod manager;
pub mod udp;
pub mod vxlan;
