pub mod backend;
pub mod router_network;
