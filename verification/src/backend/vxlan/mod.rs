pub mod backend;
pub mod device;
pub mod network;
