//! The logic of a network overlay for containers: which subnet a host gets, how the hosts learn of
//! each other's subnets, and how packets find their way between them.
//!
//! Everything here computes. The registry, the kernel, the clock and the sockets are asked by the
//! program around the library, which hands over what they answered.
pub mod addr;
pub mod backend;
pub mod error;
pub mod etcd;
pub mod ip;
pub mod json;
pub mod lease;
pub mod mac;
pub mod netlink;
pub mod subnet;
pub mod text;
pub mod time;
