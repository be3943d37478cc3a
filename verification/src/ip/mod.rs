pub mod iface;
