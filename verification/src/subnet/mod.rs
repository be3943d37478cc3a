pub mod allocation;
pub mod config;
pub mod env;
pub mod manager;
pub mod renewal;
pub mod watcher;
