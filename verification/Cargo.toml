[package]
name = "flannel-ng"
version = "0.1.0"
edition = "2021"
publish = false

[dependencies]
anyhow = "1"
async-trait = "0.1"
clap = { version = "4", features = ["derive"] }
etcd-client = "0.12"
ipnetwork = "0.20"
macaddr = "1"
nix = { version = "0.27", features = ["ioctl"] }
rand = "0.8"
regex = "1"
serde = { version = "1", features = ["derive"] }
serde_json = "1"
tokio = { version = "1", features = ["full"] }
