[package]
name = "nexus_cli"
version = "0.1.0"
edition = "2021"
publish = false

[dependencies]
ed25519-dalek = { version = "=2.2.0", features = ["rand_core"] }
rand = "=0.8.8"
sha3 = "=0.10.9"
md5 = "=0.7.0"
postcard = { version = "=1.1.3", features = ["alloc"] }
thiserror = "=1.0.69"
tokio = { version = "=1.54.1", features = ["sync", "time", "macros", "rt-multi-thread"] }
home = "=0.5.12"
serde_json = "=1.0.154"
lazy_static = "=1.5.1"
log = "=0.4.35"
colored = "=2.2.0"
