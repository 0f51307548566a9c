[package]
name = "reth"
version = "0.1.0"
edition = "2021"
publish = false

[dependencies]
alloy-consensus = { version = "1", default-features = false, features = ["std"] }
alloy-eip2124 = { version = "0.2", default-features = false, features = ["std"] }
alloy-eips = { version = "1", default-features = false, features = ["std"] }
alloy-primitives = { version = "1", default-features = false, features = ["std", "rlp"] }
alloy-rlp = { version = "0.3", default-features = false, features = ["std"] }
bytes = "1"
clap = { version = "4", features = ["derive"] }
eyre = "0.6"
futures = "0.3"
humantime-serde = "1"
libc = "0.2"
parking_lot = "0.12"
serde = { version = "1", features = ["derive"] }
snap = "1"
thiserror = "2"
tokio = { version = "1", features = ["full"] }
tokio-stream = "0.1"
toml = "0.8"
tracing = "0.1"
url = { version = "2", features = ["serde"] }
