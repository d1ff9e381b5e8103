[package]
name = "p2p_rt"
version = "0.1.0"
edition = "2021"
publish = false

[dependencies]
rmp-serde = "*"
serde = { version = "*", features = ["derive"] }
anyhow = "*"
futures = "*"
parking_lot = "*"
tokio = { version = "*", features = ["rt-multi-thread", "net", "time", "sync", "macros", "io-util"] }
tokio-util = { version = "*", features = ["codec"] }
tokio-serde = { version = "*", features = ["messagepack"] }
s2n-quic = "*"
async-stream = "*"
