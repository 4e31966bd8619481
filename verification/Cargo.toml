[package]
name = "px_mpc_module"
version = "0.1.0"
edition = "2021"
publish = false

[dependencies]
futures = "0.3"
serde = { version = "1", features = ["derive"] }
serde_json = "1"
anyhow = "1"
libc = "0.2"
tokio = { version = "1", features = ["macros", "rt-multi-thread", "sync"] }
async-stream = "0.3"
libp2p = { version = "0.56", features = ["gossipsub", "macros", "mdns", "noise", "tcp", "tokio", "yamux"] }
