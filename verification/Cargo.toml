[package]
name = "p2p_chat"
version = "0.1.0"
edition = "2021"
publish = false

[dependencies]
sha3-rust = "*"
rusqlite = { version = "*", features = ["bundled"] }
libp2p = { version = "*", features = ["tokio", "gossipsub", "mdns", "noise", "macros", "tcp", "yamux", "quic"] }
tokio = { version = "1", features = ["io-std", "io-util", "macros", "rt-multi-thread"] }
futures = "0.3"
tracing-subscriber = { version = "0.3", features = ["env-filter"] }
