[package]
name = "peer_chat"
version = "0.1.0"
edition = "2021"
publish = false

[dependencies]
async-trait = "0.1"
futures = "0.3"
libp2p = { version = "0.53", features = ["dns", "macros", "mdns", "noise", "request-response", "tcp", "tokio", "yamux"] }
tokio = { version = "1", features = ["io-std", "io-util", "macros", "rt-multi-thread", "sync"] }
