[package]
name = "auction_engine"
version = "0.1.0"
edition = "2021"
publish = false

[dependencies]
anyhow = "1"
base64 = "0.21"
blake2b_simd = "1"
bytes = "1"
chacha20poly1305 = "0.10"
clap = { version = "4", features = ["derive"] }
http = "0.2"
pbjson-types = "0.6"
prost = "0.12"
serde = { version = "1", features = ["derive"] }
tap = "1"
tendermint = "0.34"
tendermint-proto = "0.34"
tonic = "0.10"
tracing = "0.1"
