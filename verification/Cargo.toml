[package]
name = "litep2p"
version = "0.1.0"
edition = "2021"
publish = false

[dependencies]
anyhow = "1"
bs58 = "=0.5.1"
bytes = "=1.12.1"
cid = "=0.11.3"
ed25519-dalek = { version = "2", features = ["rand_core"] }
env_logger = "0.11"
futures = "=0.3.34"
multiaddr = "=0.18.2"
multihash = "=0.19.5"
multihash-codetable = { version = "=0.2.2", features = ["std", "sha2", "sha3", "blake2b", "blake2s"] }
multistream-select = "0.13"
prost = "=0.12.6"
rand = "=0.8.8"
sha2 = "=0.10.9"
snow = "=0.9.6"
socket2 = { version = "=0.6.5", features = ["all"] }
thiserror = "=1.0.69"
tokio = { version = "=1.54.1", features = ["rt-multi-thread", "net", "io-util", "time", "macros", "sync"] }
tokio-util = { version = "0.7", features = ["compat"] }
tracing = "=0.1.44"
unsigned-varint = "=0.8.0"
yamux = "0.12"
zeroize = "=1.9.1"
