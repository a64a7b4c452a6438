[package]
name = "grokchain"
version = "0.1.0"
edition = "2021"
publish = false

[dependencies]
blake3 = "*"
sha2 = "*"
ed25519-dalek = { version = "*", features = ["rand_core"] }
rand = "0.8"
serde = { version = "*", features = ["derive"] }
bincode = "1"
rocksdb = "*"
