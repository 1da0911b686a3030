[package]
name = "fortress"
version = "0.1.0"
edition = "2021"
publish = false

[dependencies]
bincode = "=1.3.3"
bytes = "=1.12.1"
crossbeam = "0.8"
ed25519-dalek = { version = "=2.2.0", features = ["rand_core"] }
futures = "0.3"
heapless = "=0.9.3"
local-channel = "0.1"
rand = "0.8"
tokio = { version = "1", features = ["full"] }
tokio-util = { version = "0.7", features = ["codec"] }
