[package]
name = "zk_schnorr_lib"
version = "0.1.0"
edition = "2021"
publish = false

[dependencies]
anyhow = "1"
curve25519-dalek = { version = "4", features = ["rand_core", "digest"] }
hex = "0.4"
rand = "0.8"
rcgen = "0.11"
rustls = "0.21"
serde = { version = "1", features = ["derive"] }
serde_json = "1"
sha2 = "0.10"
thiserror = "1"
tokio = { version = "1", features = ["macros", "rt-multi-thread", "net", "io-util"] }
tokio-rustls = "0.24"
