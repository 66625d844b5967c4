[package]
name = "rustcoin"
version = "0.1.0"
edition = "2021"
publish = false

[dependencies]
sha2 = "0.10"
ripemd = "0.1"
hex = "0.4"
bs58 = "0.5"
ed25519-dalek = "2"
rand = "0.8"
dashmap = "5"
tokio-util = "0.7"
tokio = { version = "1", features = ["full"] }
serde = { version = "1", features = ["derive"] }
serde_json = "1"
thiserror = "1"
anyhow = "1"
clap = { version = "4", features = ["derive", "env"] }
toml = "0.8"
tracing = "0.1"
tracing-subscriber = { version = "0.3", features = ["env-filter"] }
parking_lot = "0.12"
rocksdb = "0.22"
axum = "0.7"
tower-http = { version = "0.5", features = ["cors", "trace"] }
futures = "0.3"
zeroize = "1"

[dev-dependencies]
tempfile = "3"
