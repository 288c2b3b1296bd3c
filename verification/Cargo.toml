[package]
name = "blockchain"
version = "0.1.0"
edition = "2021"
publish = false

[dependencies]
anyhow = "=1.0.104"
arrayvec = "=0.7.8"
base58 = "=0.2.0"
clap = { version = "=4.6.7", features = ["derive"] }
hex = "=0.4.3"
k256 = { version = "=0.11.6", features = ["ecdsa", "keccak256"] }
lazy_static = "=1.5.1"
r2d2 = "=0.8.10"
r2d2_sqlite = "=0.35.0"
rand = "=0.8.8"
ripemd160 = "=0.9.1"
rusqlite = "=0.40.2"
serde = { version = "=1.0.229", features = ["derive"] }
serde_json = "=1.0.154"
sha2 = "=0.9.9"
thiserror = "=1.0.69"
tracing = "=0.1.44"
tracing-appender = "=0.2.5"
tracing-bunyan-formatter = "=0.3.11"
tracing-subscriber = { version = "=0.3.23", features = ["env-filter"] }
