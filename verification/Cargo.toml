[package]
name = "p2p_tls_handshake"
version = "0.1.0"
edition = "2021"
publish = false

[dependencies]
ring = "=0.17.14"
libp2p-identity = { version = "=0.2.14", features = ["ed25519", "peerid", "rand"] }
multistream-select = "=0.13.0"
rustls = { version = "=0.21.12", features = ["dangerous_configuration"] }
futures-rustls = "=0.24.0"
futures = "=0.3.34"
libp2p-core = "=0.41.3"
tokio = { version = "=1.53.2", features = ["rt-multi-thread", "net", "io-util", "sync", "time", "macros"] }
tokio-util = { version = "=0.7.19", features = ["compat"] }
clap = { version = "=4.6.7", features = ["derive"] }
dotenvy = "=0.15.7"
tracing = "=0.1.44"
tracing-subscriber = { version = "=0.3.23", features = ["env-filter"] }
anyhow = "=1.0.104"
thiserror = "=1.0.69"
