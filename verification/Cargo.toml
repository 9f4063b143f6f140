[package]
name = "haiku_core"
version = "0.1.0"
edition = "2021"
publish = false

[dependencies]
starknet-crypto = "=0.8.1"
clap = { version = "=4.5.61", features = ["derive"] }
eyre = "=0.6.14"
tokio = { version = "=1.53.2", features = ["macros", "rt-multi-thread", "sync"] }
tokio-rusqlite = { version = "=0.8.0", features = ["bundled"] }
tracing = "=0.1.44"
tracing-subscriber = { version = "=0.3.23", features = ["env-filter"] }
