[package]
name = "arangodb_types"
version = "0.1.0"
edition = "2021"
publish = false

[dependencies]
anyhow = "=1.0.104"
arangors = { version = "=0.5.5", default-features = false, features = ["rocksdb", "reqwest_async_rustls"] }
async-trait = "=0.1.92"
chrono = "=0.4.45"
proc-macro2 = "=1.0.107"
quote = "=1.0.47"
serde = { version = "=1.0.229", features = ["derive"] }
serde_json = "=1.0.154"
syn = { version = "=2.0.119", features = ["full", "extra-traits"] }
