[package]
name = "nn_engine"
version = "0.1.0"
edition = "2021"
publish = false

[dependencies]
tokio = { version = "1", features = ["rt-multi-thread", "macros", "sync", "fs", "net"] }
async-trait = "0.1"
axum = "0.8"
serde = { version = "1", features = ["derive"] }
ndarray = "0.16"
ndarray-rand = "0.15"
tracing = "0.1"
tracing-subscriber = { version = "0.3", features = ["env-filter"] }
csv = "1"
reqwest = { version = "0.12", default-features = false }
zip = { version = "2", default-features = false }

[dev-dependencies]
bincode = "1"
