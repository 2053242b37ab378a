[package]
name = "rust_chain"
version = "0.1.0"
edition = "2021"
publish = false

[dependencies]
sha2 = "*"
secp256k1 = "*"
hex = "*"
chrono = "*"
rand = "*"
serde = { version = "*", features = ["derive"] }
serde_json = "*"
axum = "*"
tokio = { version = "*", features = ["full"] }
config = "*"
tower-http = { version = "*", features = ["cors", "trace"] }
tracing = "*"
tracing-subscriber = "*"
