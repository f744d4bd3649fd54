[package]
name = "log_chain"
version = "0.1.0"
edition = "2021"
publish = false

[dependencies]
tokio = { version = "1", default-features = false, features = ["sync", "macros", "rt"] }
anyhow = "1"
tracing = "0.1"
serde = { version = "1", features = ["derive"] }
serde_json = "1"
humantime = "2"
enumset = "1"
bilrost = "*"
bytes = "1"
bytestring = "1"
futures = "0.3"
