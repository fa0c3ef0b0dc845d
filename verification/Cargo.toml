[package]
name = "dcontext"
version = "0.9.0"
edition = "2021"
publish = false

[dependencies]
bincode = "1.3"
dactor = "0.3"
pin-project-lite = "0.2"
serde = { version = "1", features = ["derive"] }
thiserror = "1"
tokio = { version = "1", features = ["rt-multi-thread", "macros"] }
tracing = "0.1"
tracing-core = "0.1"
tracing-subscriber = "0.3"

[dev-dependencies]
base64 = "0.22"
serde_json = "1"
