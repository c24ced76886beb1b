[package]
name = "grok_providers"
version = "0.1.0"
edition = "2021"
publish = false

[dependencies]
agent-client-protocol = { version = "0.10", features = ["unstable"] }
anyhow = "=1.0.104"
axum = "=0.8.9"
base64 = "=0.22.1"
chrono = { version = "=0.4.45", features = ["serde"] }
futures-util = { version = "=0.3.34", features = ["sink"] }
indexmap = "=2.14.2"
jsonwebtoken = { version = "=11.1.0", features = ["rust_crypto"] }
rand = "=0.9.5"
reqwest = { version = "=0.12.28", default-features = false, features = ["blocking", "json"] }
serde = { version = "=1.0.229", features = ["derive"] }
serde_json = { version = "=1.0.154", features = ["float_roundtrip", "preserve_order"] }
sha2 = "=0.10.9"
tokio = { version = "=1.54.1", features = ["full"] }
tokio-tungstenite = "=0.26.2"
tokio-util = "=0.7.20"
tracing = "=0.1.44"
url = "=2.5.8"
urlencoding = "=2.1.3"
webbrowser = "=1.2.6"
