[package]
name = "serial-mcp-server"
version = "0.3.0"
edition = "2021"
publish = false

[dependencies]
base64 = "=0.22.1"
hex = "=0.4.3"
glob = "=0.3.4"
serialport = { version = "=4.10.1", default-features = false }
tokio-serial = { version = "=5.5.0", default-features = false }
tokio = { version = "=1.54.1", features = ["full"] }
tokio-util = "=0.7.20"
rmcp = { version = "=1.8.0", features = ["server", "macros", "transport-io", "transport-streamable-http-server"] }
serde = { version = "=1.0.229", features = ["derive"] }
serde_json = "=1.0.154"
schemars = "=1.2.3"
uuid = { version = "=1.29.0", features = ["v4"] }
axum = "=0.8.9"
tracing = "=0.1.44"
tracing-subscriber = { version = "=0.3.23", features = ["env-filter"] }
thiserror = "=2.0.21"
