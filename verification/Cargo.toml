[package]
name = "agentgateway_mcp"
version = "0.1.0"
edition = "2021"
publish = false

[dependencies]
frozen-collections = "=0.9.3"
percent-encoding = "=2.3.2"
regex = "=1.13.1"
serde_json = "=1.0.154"
url = "=2.5.8"
uuid = { version = "=1.29.0", features = ["v4"] }
bytes = "1"
futures-util = "0.3"
http = "=1.5.0"
parking_lot = "0.12"
prometheus-client = "=0.25.2"
rmcp = { version = "1", default-features = false, features = ["client", "server"] }
serde = { version = "1", features = ["derive"] }
thiserror = "2"
tokio = { version = "1", features = ["rt", "sync", "time", "macros"] }
tracing = "0.1"
