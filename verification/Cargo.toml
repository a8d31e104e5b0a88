[package]
name = "mcp_dispatch"
version = "0.1.0"
edition = "2021"
publish = false

[dependencies]
axum = "=0.8.9"
rmcp = { version = "=3.7.0", features = ["server", "transport-streamable-http-server"] }
serde_json = "=1.0.154"
tokio = { version = "=1.54.1", features = ["macros", "rt-multi-thread", "net"] }
