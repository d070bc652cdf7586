[package]
name = "tauri-plugin-mcp-bridge"
version = "0.1.0"
edition = "2021"
publish = false

[dependencies]
block2 = "0.6"
objc2 = "0.6"
objc2-foundation = "0.3"
objc2-web-kit = { version = "0.3", features = ["WKWebView", "block2"] }
serde = { version = "1", features = ["derive"] }
serde_json = "=1.0.154"
tauri = { version = "=2.12.5", default-features = false, features = ["unstable", "wry"] }
tokio = { version = "1", features = ["rt", "sync", "time"] }
uuid = { version = "=1.29.0", features = ["v4"] }
