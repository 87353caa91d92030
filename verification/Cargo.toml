[package]
name = "rust_applesauce"
version = "0.1.0"
edition = "2021"
publish = false

[dependencies]
async-stream = "0.3"
futures-util = "0.3"
nanoid = "0.4"
serde = { version = "1", features = ["derive"] }
serde_json = "1"
thiserror = "2"
tokio = { version = "1", features = ["macros", "net", "rt-multi-thread", "sync", "time"] }
tokio-tungstenite = { version = "0.26", features = ["rustls-tls-webpki-roots"] }
