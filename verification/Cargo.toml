[package]
name = "sharp"
version = "0.1.0"
edition = "2021"
publish = false

[dependencies]
hound = "=3.5.1"
base64 = "=0.22.1"
serde = { version = "1", features = ["derive"] }
serde_json = "1"
reqwest = { version = "0.12", default-features = false, features = ["json", "multipart", "stream", "rustls-tls"] }
tokio = { version = "1", features = ["full"] }
futures-util = "0.3"
dirs = "5"
dotenvy = "0.15"
