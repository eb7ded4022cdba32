[package]
name = "voicechat"
version = "0.1.0"
edition = "2021"
publish = false

[dependencies]
base64 = "0.22"
uuid = { version = "1", features = ["v4"] }
chrono = "0.4"
serde = { version = "1", features = ["derive"] }
serde_json = "1"
rusqlite = { version = "0.32", features = ["bundled"] }
reqwest = { version = "0.12", default-features = false, features = ["json", "rustls-tls"] }
tokio = { version = "1", features = ["full"] }
tokio-tungstenite = { version = "0.26", features = ["rustls-tls-webpki-roots"] }
futures-util = "0.3"
hound = "3"
rubato = "1"
audioadapter-buffers = "*"
ringbuf = "0.4"
keyring = { version = "3", features = ["windows-native"] }
tracing = "0.1"
tracing-subscriber = "0.3"
