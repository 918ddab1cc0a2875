[package]
name = "codex-switcher"
version = "0.2.0"
edition = "2021"
publish = false

[dependencies]
anyhow = "1"
base64 = "0.22"
chacha20poly1305 = "0.10"
chrono = { version = "0.4", features = ["serde"] }
crypto_box = { version = "0.9", features = ["seal"] }
dirs = "6"
ed25519-dalek = { version = "2", features = ["pkcs8"] }
flate2 = "1"
futures = "0.3"
pbkdf2 = "0.12"
plist = "1"
rand = "0.9"
reqwest = { version = "0.12", default-features = false, features = ["json", "rustls-tls"] }
serde = { version = "1", features = ["derive"] }
serde_json = "1"
sha2 = "0.10"
tokio = { version = "1", features = ["rt-multi-thread", "macros", "time"] }
urlencoding = "2"
uuid = { version = "1", features = ["v4"] }
