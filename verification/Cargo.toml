[package]
name = "ntfy-daemon"
version = "0.1.0"
edition = "2021"
publish = false

[dependencies]
aes-gcm = "0.10"
anyhow = "1"
base64 = "0.22"
chrono = "0.4"
oo7 = "*"
rand = "0.8"
regex = "1"
rusqlite = { version = "*", features = ["bundled"] }
serde = { version = "1", features = ["derive"] }
serde_json = "1"
tokio = { version = "1", features = ["rt", "macros", "sync", "time"] }
tracing = "0.1"
ureq = "3"
