[package]
name = "clawbot_web"
version = "0.1.0"
edition = "2021"
publish = false

[dependencies]
anyhow = "1"
axum = "0.8"
base64 = "0.22"
bcrypt = "*"
chrono = "0.4"
image = { version = "0.25", default-features = false, features = ["png"] }
mime_guess = "2"
rand = "0.10"
reqwest = { version = "0.12", default-features = false }
rusqlite = { version = "*", features = ["bundled"] }
serde = { version = "1", features = ["derive"] }
serde_json = "1"
tokio = { version = "1", features = ["rt-multi-thread", "macros", "net", "sync", "time", "signal", "io-util", "io-std"] }
uuid = { version = "1", features = ["v4"] }
