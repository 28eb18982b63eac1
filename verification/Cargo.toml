[package]
name = "kagimori"
version = "0.1.0"
edition = "2021"
publish = false

[dependencies]
chacha20poly1305 = "*"
aes-siv = "*"
sha2 = "*"
chrono = "*"
uuid = { version = "*", features = ["serde"] }
serde = { version = "*", features = ["derive"] }
toml = "*"
base64 = "*"
clap = { version = "*", features = ["derive"] }
tracing = "*"
tracing-subscriber = { version = "*", features = ["env-filter"] }
