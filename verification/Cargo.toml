[package]
name = "resocks5"
version = "0.1.0"
edition = "2021"
publish = false

[dependencies]
anyhow = "1"
argon2 = "0.5"
base64 = "0.22"
clap = { version = "4", features = ["derive"] }
dashmap = "6"
getrandom = "0.2"
hmac = "0.12"
ktav = "*"
regex = "1"
rpassword = "7"
serde = { version = "1", features = ["derive"] }
sha2 = "0.10"
subtle = "2"
tokio = { version = "1", features = ["full"] }
