[package]
name = "unifree"
version = "0.1.0"
edition = "2021"
publish = false

[dependencies]
aes = "0.8"
aes-gcm = "0.10"
cbc = { version = "0.1", features = ["alloc", "block-padding"] }
flate2 = "1"
hex = "0.4"
md5 = "0.7"
rust_iso3166 = "0.1"
sha2 = "0.10"
pwhash = "1"
rand = "0.9"
chrono = { version = "0.4", features = ["serde"] }
openssl = "0.10"
iana-time-zone = "0.1"
serde = { version = "1", features = ["derive"] }
serde_json = "1"
uuid = { version = "1", features = ["v4"] }
ssh2 = "0.9"
tokio = { version = "1", features = ["full"] }
axum = "0.8"
reqwest = { version = "0.12", default-features = false, features = ["json"] }
clap = { version = "4", features = ["derive"] }
tracing = "0.1"
tracing-subscriber = { version = "0.3", features = ["env-filter"] }
anyhow = "1"
thiserror = "2"
prometheus = "0.14"
