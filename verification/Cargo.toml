[package]
name = "isotope"
version = "4.0.0"
edition = "2021"
publish = false

[dependencies]
blake3 = "=1.8.7"
chacha20poly1305 = "=0.10.1"
argon2 = "=0.5.3"
x25519-dalek = { version = "=2.0.1", features = ["static_secrets"] }
rand = "=0.8.8"
base64 = "=0.22.1"
bs58 = "=0.5.1"
hex = "=0.4.3"
snow = "=0.9.6"
zeroize = { version = "=1.9.1", features = ["derive"] }
serde = { version = "=1.0.229", features = ["derive"] }
serde_json = "=1.0.154"
bincode = "=1.3.3"
anyhow = "=1.0.104"
thiserror = "=1.0.69"
tokio = { version = "=1.54.1", features = ["full"] }
clap = { version = "=4.6.7", features = ["derive"] }
chrono = { version = "=0.4.45", features = ["serde"] }
crossterm = "=0.27.0"
dashmap = "=5.5.3"
pqcrypto-kyber = "=0.8.1"
pqcrypto-traits = "=0.3.5"
rpassword = "=7.5.4"
tracing = "=0.1.44"
tracing-subscriber = "=0.3.23"
audiopus = "0.2"
