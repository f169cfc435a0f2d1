[package]
name = "aingle_minimal"
version = "0.1.0"
edition = "2021"
publish = false

[dependencies]
blake3 = "=1.8.7"
rand = "=0.9.5"
ed25519-dalek = { version = "=2.2.0", features = ["rand_core"] }
serde = { version = "=1.0.229", features = ["derive"] }
serde_json = "=1.0.154"
clap = { version = "4", features = ["derive"] }
env_logger = "*"
log = "0.4"
coap-lite = "*"
tiny_http = "*"
mdns-sd = "*"
