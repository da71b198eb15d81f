[package]
name = "parsec"
version = "0.1.0"
edition = "2021"
publish = false

[dependencies]
regex = "=1.13.1"
uuid = { version = "=1.29.0", features = ["v4"] }
chrono = "=0.4.45"
petgraph = "=0.6.5"
sqlparser = "=0.63.0"
tokio = { version = "=1.54.1", features = ["sync", "rt", "time", "fs", "macros"] }
serde = { version = "=1.0.229", features = ["derive"] }
serde_json = "=1.0.154"
keyboard-types = "=0.7.0"
palette = "=0.7.7"
aes-gcm = "0.10"
x25519-dalek = { version = "2", features = ["static_secrets", "getrandom"] }
