[package]
name = "nara"
version = "0.1.0"
edition = "2021"
publish = false

[dependencies]
blake3 = "=1.8.7"
uuid = "=1.29.0"
png = "=0.18.1"
serde = { version = "=1.0.229", features = ["derive"] }
thiserror = "=1.0.69"
