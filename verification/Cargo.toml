[package]
name = "mft"
version = "0.1.0"
edition = "2021"
publish = false

[dependencies]
base64 = "0.13"
byteorder = "1"
chrono = { version = "0.4", default-features = false, features = ["std", "serde"] }
log = "0.4"
regex = "1"
serde = { version = "1", features = ["derive"] }
serde_json = "1"
simple_logger = { version = "4", default-features = false }
