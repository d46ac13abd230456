[package]
name = "hyperloglog"
version = "0.1.0"
edition = "2021"
publish = false

[dependencies]
siphasher = "*"
bytecount = "*"
rand = "0.8"
serde = { version = "*", features = ["derive"] }
serde_json = "*"
bincode = "1"
