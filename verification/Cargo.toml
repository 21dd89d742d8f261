[package]
name = "pong_core"
version = "0.1.0"
edition = "2021"
publish = false

[dependencies]
sha2 = "0.10"
hex = "0.4"
serde = { version = "1", features = ["derive"] }
serde_json = "1"
tiny_http = "0.12"
thiserror = "1"
fs2 = "0.4"
libc = "0.2"
